use vstd::prelude::*;

use core::marker::PhantomData;

use crate::borrow_fail::BorrowFail;
use crate::cell::lemma_claim_release_round_trip;
use crate::cell::Cell;
use crate::cell_ref::CellRef;
use crate::cell_ref_mut::CellRefMut;
use crate::resources::Resources;

verus! {

/// How a resource function accesses one of its parameters.
#[derive(Clone, Copy, Debug, PartialEq, Eq, Structural)]
pub enum AccessMode {
    /// The parameter is read: a shared claim.
    Shared,
    /// The parameter is mutated: the exclusive claim.
    Exclusive,
}

/// One parameter of a resource function: which entry it claims, and how.
#[derive(Clone, Copy, Debug, PartialEq, Eq, Structural)]
pub struct ParamDesc {
    /// The type-identity token of the entry the parameter is served from.
    pub key: u64,
    /// How the parameter accesses the entry.
    pub mode: AccessMode,
}

/// One claim taken while resolving a parameter list.
pub enum Claim<V> {
    /// A shared claim token.
    Shared(CellRef<V>),
    /// The exclusive claim token.
    Exclusive(CellRefMut<V>),
}

impl<V> Claim<V> {
    /// The type-identity token the claim was granted under.
    pub open spec fn key(self) -> u64 {
        match self {
            Claim::Shared(guard) => guard.key(),
            Claim::Exclusive(guard) => guard.key(),
        }
    }
}

/// The outcome of claiming `params` in declaration order against `m`: the
/// map with every claim taken, or the first refusal, which reports a missing
/// entry or the kind of conflict exactly as the matching single borrow
/// would.
pub open spec fn acquire_outcome<V>(m: Map<u64, Cell<V>>, params: Seq<ParamDesc>) -> Result<
    Map<u64, Cell<V>>,
    BorrowFail,
>
    decreases params.len(),
{
    if params.len() == 0 {
        Ok(m)
    } else {
        let p = params[0];
        if !m.contains_key(p.key) {
            Err(BorrowFail::ValueNotFound)
        } else if p.mode is Shared {
            if m[p.key].can_read() {
                acquire_outcome(m.insert(p.key, m[p.key].with_reader()), params.skip(1))
            } else {
                Err(BorrowFail::BorrowConflictImm)
            }
        } else {
            if m[p.key].can_write() {
                acquire_outcome(m.insert(p.key, m[p.key].with_writer()), params.skip(1))
            } else {
                Err(BorrowFail::BorrowConflictMut)
            }
        }
    }
}

/// The map after returning the claims for `params`, newest first (the last
/// parameter's claim is returned first), or `None` when some entry does not
/// hold the claim that is to be returned.
pub open spec fn release_outcome<V>(m: Map<u64, Cell<V>>, params: Seq<ParamDesc>) -> Option<
    Map<u64, Cell<V>>,
>
    decreases params.len(),
{
    if params.len() == 0 {
        Some(m)
    } else {
        let p = params.last();
        if !m.contains_key(p.key) {
            None
        } else if p.mode is Shared {
            if m[p.key].is_reading() {
                release_outcome(m.insert(p.key, m[p.key].without_reader()), params.drop_last())
            } else {
                None
            }
        } else {
            if m[p.key].is_writing() {
                release_outcome(m.insert(p.key, m[p.key].without_writer()), params.drop_last())
            } else {
                None
            }
        }
    }
}

impl<V> Resources<V> {
    /// Claims every parameter in declaration order. On the first refusal the
    /// claims already taken are returned again and the refusal is reported,
    /// leaving the map exactly as it was: a failed batch has no partial
    /// effect. On success one claim token per parameter is returned, in
    /// parameter order.
    pub fn try_borrow_all(&mut self, params: &Vec<ParamDesc>) -> (outcome: Result<
        Vec<Claim<V>>,
        BorrowFail,
    >)
        ensures
            outcome is Ok <==> acquire_outcome(old(self)@, params@) is Ok,
            outcome matches Ok(claims) ==> acquire_outcome(old(self)@, params@) == Ok::<
                _,
                BorrowFail,
            >(final(self)@) && claims@.len() == params@.len() && (forall|j: int|
                0 <= j < params@.len() ==> ((#[trigger] claims@[j]) is Shared <==> params@[j].mode
                    is Shared) && claims@[j].key() == params@[j].key),
            outcome matches Err(e) ==> acquire_outcome(old(self)@, params@) == Err::<
                Map<u64, Cell<V>>,
                _,
            >(e) && final(self)@ == old(self)@,
    {
        let mut claims: Vec<Claim<V>> = Vec::new();
        let mut i: usize = 0;
        proof {
            assert(params@.skip(0) =~= params@);
            assert(params@.take(0) =~= Seq::<ParamDesc>::empty());
        }
        while i < params.len()
            invariant
                i <= params@.len(),
                claims@.len() == i,
                forall|j: int|
                    0 <= j < i ==> ((#[trigger] claims@[j]) is Shared <==> params@[j].mode
                        is Shared) && claims@[j].key() == params@[j].key,
                acquire_outcome(old(self)@, params@) == acquire_outcome(
                    self@,
                    params@.skip(i as int),
                ),
                release_outcome(self@, params@.take(i as int)) == Some(old(self)@),
            decreases params@.len() - i,
        {
            let p = params[i];
            proof {
                assert(params@.skip(i as int)[0] == params@[i as int]);
                assert(params@.skip(i as int).skip(1) =~= params@.skip(i as int + 1));
                assert(params@.take(i as int + 1).last() == params@[i as int]);
                assert(params@.take(i as int + 1).drop_last() =~= params@.take(i as int));
            }
            let ghost before = self@;
            match p.mode {
                AccessMode::Shared => {
                    match self.try_borrow(p.key) {
                        Ok(guard) => {
                            claims.push(Claim::Shared(guard));
                            proof {
                                lemma_claim_release_round_trip(before[p.key]);
                                assert(self@.insert(p.key, self@[p.key].without_reader())
                                    =~= before);
                            }
                        },
                        Err(e) => {
                            self.release_prefix(params, claims, i);
                            return Err(e);
                        },
                    }
                },
                AccessMode::Exclusive => {
                    match self.try_borrow_mut(p.key) {
                        Ok(guard) => {
                            claims.push(Claim::Exclusive(guard));
                            proof {
                                lemma_claim_release_round_trip(before[p.key]);
                                assert(self@.insert(p.key, self@[p.key].without_writer())
                                    =~= before);
                            }
                        },
                        Err(e) => {
                            self.release_prefix(params, claims, i);
                            return Err(e);
                        },
                    }
                },
            }
            i += 1;
        }
        proof {
            assert(params@.skip(params@.len() as int) =~= Seq::<ParamDesc>::empty());
        }
        Ok(claims)
    }

    /// Returns every claim in `claims`, newest first, performing exactly one
    /// release per claim taken.
    pub fn release_all(&mut self, params: &Vec<ParamDesc>, claims: Vec<Claim<V>>)
        requires
            claims@.len() == params@.len(),
            forall|j: int|
                0 <= j < params@.len() ==> ((#[trigger] claims@[j]) is Shared <==> params@[j].mode
                    is Shared) && claims@[j].key() == params@[j].key,
            release_outcome(old(self)@, params@) is Some,
        ensures
            Some(final(self)@) == release_outcome(old(self)@, params@),
    {
        let n = params.len();
        proof {
            assert(params@.take(params@.len() as int) =~= params@);
        }
        self.release_prefix(params, claims, n);
    }

    /// Returns the claims for the first `n` parameters, newest first.
    fn release_prefix(&mut self, params: &Vec<ParamDesc>, claims: Vec<Claim<V>>, n: usize)
        requires
            n <= params@.len(),
            claims@.len() == n,
            forall|j: int|
                0 <= j < n ==> ((#[trigger] claims@[j]) is Shared <==> params@[j].mode is Shared)
                    && claims@[j].key() == params@[j].key,
            release_outcome(old(self)@, params@.take(n as int)) is Some,
        ensures
            Some(final(self)@) == release_outcome(old(self)@, params@.take(n as int)),
    {
        let mut claims = claims;
        let mut i: usize = n;
        while i > 0
            invariant
                i <= n <= params@.len(),
                claims@.len() == i,
                forall|j: int|
                    0 <= j < i ==> ((#[trigger] claims@[j]) is Shared <==> params@[j].mode
                        is Shared) && claims@[j].key() == params@[j].key,
                release_outcome(self@, params@.take(i as int)) == release_outcome(
                    old(self)@,
                    params@.take(n as int),
                ),
                release_outcome(old(self)@, params@.take(n as int)) is Some,
            decreases i,
        {
            let p = params[i - 1];
            proof {
                assert(params@.take(i as int).last() == params@[i as int - 1]);
                assert(params@.take(i as int).drop_last() =~= params@.take(i as int - 1));
            }
            let claim = claims.pop().unwrap();
            match claim {
                Claim::Shared(guard) => {
                    self.release(p.key, guard);
                },
                Claim::Exclusive(guard) => {
                    self.release_mut(p.key, guard);
                },
            }
            i = i - 1;
        }
        proof {
            assert(params@.take(0) =~= Seq::<ParamDesc>::empty());
        }
    }
}

/// A function whose arguments are claimed from a [`Resources`] map.
///
/// `Args` records the parameter list at the type level, as the original
/// function declared it. A nullary function can be run directly with
/// [`FnResource::call`]; for functions with parameters the claims are taken
/// in declaration order through [`Resources::try_borrow_all`] with one
/// [`ParamDesc`] per parameter.
///
/// [`ParamDesc`]: crate::fn_resource::ParamDesc
/// [`Resources::try_borrow_all`]: crate::resources::Resources::try_borrow_all
pub struct FnResource<Fun, Ret, Args> {
    /// The actual function.
    pub func: Fun,
    /// Marker tying the return and argument types to the wrapper.
    pub marker: PhantomData<(Ret, Args)>,
}

/// Wraps a function as a [`FnResource`].
pub trait IntoFnResource<Fun, Ret, Args> {
    /// Returns the function wrapped as a `FnResource`.
    fn into_fn_resource(self) -> FnResource<Fun, Ret, Args>;
}

impl<Fun, Ret> IntoFnResource<Fun, Ret, ()> for Fun where Fun: FnOnce() -> Ret {
    fn into_fn_resource(self) -> FnResource<Fun, Ret, ()> {
        FnResource { func: self, marker: PhantomData }
    }
}

impl<Fun, Ret, A> IntoFnResource<Fun, Ret, (A,)> for Fun where Fun: FnOnce(A) -> Ret {
    fn into_fn_resource(self) -> FnResource<Fun, Ret, (A,)> {
        FnResource { func: self, marker: PhantomData }
    }
}

impl<Fun, Ret, A, B> IntoFnResource<Fun, Ret, (A, B)> for Fun where Fun: FnOnce(A, B) -> Ret {
    fn into_fn_resource(self) -> FnResource<Fun, Ret, (A, B)> {
        FnResource { func: self, marker: PhantomData }
    }
}

impl<Fun, Ret, A, B, C> IntoFnResource<Fun, Ret, (A, B, C)> for Fun where
    Fun: FnOnce(A, B, C) -> Ret,
 {
    fn into_fn_resource(self) -> FnResource<Fun, Ret, (A, B, C)> {
        FnResource { func: self, marker: PhantomData }
    }
}

impl<Fun, Ret, A, B, C, D> IntoFnResource<Fun, Ret, (A, B, C, D)> for Fun where
    Fun: FnOnce(A, B, C, D) -> Ret,
 {
    fn into_fn_resource(self) -> FnResource<Fun, Ret, (A, B, C, D)> {
        FnResource { func: self, marker: PhantomData }
    }
}

impl<Fun, Ret, A, B, C, D, E> IntoFnResource<Fun, Ret, (A, B, C, D, E)> for Fun where
    Fun: FnOnce(A, B, C, D, E) -> Ret,
 {
    fn into_fn_resource(self) -> FnResource<Fun, Ret, (A, B, C, D, E)> {
        FnResource { func: self, marker: PhantomData }
    }
}

impl<Fun, Ret, A, B, C, D, E, F> IntoFnResource<Fun, Ret, (A, B, C, D, E, F)> for Fun where
    Fun: FnOnce(A, B, C, D, E, F) -> Ret,
 {
    fn into_fn_resource(self) -> FnResource<Fun, Ret, (A, B, C, D, E, F)> {
        FnResource { func: self, marker: PhantomData }
    }
}

/// Whether some parameter in `params` claims the entry for `k`.
pub open spec fn mentions_key(params: Seq<ParamDesc>, k: u64) -> bool {
    exists|i: int| 0 <= i < params.len() && params[i].key == k
}

/// A successful batch acquisition is framed by its parameter list: it
/// stores no new entries, drops none, and leaves every entry whose key no
/// parameter names exactly as it was.
pub proof fn lemma_acquire_touches_only_params<V>(m: Map<u64, Cell<V>>, params: Seq<ParamDesc>)
    requires
        acquire_outcome(m, params) is Ok,
    ensures
        acquire_outcome(m, params).unwrap().dom() == m.dom(),
        forall|k: u64|
            m.contains_key(k) && !mentions_key(params, k) ==> acquire_outcome(
                m,
                params,
            ).unwrap()[k] == m[k],
    decreases params.len(),
{
    if params.len() > 0 {
        let p = params[0];
        let m1 = if p.mode is Shared {
            m.insert(p.key, m[p.key].with_reader())
        } else {
            m.insert(p.key, m[p.key].with_writer())
        };
        assert(m1.dom() =~= m.dom());
        lemma_acquire_touches_only_params(m1, params.skip(1));
        assert forall|k: u64| m.contains_key(k) && !mentions_key(params, k) implies acquire_outcome(
            m,
            params,
        ).unwrap()[k] == m[k] by {
            assert(params[0].key != k);
            if mentions_key(params.skip(1), k) {
                let i = choose|i: int|
                    0 <= i < params.skip(1).len() && params.skip(1)[i].key == k;
                assert(params[i + 1].key == k);
            }
            assert(!mentions_key(params.skip(1), k));
            assert(m1[k] == m[k]);
        }
    }
}

/// Returning the claims for `front + back` returns `back`'s claims first
/// and `front`'s afterwards.
proof fn lemma_release_split<V>(m: Map<u64, Cell<V>>, front: Seq<ParamDesc>, back: Seq<ParamDesc>)
    ensures
        release_outcome(m, front + back) == match release_outcome(m, back) {
            Some(mid) => release_outcome(mid, front),
            None => None::<Map<u64, Cell<V>>>,
        },
    decreases back.len(),
{
    if back.len() == 0 {
        assert(front + back =~= front);
    } else {
        let p = back.last();
        assert((front + back).last() == p);
        assert((front + back).drop_last() =~= front + back.drop_last());
        if m.contains_key(p.key) {
            if p.mode is Shared && m[p.key].is_reading() {
                lemma_release_split(
                    m.insert(p.key, m[p.key].without_reader()),
                    front,
                    back.drop_last(),
                );
            } else if !(p.mode is Shared) && m[p.key].is_writing() {
                lemma_release_split(
                    m.insert(p.key, m[p.key].without_writer()),
                    front,
                    back.drop_last(),
                );
            }
        }
    }
}

/// Taking a batch of claims and returning them all restores the map exactly:
/// whatever [`Resources::try_borrow_all`] acquires,
/// [`Resources::release_all`] undoes, one release per claim.
pub proof fn lemma_acquire_release_all<V>(m: Map<u64, Cell<V>>, params: Seq<ParamDesc>)
    requires
        acquire_outcome(m, params) is Ok,
    ensures
        release_outcome(acquire_outcome(m, params).unwrap(), params) == Some(m),
    decreases params.len(),
{
    if params.len() > 0 {
        let p = params[0];
        let m1 = if p.mode is Shared {
            m.insert(p.key, m[p.key].with_reader())
        } else {
            m.insert(p.key, m[p.key].with_writer())
        };
        assert(acquire_outcome(m, params) == acquire_outcome(m1, params.skip(1)));
        lemma_acquire_release_all(m1, params.skip(1));
        let granted = acquire_outcome(m, params).unwrap();
        assert(release_outcome(granted, params.skip(1)) == Some(m1));
        assert(params =~= seq![p] + params.skip(1));
        lemma_release_split(granted, seq![p], params.skip(1));
        assert(release_outcome(granted, params) == release_outcome(m1, seq![p]));
        lemma_claim_release_round_trip(m[p.key]);
        assert(seq![p].last() == p);
        assert(seq![p].drop_last() =~= Seq::<ParamDesc>::empty());
        assert(m1[p.key] == if p.mode is Shared {
            m[p.key].with_reader()
        } else {
            m[p.key].with_writer()
        });
        assert(m1.insert(p.key, m[p.key]) =~= m);
        let rest = seq![p].drop_last();
        if p.mode is Shared {
            assert(m1[p.key].is_reading());
            let m2 = m1.insert(p.key, m1[p.key].without_reader());
            assert(m2 == m1.insert(p.key, m[p.key]));
            assert(release_outcome(m2, rest) == Some(m2));
            assert(release_outcome(m1, seq![p]) == Some(m2));
        } else {
            assert(m1[p.key].is_writing());
            let m2 = m1.insert(p.key, m1[p.key].without_writer());
            assert(m2 == m1.insert(p.key, m[p.key]));
            assert(release_outcome(m2, rest) == Some(m2));
            assert(release_outcome(m1, seq![p]) == Some(m2));
        }
    }
}

impl<Fun, Ret> FnResource<Fun, Ret, ()> where Fun: Fn() -> Ret {
    /// Runs the function. A nullary function claims nothing from the map.
    pub fn call<V>(&self, _resources: &Resources<V>) -> (ret: Ret)
        requires
            call_requires(self.func, ()),
        ensures
            call_ensures(self.func, (), ret),
    {
        (self.func)()
    }

    /// Runs the function; a nullary function claims nothing, so this cannot
    /// report a borrow failure.
    pub fn try_call<V>(&self, _resources: &Resources<V>) -> (outcome: Result<Ret, BorrowFail>)
        requires
            call_requires(self.func, ()),
        ensures
            outcome matches Ok(ret) && call_ensures(self.func, (), ret),
    {
        Ok((self.func)())
    }
}

impl<Fun, Ret> FnResource<Fun, Ret, ()> where Fun: FnOnce() -> Ret {
    /// Runs the function once, consuming it.
    pub fn call_once<V>(self, _resources: &Resources<V>) -> (ret: Ret)
        requires
            call_requires(self.func, ()),
        ensures
            call_ensures(self.func, (), ret),
    {
        (self.func)()
    }

    /// Runs the function once, consuming it; a nullary function claims
    /// nothing, so this cannot report a borrow failure.
    pub fn try_call_once<V>(self, _resources: &Resources<V>) -> (outcome: Result<Ret, BorrowFail>)
        requires
            call_requires(self.func, ()),
        ensures
            outcome matches Ok(ret) && call_ensures(self.func, (), ret),
    {
        Ok((self.func)())
    }
}

} // verus!
