use vstd::prelude::*;

use std::collections::HashMap;

use vstd::std_specs::iter::IteratorSpec;

use crate::borrow_fail::BorrowFail;
use crate::cell::lemma_spec_new;
use crate::cell::Cell;
use crate::cell_ref::CellRef;
use crate::cell_ref_mut::CellRefMut;

verus! {

broadcast use vstd::std_specs::hash::group_hash_axioms;

/// A map from a type-identity token to a borrow-tracked [`Cell`].
///
/// The token is a 64-bit key standing for the runtime identity of a type; at
/// most one entry exists per token. Each entry carries its own borrow flag,
/// so values stored under different tokens can be claimed independently, and
/// one entry can serve many readers or one writer at a time.
///
/// The payload type `V` is chosen by the caller; a caller that stores values
/// of many types behind one erased payload keys each by its own token.
pub struct Resources<V> {
    cells: HashMap<u64, Cell<V>>,
}

impl<V> View for Resources<V> {
    type V = Map<u64, Cell<V>>;

    closed spec fn view(&self) -> Map<u64, Cell<V>> {
        self.cells@
    }
}

/// Reinserting a cell under a removed key is the same as inserting it over
/// the original map.
proof fn lemma_reinsert<V>(m: Map<u64, Cell<V>>, key: u64, cell: Cell<V>)
    ensures
        m.remove(key).insert(key, cell) == m.insert(key, cell),
{
    assert(m.remove(key).insert(key, cell) =~= m.insert(key, cell));
}

/// Removing a key and putting its own cell back restores the map exactly.
proof fn lemma_reinsert_same<V>(m: Map<u64, Cell<V>>, key: u64)
    requires
        m.contains_key(key),
    ensures
        m.remove(key).insert(key, m[key]) == m,
{
    assert(m.remove(key).insert(key, m[key]) =~= m);
}

/// Removing an absent key changes nothing.
proof fn lemma_remove_absent<V>(m: Map<u64, Cell<V>>, key: u64)
    requires
        !m.contains_key(key),
    ensures
        m.remove(key) == m,
{
    assert(m.remove(key) =~= m);
}

impl<V> Resources<V> {
    /// Creates an empty map.
    pub fn new() -> (resources: Resources<V>)
        ensures
            resources@ == Map::<u64, Cell<V>>::empty(),
    {
        Resources { cells: HashMap::new() }
    }

    /// Creates an empty map with room for at least `capacity` entries.
    pub fn with_capacity(capacity: usize) -> (resources: Resources<V>)
        ensures
            resources@ == Map::<u64, Cell<V>>::empty(),
    {
        Resources { cells: HashMap::with_capacity(capacity) }
    }

    /// The number of entries the map can hold without reallocating.
    ///
    /// Relies on `HashMap::capacity`; its result depends on the allocation
    /// state, so nothing is promised of it.
    #[verifier::external_body]
    pub fn capacity(&self) -> usize {
        self.cells.capacity()
    }

    /// The number of entries.
    pub fn len(&self) -> (n: usize)
        ensures
            n == self@.len(),
    {
        self.cells.len()
    }

    /// The stored keys, each exactly once, in no promised order.
    pub fn keys(&self) -> (keys: Vec<u64>)
        ensures
            keys@.no_duplicates(),
            forall|k: u64| #[trigger] keys@.contains(k) <==> self@.contains_key(k),
    {
        let mut out: Vec<u64> = Vec::new();
        for k in it: self.cells.keys()
            invariant
                it.seq() == vstd::std_specs::hash::spec_keys_iter(&self.cells).remaining(),
                out@ == it.seq().take(it.index()).unref(),
                out@.no_duplicates(),
                forall|key: u64| #[trigger] out@.contains(key) ==> self@.contains_key(key),
                forall|key: u64|
                    self@.contains_key(key) && !out@.contains(key) ==> exists|j: int|
                        it.index() <= j < it.seq().len() && *(#[trigger] it.seq()[j]) == key,
        {
            proof {
                let i = it.index();
                let full = it.seq();
                assert(*k == *full[i]);
                assert(full.take(i + 1).unref() =~= full.take(i).unref().push(*full[i]));
                assert(full.unref().to_set().contains(*full[i]));
                assert forall|key: u64| out@.push(*full[i]).contains(key) implies self@.contains_key(
                    key,
                ) by {
                    if !out@.contains(key) {
                        assert(full.unref().to_set().contains(*full[i]));
                    }
                }
                assert forall|a: int|
                    0 <= a < out@.len() implies out@[a] != *full[i] by {
                    assert(out@[a] == *full[a]);
                    assert(full[a] != full[i]);
                }
                assert(out@.push(*full[i]).no_duplicates());
                assert forall|key: u64|
                    self@.contains_key(key) && !out@.push(*full[i]).contains(key) implies exists|
                    j: int,
                |
                    i + 1 <= j < full.len() && *(#[trigger] full[j]) == key by {
                    assert forall|a: int| 0 <= a < out@.len() implies out@.push(*full[i])[a]
                        == out@[a] by {}
                    assert(!out@.contains(key));
                    let j = choose|j: int| i <= j < full.len() && *full[j] == key;
                    assert(out@.push(*full[i])[out@.len() as int] == *full[i]);
                    assert(out@.push(*full[i]).contains(*full[i]));
                    assert(j != i);
                    assert(i + 1 <= j < full.len() && *full[j] == key);
                }
            }
            out.push(*k);
        }
        out
    }

    /// Whether an entry exists for `key`.
    pub fn contains(&self, key: u64) -> (contained: bool)
        ensures
            contained == self@.contains_key(key),
    {
        self.cells.contains_key(&key)
    }

    /// Stores `value` under `key` with a fresh free borrow flag, replacing
    /// any prior entry. A prior entry must be free: replacing a claimed
    /// value would leave its claims dangling.
    pub fn insert(&mut self, key: u64, value: V)
        requires
            old(self)@.contains_key(key) ==> old(self)@[key].is_free(),
        ensures
            final(self)@ == old(self)@.insert(key, Cell::spec_new(value)),
            final(self)@.contains_key(key),
            final(self)@[key].is_free(),
            final(self)@[key].value() == value,
    {
        proof {
            lemma_spec_new(value);
        }
        let cell = Cell::new(value);
        let _prior = self.cells.insert(key, cell);
    }

    /// Removes the entry for `key` and returns ownership of its value, or
    /// `None` when no entry exists. The entry must be free: removing a
    /// claimed value would leave its claims dangling.
    pub fn remove(&mut self, key: u64) -> (removed: Option<V>)
        requires
            old(self)@.contains_key(key) ==> old(self)@[key].is_free(),
        ensures
            final(self)@ == old(self)@.remove(key),
            removed is Some <==> old(self)@.contains_key(key),
            old(self)@.contains_key(key) ==> (removed matches Some(value) && value
                == old(self)@[key].value()),
    {
        match self.cells.remove(&key) {
            Some(cell) => Some(cell.into_inner()),
            None => {
                proof {
                    lemma_remove_absent(old(self)@, key);
                }
                None
            },
        }
    }

    /// Reads the value stored under `key`, if any. This is how a shared
    /// claim on an entry is observed; while the exclusive claim is
    /// outstanding no one else may look, and the claim holder observes
    /// through [`Resources::replace`].
    pub fn get(&self, key: u64) -> (value: Option<&V>)
        requires
            self@.contains_key(key) ==> !self@[key].is_writing(),
        ensures
            value is Some <==> self@.contains_key(key),
            self@.contains_key(key) ==> (value matches Some(v) && *v == self@[key].value()),
    {
        match self.cells.get(&key) {
            Some(cell) => Some(cell.get()),
            None => None,
        }
    }

    /// Direct access to the underlying cell for `key`, if any.
    pub fn get_raw(&self, key: u64) -> (cell: Option<&Cell<V>>)
        ensures
            cell is Some <==> self@.contains_key(key),
            self@.contains_key(key) ==> (cell matches Some(c) && *c == self@[key]),
    {
        self.cells.get(&key)
    }

    /// Acquires a shared claim on the entry for `key`. The caller must know
    /// the entry exists and can serve a reader; [`Resources::try_borrow`]
    /// reports refusal as a value instead.
    pub fn borrow(&mut self, key: u64) -> (guard: CellRef<V>)
        requires
            old(self)@.contains_key(key),
            old(self)@[key].can_read(),
        ensures
            final(self)@ == old(self)@.insert(key, old(self)@[key].with_reader()),
            final(self)@[key].flag() == old(self)@[key].flag() + 1,
            final(self)@[key].value() == old(self)@[key].value(),
            final(self)@[key].is_reading(),
            guard.key() == key,
    {
        match self.cells.remove(&key) {
            Some(mut cell) => {
                let guard = cell.borrow();
                self.cells.insert(key, cell);
                proof {
                    lemma_reinsert(old(self)@, key, old(self)@[key].with_reader());
                }
                guard.with_key(Ghost(key))
            },
            None => vstd::pervasive::unreached(),
        }
    }

    /// Acquires a shared claim on the entry for `key`, or reports why it
    /// cannot: no such entry, or an exclusive claim is outstanding (or the
    /// reader count has no room). The map is unchanged on refusal.
    pub fn try_borrow(&mut self, key: u64) -> (outcome: Result<CellRef<V>, BorrowFail>)
        ensures
            outcome is Ok <==> old(self)@.contains_key(key) && old(self)@[key].can_read(),
            !old(self)@.contains_key(key) ==> (outcome matches Err(e) && e
                == BorrowFail::ValueNotFound && final(self)@ == old(self)@),
            old(self)@.contains_key(key) && !old(self)@[key].can_read() ==> (outcome matches Err(e)
                && e == BorrowFail::BorrowConflictImm && final(self)@ == old(self)@),
            old(self)@.contains_key(key) && old(self)@[key].can_read()
                ==> final(self)@ == old(self)@.insert(key, old(self)@[key].with_reader())
                && final(self)@[key].value() == old(self)@[key].value()
                && final(self)@[key].flag() == old(self)@[key].flag() + 1
                && final(self)@[key].is_reading(),
            outcome matches Ok(guard) ==> guard.key() == key,
    {
        match self.cells.remove(&key) {
            None => {
                proof {
                    lemma_remove_absent(old(self)@, key);
                }
                Err(BorrowFail::ValueNotFound)
            },
            Some(mut cell) => {
                match cell.try_borrow() {
                    Some(guard) => {
                        self.cells.insert(key, cell);
                        proof {
                            lemma_reinsert(old(self)@, key, old(self)@[key].with_reader());
                        }
                        Ok(guard.with_key(Ghost(key)))
                    },
                    None => {
                        self.cells.insert(key, cell);
                        proof {
                            lemma_reinsert_same(old(self)@, key);
                        }
                        Err(BorrowFail::BorrowConflictImm)
                    },
                }
            },
        }
    }

    /// Acquires the exclusive claim on the entry for `key`. The caller must
    /// know the entry exists and is free; [`Resources::try_borrow_mut`]
    /// reports refusal as a value instead.
    pub fn borrow_mut(&mut self, key: u64) -> (guard: CellRefMut<V>)
        requires
            old(self)@.contains_key(key),
            old(self)@[key].can_write(),
        ensures
            final(self)@ == old(self)@.insert(key, old(self)@[key].with_writer()),
            final(self)@[key].is_writing(),
            final(self)@[key].value() == old(self)@[key].value(),
            guard.key() == key,
    {
        match self.cells.remove(&key) {
            Some(mut cell) => {
                let guard = cell.borrow_mut();
                self.cells.insert(key, cell);
                proof {
                    lemma_reinsert(old(self)@, key, old(self)@[key].with_writer());
                }
                guard.with_key(Ghost(key))
            },
            None => vstd::pervasive::unreached(),
        }
    }

    /// Acquires the exclusive claim on the entry for `key`, or reports why it
    /// cannot: no such entry, or some claim is outstanding. The map is
    /// unchanged on refusal.
    pub fn try_borrow_mut(&mut self, key: u64) -> (outcome: Result<CellRefMut<V>, BorrowFail>)
        ensures
            outcome is Ok <==> old(self)@.contains_key(key) && old(self)@[key].can_write(),
            !old(self)@.contains_key(key) ==> (outcome matches Err(e) && e
                == BorrowFail::ValueNotFound && final(self)@ == old(self)@),
            old(self)@.contains_key(key) && !old(self)@[key].can_write() ==> (outcome matches Err(e)
                && e == BorrowFail::BorrowConflictMut && final(self)@ == old(self)@),
            old(self)@.contains_key(key) && old(self)@[key].can_write() ==> final(self)@ == old(
                self,
            )@.insert(key, old(self)@[key].with_writer()) && final(self)@[key].value() == old(
                self,
            )@[key].value() && final(self)@[key].is_writing(),
            outcome matches Ok(guard) ==> guard.key() == key,
    {
        match self.cells.remove(&key) {
            None => {
                proof {
                    lemma_remove_absent(old(self)@, key);
                }
                Err(BorrowFail::ValueNotFound)
            },
            Some(mut cell) => {
                match cell.try_borrow_mut() {
                    Some(guard) => {
                        self.cells.insert(key, cell);
                        proof {
                            lemma_reinsert(old(self)@, key, old(self)@[key].with_writer());
                        }
                        Ok(guard.with_key(Ghost(key)))
                    },
                    None => {
                        self.cells.insert(key, cell);
                        proof {
                            lemma_reinsert_same(old(self)@, key);
                        }
                        Err(BorrowFail::BorrowConflictMut)
                    },
                }
            },
        }
    }

    /// Replaces the value stored under `key`. This is how the exclusive
    /// claim on an entry mutates it.
    pub fn set(&mut self, key: u64, value: V)
        requires
            old(self)@.contains_key(key),
            old(self)@[key].is_writing(),
        ensures
            final(self)@ == old(self)@.insert(key, old(self)@[key].with_value(value)),
            final(self)@[key].value() == value,
            final(self)@[key].flag() == old(self)@[key].flag(),
    {
        match self.cells.remove(&key) {
            Some(mut cell) => {
                cell.set(value);
                self.cells.insert(key, cell);
                proof {
                    lemma_reinsert(old(self)@, key, old(self)@[key].with_value(value));
                }
            },
            None => vstd::pervasive::unreached(),
        }
    }

    /// Swaps the value stored under `key` for `value`, returning the prior
    /// value. Like [`Resources::set`] this acts under the exclusive claim,
    /// so the claim holder can take the value out and put a reworked one
    /// back.
    pub fn replace(&mut self, key: u64, value: V) -> (prior: V)
        requires
            old(self)@.contains_key(key),
            old(self)@[key].is_writing(),
        ensures
            prior == old(self)@[key].value(),
            final(self)@ == old(self)@.insert(key, old(self)@[key].with_value(value)),
            final(self)@[key].value() == value,
            final(self)@[key].flag() == old(self)@[key].flag(),
    {
        match self.cells.remove(&key) {
            Some(mut cell) => {
                let prior = cell.replace(value);
                self.cells.insert(key, cell);
                proof {
                    lemma_reinsert(old(self)@, key, old(self)@[key].with_value(value));
                }
                prior
            },
            None => vstd::pervasive::unreached(),
        }
    }

    /// Returns a shared claim on the entry for `key`, decrementing its
    /// reader count by exactly one. The token is consumed, so it cannot be
    /// returned twice.
    pub fn release<U>(&mut self, key: u64, guard: CellRef<U>)
        requires
            old(self)@.contains_key(key),
            old(self)@[key].is_reading(),
            guard.key() == key,
        ensures
            final(self)@ == old(self)@.insert(key, old(self)@[key].without_reader()),
            final(self)@[key].flag() == old(self)@[key].flag() - 1,
            final(self)@[key].value() == old(self)@[key].value(),
    {
        match self.cells.remove(&key) {
            Some(mut cell) => {
                cell.release(guard);
                self.cells.insert(key, cell);
                proof {
                    lemma_reinsert(old(self)@, key, old(self)@[key].without_reader());
                }
            },
            None => vstd::pervasive::unreached(),
        }
    }

    /// Returns the exclusive claim on the entry for `key`, resetting its
    /// flag to free.
    pub fn release_mut<U>(&mut self, key: u64, guard: CellRefMut<U>)
        requires
            old(self)@.contains_key(key),
            old(self)@[key].is_writing(),
            guard.key() == key,
        ensures
            final(self)@ == old(self)@.insert(key, old(self)@[key].without_writer()),
            final(self)@[key].is_free(),
            final(self)@[key].value() == old(self)@[key].value(),
    {
        match self.cells.remove(&key) {
            Some(mut cell) => {
                cell.release_mut(guard);
                self.cells.insert(key, cell);
                proof {
                    lemma_reinsert(old(self)@, key, old(self)@[key].without_writer());
                }
            },
            None => vstd::pervasive::unreached(),
        }
    }
}

/// Shared claims on an entry coexist: when the entry's reader count has
/// room for two more below the exclusive sentinel, a shared claim can be
/// granted, a second one can be granted after the first, both leave the
/// stored value untouched, and each grant raises the reader count by one.
pub proof fn lemma_map_shared_claims_coexist<V>(m: Map<u64, Cell<V>>, key: u64)
    requires
        m.contains_key(key),
        m[key].flag() + 2 < usize::MAX,
    ensures
        m[key].can_read(),
        m.insert(key, m[key].with_reader())[key].can_read(),
        m.insert(key, m[key].with_reader())[key].value() == m[key].value(),
        m.insert(key, m[key].with_reader())[key].readers() == m[key].readers() + 1,
        m.insert(key, m[key].with_reader()).insert(
            key,
            m[key].with_reader().with_reader(),
        )[key].value() == m[key].value(),
        m.insert(key, m[key].with_reader()).insert(
            key,
            m[key].with_reader().with_reader(),
        )[key].readers() == m[key].readers() + 2,
{
    crate::cell::lemma_shared_claims_coexist(m[key]);
}

/// Shared claims exclude only the writer, entry-wise: while an entry has at
/// least one outstanding shared claim no exclusive claim can be granted on
/// it, another shared claim can be granted whenever the count has room, and
/// once the last shared claim is returned the entry is writable again.
pub proof fn lemma_map_shared_excludes_exclusive<V>(m: Map<u64, Cell<V>>, key: u64)
    requires
        m.contains_key(key),
        m[key].is_reading(),
    ensures
        !m[key].can_write(),
        m[key].flag() + 1 < usize::MAX ==> m[key].can_read() && m.insert(
            key,
            m[key].with_reader(),
        )[key].readers() == m[key].readers() + 1 && m.insert(
            key,
            m[key].with_reader(),
        )[key].value() == m[key].value(),
        m[key].flag() == 1 ==> m.insert(key, m[key].without_reader())[key].can_write(),
{
    crate::cell::lemma_shared_excludes_exclusive(m[key]);
}

/// Round trip: storing a value under a key makes the key present with that
/// value behind a free flag, and removing the key afterwards makes it absent
/// again; a key that was absent before is restored to exactly the old map.
pub proof fn lemma_insert_remove_round_trip<V>(m: Map<u64, Cell<V>>, key: u64, value: V)
    ensures
        m.insert(key, Cell::spec_new(value)).contains_key(key),
        m.insert(key, Cell::spec_new(value))[key].value() == value,
        m.insert(key, Cell::spec_new(value))[key].is_free(),
        !m.insert(key, Cell::spec_new(value)).remove(key).contains_key(key),
        !m.contains_key(key) ==> m.insert(key, Cell::spec_new(value)).remove(key) == m,
{
    lemma_spec_new(value);
    if !m.contains_key(key) {
        assert(m.insert(key, Cell::spec_new(value)).remove(key) =~= m);
    }
}

} // verus!
