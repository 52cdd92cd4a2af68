use vstd::prelude::*;

use crate::cell_ref::CellRef;
use crate::cell_ref_mut::CellRefMut;

verus! {

/// A value paired with a runtime borrow flag.
///
/// The flag is one integer word: `0` means the value is unclaimed, a count in
/// `1..usize::MAX` is the number of outstanding shared claims, and
/// `usize::MAX` is the sentinel for a single exclusive claim. Acquiring a
/// shared claim never moves the flag onto the sentinel: the count is capped
/// one below it, so the two meanings cannot collide.
///
/// Claims are represented by the token types [`CellRef`] and [`CellRefMut`].
/// The tokens carry no data; the value is read through [`Cell::get`] and
/// written through [`Cell::set`], and a claim is returned to the cell with
/// [`Cell::release`] or [`Cell::release_mut`].
pub struct Cell<T> {
    flag: usize,
    inner: T,
}

impl<T> Cell<T> {
    /// The borrow flag: `0` free, `1..usize::MAX` shared, `usize::MAX` exclusive.
    pub closed spec fn flag(self) -> usize {
        self.flag
    }

    /// The stored value.
    pub closed spec fn value(self) -> T {
        self.inner
    }

    /// No claim is outstanding.
    pub open spec fn is_free(self) -> bool {
        self.flag() == 0
    }

    /// At least one shared claim is outstanding.
    pub open spec fn is_reading(self) -> bool {
        1 <= self.flag() < usize::MAX
    }

    /// The one exclusive claim is outstanding.
    pub open spec fn is_writing(self) -> bool {
        self.flag() == usize::MAX
    }

    /// The number of outstanding shared claims.
    pub open spec fn readers(self) -> usize {
        if self.is_writing() {
            0
        } else {
            self.flag()
        }
    }

    /// A shared claim can be granted: no exclusive claim is outstanding and
    /// the count has room below the sentinel.
    pub open spec fn can_read(self) -> bool {
        self.flag() < usize::MAX - 1
    }

    /// An exclusive claim can be granted: no claim at all is outstanding.
    pub open spec fn can_write(self) -> bool {
        self.is_free()
    }

    /// A fresh cell holding `inner`, with no claim outstanding.
    pub closed spec fn spec_new(inner: T) -> Cell<T> {
        Cell { flag: 0, inner }
    }

    /// The cell with its value replaced and its flag untouched.
    pub closed spec fn with_value(self, value: T) -> Cell<T> {
        Cell { flag: self.flag, inner: value }
    }

    /// The cell after one more shared claim is granted.
    pub closed spec fn with_reader(self) -> Cell<T> {
        Cell { flag: (self.flag + 1) as usize, inner: self.inner }
    }

    /// The cell after one shared claim is returned.
    pub closed spec fn without_reader(self) -> Cell<T> {
        Cell { flag: (self.flag - 1) as usize, inner: self.inner }
    }

    /// The cell after the exclusive claim is granted.
    pub closed spec fn with_writer(self) -> Cell<T> {
        Cell { flag: usize::MAX, inner: self.inner }
    }

    /// The cell after the exclusive claim is returned.
    pub closed spec fn without_writer(self) -> Cell<T> {
        Cell { flag: 0, inner: self.inner }
    }

    /// Creates a cell holding `inner`, with no claim outstanding.
    pub fn new(inner: T) -> (cell: Cell<T>)
        ensures
            cell == Cell::spec_new(inner),
            cell.is_free(),
            cell.value() == inner,
    {
        Cell { flag: 0, inner }
    }

    /// Consumes the cell and returns ownership of the value.
    ///
    /// The caller must hold no outstanding claim on the cell; with claim
    /// tokens that is a runtime property, so it is demanded here.
    pub fn into_inner(self) -> (inner: T)
        requires
            self.is_free(),
        ensures
            inner == self.value(),
    {
        self.inner
    }

    /// Reads the stored value. This is how a shared claim is observed;
    /// while the exclusive claim is outstanding no one else may look, and
    /// the claim holder observes through [`Cell::replace`].
    pub fn get(&self) -> (value: &T)
        requires
            !self.is_writing(),
        ensures
            value == self.value(),
    {
        &self.inner
    }

    /// Replaces the stored value under the exclusive claim.
    pub fn set(&mut self, value: T)
        requires
            old(self).is_writing(),
        ensures
            *final(self) == old(self).with_value(value),
            final(self).value() == value,
            final(self).flag() == old(self).flag(),
    {
        self.inner = value;
    }

    /// Swaps the stored value for `value` under the exclusive claim,
    /// returning the prior value. This lets the claim holder take the value
    /// out, rework it, and put it back with another call.
    pub fn replace(&mut self, value: T) -> (prior: T)
        requires
            old(self).is_writing(),
        ensures
            prior == old(self).value(),
            *final(self) == old(self).with_value(value),
            final(self).value() == value,
            final(self).flag() == old(self).flag(),
    {
        let mut value = value;
        core::mem::swap(&mut self.inner, &mut value);
        value
    }

    /// Exclusive access to the value through exclusive access to the cell
    /// itself, bypassing the borrow flag.
    pub fn get_mut(&mut self) -> (value: &mut T)
        requires
            old(self).is_free(),
        ensures
            *value == old(self).value(),
            final(self).value() == *final(value),
            final(self).is_free(),
    {
        &mut self.inner
    }

    /// Grants a shared claim when no exclusive claim is outstanding and the
    /// reader count has room, incrementing the count.
    pub fn check_flag_read(&mut self) -> (granted: bool)
        ensures
            granted == old(self).can_read(),
            final(self).value() == old(self).value(),
            granted ==> *final(self) == old(self).with_reader(),
            granted ==> final(self).flag() == old(self).flag() + 1,
            !granted ==> *final(self) == *old(self),
    {
        if self.flag < usize::MAX - 1 {
            self.flag = self.flag + 1;
            true
        } else {
            false
        }
    }

    /// Grants the exclusive claim when the cell is free, setting the flag to
    /// the sentinel.
    pub fn check_flag_write(&mut self) -> (granted: bool)
        ensures
            granted == old(self).can_write(),
            final(self).value() == old(self).value(),
            granted ==> *final(self) == old(self).with_writer(),
            granted ==> final(self).is_writing(),
            !granted ==> *final(self) == *old(self),
    {
        if self.flag == 0 {
            self.flag = usize::MAX;
            true
        } else {
            false
        }
    }

    /// Acquires a shared claim. The caller must know the claim can be
    /// granted; [`Cell::try_borrow`] reports refusal as a value instead.
    pub fn borrow(&mut self) -> (guard: CellRef<T>)
        requires
            old(self).can_read(),
        ensures
            *final(self) == old(self).with_reader(),
            final(self).flag() == old(self).flag() + 1,
            final(self).value() == old(self).value(),
            final(self).is_reading(),
    {
        let _granted: bool = self.check_flag_read();
        CellRef::claim(Ghost(0))
    }

    /// Acquires a shared claim, or returns `None` when an exclusive claim is
    /// outstanding or the reader count has no room. The cell is unchanged on
    /// refusal.
    pub fn try_borrow(&mut self) -> (guard: Option<CellRef<T>>)
        ensures
            guard is Some <==> old(self).can_read(),
            final(self).value() == old(self).value(),
            old(self).can_read() ==> *final(self) == old(self).with_reader()
                && final(self).flag() == old(self).flag() + 1,
            !old(self).can_read() ==> *final(self) == *old(self),
    {
        if self.check_flag_read() {
            Some(CellRef::claim(Ghost(0)))
        } else {
            None
        }
    }

    /// Acquires the exclusive claim. The caller must know the cell is free;
    /// [`Cell::try_borrow_mut`] reports refusal as a value instead.
    pub fn borrow_mut(&mut self) -> (guard: CellRefMut<T>)
        requires
            old(self).can_write(),
        ensures
            *final(self) == old(self).with_writer(),
            final(self).value() == old(self).value(),
            final(self).is_writing(),
    {
        let _granted: bool = self.check_flag_write();
        CellRefMut::claim(Ghost(0))
    }

    /// Acquires the exclusive claim, or returns `None` when any claim is
    /// outstanding. The cell is unchanged on refusal.
    pub fn try_borrow_mut(&mut self) -> (guard: Option<CellRefMut<T>>)
        ensures
            guard is Some <==> old(self).can_write(),
            final(self).value() == old(self).value(),
            old(self).can_write() ==> *final(self) == old(self).with_writer()
                && final(self).is_writing(),
            !old(self).can_write() ==> *final(self) == *old(self),
    {
        if self.check_flag_write() {
            Some(CellRefMut::claim(Ghost(0)))
        } else {
            None
        }
    }

    /// Duplicates a shared claim, incrementing the reader count, as cloning a
    /// shared guard does.
    pub fn clone_ref<U>(&mut self, guard: &CellRef<U>) -> (clone: CellRef<U>)
        requires
            old(self).is_reading(),
            old(self).can_read(),
        ensures
            *final(self) == old(self).with_reader(),
            final(self).flag() == old(self).flag() + 1,
            final(self).value() == old(self).value(),
            clone.key() == guard.key(),
    {
        self.flag = self.flag + 1;
        CellRef::claim(Ghost(guard.key()))
    }

    /// Returns a shared claim, decrementing the reader count by exactly one.
    ///
    /// The token may have been projected onto another view type, so any
    /// `CellRef` is accepted; it is consumed, so it cannot be returned twice.
    pub fn release<U>(&mut self, guard: CellRef<U>)
        requires
            old(self).is_reading(),
        ensures
            *final(self) == old(self).without_reader(),
            final(self).flag() == old(self).flag() - 1,
            final(self).value() == old(self).value(),
    {
        let _ = guard;
        self.flag = self.flag - 1;
    }

    /// Returns the exclusive claim, resetting the flag to free.
    pub fn release_mut<U>(&mut self, guard: CellRefMut<U>)
        requires
            old(self).is_writing(),
        ensures
            *final(self) == old(self).without_writer(),
            final(self).is_free(),
            final(self).value() == old(self).value(),
    {
        let _ = guard;
        self.flag = 0;
    }

    /// The number of outstanding shared claims, observable at run time.
    pub fn reader_count(&self) -> (count: usize)
        ensures
            count == self.readers(),
    {
        if self.flag == usize::MAX {
            0
        } else {
            self.flag
        }
    }

    /// Whether the exclusive claim is outstanding, observable at run time.
    pub fn is_write_locked(&self) -> (locked: bool)
        ensures
            locked == self.is_writing(),
    {
        self.flag == usize::MAX
    }
}

/// What [`Cell::spec_new`] builds: a free cell holding the given value.
pub proof fn lemma_spec_new<T>(value: T)
    ensures
        Cell::spec_new(value).is_free(),
        Cell::spec_new(value).value() == value,
        Cell::spec_new(value).can_read(),
        Cell::spec_new(value).can_write(),
{
}

/// Multiple shared claims coexist: when the count has room for two more
/// readers, a shared claim can be granted, a second one can be granted after
/// it, and the stored value is untouched throughout.
pub proof fn lemma_shared_claims_coexist<T>(cell: Cell<T>)
    requires
        cell.flag() + 2 < usize::MAX,
    ensures
        cell.can_read(),
        cell.with_reader().can_read(),
        cell.with_reader().value() == cell.value(),
        cell.with_reader().with_reader().value() == cell.value(),
        cell.with_reader().readers() == cell.readers() + 1,
        cell.with_reader().with_reader().readers() == cell.readers() + 2,
{
}

/// An exclusive claim excludes everything: while it is outstanding neither a
/// shared nor an exclusive claim can be granted, and once it is returned both
/// can again, with the value preserved by the flag transitions themselves.
pub proof fn lemma_exclusive_excludes_all<T>(cell: Cell<T>)
    requires
        cell.is_free(),
    ensures
        !cell.with_writer().can_read(),
        !cell.with_writer().can_write(),
        cell.with_writer().without_writer().can_read(),
        cell.with_writer().without_writer().can_write(),
        cell.with_writer().without_writer() == cell,
{
}

/// Shared claims exclude only the writer: while at least one shared claim is
/// outstanding no exclusive claim can be granted, another shared claim can be
/// granted whenever the count has room, and returning the last shared claim
/// makes the cell writable again.
pub proof fn lemma_shared_excludes_exclusive<T>(cell: Cell<T>)
    requires
        cell.is_reading(),
    ensures
        !cell.can_write(),
        cell.flag() + 1 < usize::MAX ==> cell.can_read() && cell.with_reader().readers()
            == cell.readers() + 1 && cell.with_reader().value() == cell.value(),
        cell.flag() == 1 ==> cell.without_reader().can_write(),
{
}

/// Granting a claim and returning it restores the cell exactly, so each
/// grant is balanced by exactly one release, whether the token was projected
/// or not; the granted claim is visible in the flag and leaves the value
/// untouched.
pub proof fn lemma_claim_release_round_trip<T>(cell: Cell<T>)
    ensures
        cell.can_read() ==> cell.with_reader().is_reading() && cell.with_reader().value()
            == cell.value() && cell.with_reader().without_reader() == cell,
        cell.can_write() ==> cell.with_writer().is_writing() && cell.with_writer().value()
            == cell.value() && cell.with_writer().without_writer() == cell,
{
}

} // verus!
