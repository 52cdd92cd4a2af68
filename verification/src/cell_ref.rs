use vstd::prelude::*;

use core::marker::PhantomData;

verus! {

/// A shared claim on a [`Cell`], tracked at run time.
///
/// The token carries no run-time data: the claimed value is read through
/// [`Cell::get`], and the claim is returned with [`Cell::release`], which
/// decrements the reader count exactly once. It does carry a ghost key — the
/// type-identity token it was granted under when it came from a
/// [`Resources`] map — so the map's release operations can demand that a
/// claim is returned to the entry it was granted on. The token deliberately
/// does not implement `Clone`; duplicating a shared claim must go through
/// [`Cell::clone_ref`] so the reader count is incremented with it.
///
/// [`Cell`]: crate::cell::Cell
/// [`Cell::get`]: crate::cell::Cell::get
/// [`Cell::release`]: crate::cell::Cell::release
/// [`Cell::clone_ref`]: crate::cell::Cell::clone_ref
/// [`Resources`]: crate::resources::Resources
pub struct CellRef<T> {
    key: Ghost<u64>,
    marker: PhantomData<T>,
}

impl<T> CellRef<T> {
    /// The type-identity token this claim was granted under.
    pub closed spec fn key(self) -> u64 {
        self.key@
    }

    /// Mints a token. Only the cell's acquire operations call this.
    pub(crate) fn claim(Ghost(key): Ghost<u64>) -> (guard: CellRef<T>)
        ensures
            guard.key() == key,
    {
        CellRef { key: Ghost(key), marker: PhantomData }
    }

    /// Re-keys a claim granted by a cell to the map entry it was granted
    /// on, consuming the cell-level token. Only the map's acquire
    /// operations call this.
    pub(crate) fn with_key(self, Ghost(key): Ghost<u64>) -> (guard: CellRef<T>)
        ensures
            guard.key() == key,
    {
        let _ = self;
        CellRef { key: Ghost(key), marker: PhantomData }
    }

    /// Re-aims the claim at a component of the borrowed data, preserving the
    /// existing claim: the token consumed here is replaced by one over the
    /// component's type, granted under the same key, so that releasing the
    /// new token performs the one release that was owed, on the entry the
    /// claim came from. The component itself is read through the cell.
    pub fn map<U>(self) -> (mapped: CellRef<U>)
        ensures
            mapped.key() == self.key(),
    {
        let key = self.key;
        let _ = self;
        CellRef { key, marker: PhantomData }
    }
}

} // verus!
