use vstd::prelude::*;

use core::marker::PhantomData;

verus! {

/// The exclusive claim on a [`Cell`], tracked at run time.
///
/// The token carries no run-time data: the claimed value is swapped out and
/// back through [`Cell::replace`] or overwritten through [`Cell::set`], and
/// the claim is returned with [`Cell::release_mut`], which resets the flag
/// to free. It does carry a ghost key — the type-identity token it was
/// granted under when it came from a [`Resources`] map — so the map's
/// release operations can demand that a claim is returned to the entry it
/// was granted on. The token cannot be cloned: at most one exclusive claim
/// exists at a time.
///
/// [`Cell`]: crate::cell::Cell
/// [`Cell::replace`]: crate::cell::Cell::replace
/// [`Cell::set`]: crate::cell::Cell::set
/// [`Cell::release_mut`]: crate::cell::Cell::release_mut
/// [`Resources`]: crate::resources::Resources
pub struct CellRefMut<T> {
    key: Ghost<u64>,
    marker: PhantomData<T>,
}

impl<T> CellRefMut<T> {
    /// The type-identity token this claim was granted under.
    pub closed spec fn key(self) -> u64 {
        self.key@
    }

    /// Mints the token. Only the cell's acquire operations call this.
    pub(crate) fn claim(Ghost(key): Ghost<u64>) -> (guard: CellRefMut<T>)
        ensures
            guard.key() == key,
    {
        CellRefMut { key: Ghost(key), marker: PhantomData }
    }

    /// Re-keys a claim granted by a cell to the map entry it was granted
    /// on, consuming the cell-level token. Only the map's acquire
    /// operations call this.
    pub(crate) fn with_key(self, Ghost(key): Ghost<u64>) -> (guard: CellRefMut<T>)
        ensures
            guard.key() == key,
    {
        let _ = self;
        CellRefMut { key: Ghost(key), marker: PhantomData }
    }

    /// Re-aims the claim at a component of the borrowed data, preserving the
    /// existing claim: the token consumed here is replaced by one over the
    /// component's type, granted under the same key, so that releasing the
    /// new token performs the one release that was owed, on the entry the
    /// claim came from. The flag stays on the exclusive sentinel throughout.
    pub fn map<U>(self) -> (mapped: CellRefMut<U>)
        ensures
            mapped.key() == self.key(),
    {
        let key = self.key;
        let _ = self;
        CellRefMut { key, marker: PhantomData }
    }
}

} // verus!
