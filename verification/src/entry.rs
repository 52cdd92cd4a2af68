use vstd::prelude::*;

use core::marker::PhantomData;

use crate::cell::Cell;
use crate::cell_ref_mut::CellRefMut;
use crate::resources::Resources;

verus! {

/// A handle on one type-identity token of a [`Resources`] map, used to read
/// or create the entry for that token in a single step.
///
/// The handle only remembers the token; it is applied to a map with
/// [`Entry::or_insert`] or [`Entry::or_insert_with`], which grant the
/// exclusive claim on the possibly just-created value without a separate
/// insert-and-borrow round trip.
pub struct Entry<V> {
    key: u64,
    marker: PhantomData<V>,
}

impl<V> Entry<V> {
    /// The token this handle is about.
    pub closed spec fn key(self) -> u64 {
        self.key
    }

    /// Creates a handle for `key`.
    pub fn new(key: u64) -> (entry: Entry<V>)
        ensures
            entry.key() == key,
    {
        Entry { key, marker: PhantomData }
    }

    /// Grants the exclusive claim on this entry's value, inserting `value`
    /// first when the entry is absent. When the entry already exists its
    /// value is kept and `value` is dropped.
    pub fn or_insert(self, resources: &mut Resources<V>, value: V) -> (guard: CellRefMut<V>)
        requires
            old(resources)@.contains_key(self.key()) ==> old(resources)@[self.key()].can_write(),
        ensures
            final(resources)@.contains_key(self.key()),
            final(resources)@[self.key()].is_writing(),
            guard.key() == self.key(),
            old(resources)@.contains_key(self.key())
                ==> final(resources)@
                    == old(resources)@.insert(self.key(), old(resources)@[self.key()].with_writer())
                && final(resources)@[self.key()].value() == old(resources)@[self.key()].value(),
            !old(resources)@.contains_key(self.key())
                ==> final(resources)@
                    == old(resources)@.insert(self.key(), Cell::spec_new(value).with_writer())
                && final(resources)@[self.key()].value() == value,
    {
        if !resources.contains(self.key) {
            resources.insert(self.key, value);
            proof {
                assert(old(resources)@.insert(
                    self.key(),
                    Cell::spec_new(value),
                ).insert(self.key(), Cell::spec_new(value).with_writer()) =~= old(
                    resources,
                )@.insert(self.key(), Cell::spec_new(value).with_writer()));
            }
        }
        resources.borrow_mut(self.key)
    }

    /// Grants the exclusive claim on this entry's value, inserting the
    /// result of `f` first when the entry is absent. When the entry already
    /// exists its value is kept and `f` is not called.
    pub fn or_insert_with<F: FnOnce() -> V>(self, resources: &mut Resources<V>, f: F) -> (guard:
        CellRefMut<V>)
        requires
            old(resources)@.contains_key(self.key()) ==> old(resources)@[self.key()].can_write(),
            !old(resources)@.contains_key(self.key()) ==> call_requires(f, ()),
        ensures
            final(resources)@.contains_key(self.key()),
            final(resources)@[self.key()].is_writing(),
            guard.key() == self.key(),
            old(resources)@.contains_key(self.key())
                ==> final(resources)@
                    == old(resources)@.insert(self.key(), old(resources)@[self.key()].with_writer())
                && final(resources)@[self.key()].value() == old(resources)@[self.key()].value(),
            !old(resources)@.contains_key(self.key())
                ==> final(resources)@
                    == old(resources)@.insert(
                        self.key(),
                        Cell::spec_new(final(resources)@[self.key()].value()).with_writer(),
                    )
                && call_ensures(f, (), final(resources)@[self.key()].value()),
    {
        if !resources.contains(self.key) {
            let value = f();
            resources.insert(self.key, value);
            proof {
                assert(old(resources)@.insert(
                    self.key(),
                    Cell::spec_new(value),
                ).insert(self.key(), Cell::spec_new(value).with_writer()) =~= old(
                    resources,
                )@.insert(self.key(), Cell::spec_new(value).with_writer()));
            }
        }
        resources.borrow_mut(self.key)
    }
}

impl<V> Resources<V> {
    /// Returns an entry handle for `key`.
    pub fn entry(&self, key: u64) -> (entry: Entry<V>)
        ensures
            entry.key() == key,
    {
        Entry::new(key)
    }
}

} // verus!
