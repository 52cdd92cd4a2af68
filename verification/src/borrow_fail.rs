use vstd::prelude::*;

verus! {

/// Reason a non-fatal borrow attempt was refused.
///
/// The three variants let a caller tell a missing entry apart from the two
/// kinds of aliasing conflict, and report the first failure without applying
/// any partial effect.
#[derive(Clone, Copy, Debug, PartialEq, Eq, Structural)]
pub enum BorrowFail {
    /// No entry exists for the requested key.
    ValueNotFound,
    /// A shared claim was requested, but the entry is exclusively claimed.
    BorrowConflictImm,
    /// An exclusive claim was requested, but the entry is already claimed,
    /// whether shared or exclusive.
    BorrowConflictMut,
}

} // verus!
