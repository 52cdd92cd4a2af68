//! Runtime-managed borrowing of values in a type-indexed map.
//!
//! The core is a [`Cell`] that pairs a value with an integer borrow flag and
//! grants claims at run time under the usual aliasing rule: any number of
//! shared claims, or one exclusive claim, never both. [`Resources`] maps a
//! type-identity token (a 64-bit key) to such a cell, so unrelated callers
//! can each store one value per type and claim them independently; a layer
//! that erases and downcasts concrete types sits outside this crate and
//! supplies the tokens.
//!
//! A claim is a token ([`CellRef`] or [`CellRefMut`]) rather than a
//! reference: the value is observed and replaced through the cell or the
//! map, and the token is handed back explicitly, which decrements the flag
//! exactly once. Each token carries a ghost key naming the entry it was
//! granted on, projection keeps that key, and the map's release operations
//! demand it back, so a claim can only ever be returned to its own entry.
//! Every flag transition is stated in the contracts, and the
//! aliasing discipline itself is proved: see
//! [`lemma_shared_claims_coexist`], [`lemma_exclusive_excludes_all`],
//! [`lemma_shared_excludes_exclusive`], [`lemma_claim_release_round_trip`],
//! [`lemma_insert_remove_round_trip`] and [`lemma_acquire_release_all`].
//!
//! Functions that fetch their own arguments are described by [`ParamDesc`]
//! lists and resolved against the map in declaration order by
//! [`Resources::try_borrow_all`], which either takes every claim or reports
//! the first refusal with no partial effect.

pub use crate::borrow_fail::BorrowFail;
pub use crate::cell::Cell;
pub use crate::cell_ref::CellRef;
pub use crate::cell_ref_mut::CellRefMut;
pub use crate::cell::lemma_claim_release_round_trip;
pub use crate::cell::lemma_exclusive_excludes_all;
pub use crate::cell::lemma_shared_claims_coexist;
pub use crate::cell::lemma_shared_excludes_exclusive;
pub use crate::cell::lemma_spec_new;
pub use crate::entry::Entry;
pub use crate::fn_resource::acquire_outcome;
pub use crate::fn_resource::lemma_acquire_release_all;
pub use crate::fn_resource::lemma_acquire_touches_only_params;
pub use crate::fn_resource::mentions_key;
pub use crate::fn_resource::release_outcome;
pub use crate::fn_resource::AccessMode;
pub use crate::fn_resource::Claim;
pub use crate::fn_resource::FnResource;
pub use crate::fn_resource::IntoFnResource;
pub use crate::fn_resource::ParamDesc;
pub use crate::resource::TypeNameLit;
pub use crate::resource_fetch_error::ResourceFetchError;
pub use crate::resources::lemma_insert_remove_round_trip;
pub use crate::resources::lemma_map_shared_claims_coexist;
pub use crate::resources::lemma_map_shared_excludes_exclusive;
pub use crate::resources::Resources;

mod borrow_fail;
mod cell;
mod cell_ref;
mod cell_ref_mut;
mod entry;
mod fn_resource;
mod resource;
mod resource_fetch_error;
mod resources;
