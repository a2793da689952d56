//! Security-labeling core for a content-addressed tree repository.
//!
//! A loaded [`policy::Policy`] maps repository-relative paths and file modes
//! to security context labels. The crate covers loading a policy from one of
//! three sources, resolving a label for a single path, restoring labels over
//! a listing of filesystem entries, and scoping an ambient creation context.

pub mod bytes;
pub mod cancel;
pub mod checksum;
pub mod creation;
pub mod errors;
pub mod laws;
pub mod policy;
pub mod resolve;
pub mod restore;
pub mod store;

use vstd::prelude::*;

verus! {

} // verus!
