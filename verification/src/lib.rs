//! An interactive navigator for hierarchical, self-describing data: lists,
//! keyed records, and scalar leaves.
//!
//! The heart of the crate is the navigation state machine: a focus path into
//! an immutable value tree, kept consistent while the user moves between
//! siblings, descends into containers, ascends out of them, and finally
//! extracts ("peeks") a value back out.  All terminal handling lives outside
//! this crate; the functions here are pure and fully specified.

use vstd::prelude::*;

pub mod laws;
pub mod machine;
pub mod mode;
pub mod nav;
pub mod path;
pub mod value;

verus! {

/// The navigator, packaged as a value for hosts that drive it as a plugin.
///
/// The type itself carries no state: a session owns a
/// [`nav::NavigationState`] and the borrowed root value instead.
pub struct Explore;

} // verus!
