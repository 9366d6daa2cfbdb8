//! Identifiers for objects stored in a show.
use vstd::prelude::*;

verus! {

/// Identifies an object (a fixture, profile, universe or submaster) in a show.
pub type Id = u32;

} // verus!
