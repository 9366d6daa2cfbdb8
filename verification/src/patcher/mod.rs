//! Fixture descriptions and the instances placed in a show.
use vstd::prelude::*;

use crate::utils::id_alloc::Id;

pub mod fixture_types;

verus! {

/// A single instance of a fixture in a show.
#[derive(Debug, Clone, Copy)]
pub struct DmxFixtureInstance {
    /// The fixture profile in the library
    pub fixture_profile: Id,
    /// The personality (mode) the fixture is set to
    pub personality: u32,
    /// The logical universe the fixture is in
    pub universe: Id,
    /// The offset of the fixture within the universe
    pub offset: u16,
}

} // verus!
