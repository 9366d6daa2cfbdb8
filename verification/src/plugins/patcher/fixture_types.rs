//! The patcher's description of a fixture type.
use vstd::prelude::*;

use crate::patcher::fixture_types::{Channel, Personality};
use crate::utils::smallmap::SmallMap;

verus! {

/// Generic, protocol-erased information about a fixture type, with the name
/// of the output driver that handles its protocol-specific details.
pub struct FixtureInfo {
    /// Identifies the fixture type; instances refer to it
    pub id: u128,
    /// The human-readable name of the fixture type
    pub name: String,
    /// The id of the output driver responsible for this fixture type
    pub output_driver: String,
    /// Pool of channels for the personalities to choose from
    pub channels: SmallMap<u32, Channel>,
    /// Modes of the fixture
    pub personalities: SmallMap<u32, Personality>,
}

} // verus!
