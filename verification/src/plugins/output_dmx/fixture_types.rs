//! DMX-specific parts of a fixture definition.
use vstd::prelude::*;

use crate::utils::smallmap::SmallMap;

verus! {

/// DMX-specific components of a fixture definition: the channel layout of
/// each personality.
pub struct DMXFixtureData {
    pub personalities: SmallMap<u32, DMXPersonalityData>,
}

/// DMX-specific personality data: the order of the channels on the wire.
pub struct DMXPersonalityData {
    pub dmx_channel_order: Vec<u32>,
}

} // verus!
