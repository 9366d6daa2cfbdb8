//! The data blended by the mixer.
use vstd::prelude::*;

use crate::utils::smallmap::SmallMap;

verus! {

/// A value in a submaster, with instructions for mixing it into the result.
#[derive(Debug, Clone, Copy, PartialEq, Eq, Structural)]
pub enum BlenderValue {
    /// Transparent value
    Transparent,
    /// At full opacity, the attribute is exactly this value
    Static(u16),
    /// Added to the running value during blending; overflows stick to the
    /// bounds
    Offset(i32),
}

/// The abstract data for a single light in a layer: attribute id to value.
pub type AbstractLayerLight = SmallMap<u32, BlenderValue>;

/// The data within a submaster used for blending: fixture id to light.
pub type SubmasterData = SmallMap<u128, AbstractLayerLight>;

/// The finished values of a light: attribute id to value.
pub type FixtureMixerOutput = SmallMap<u32, u16>;

/// The full output of the mixer: fixture id to attribute id to value.
pub type FullMixerOutput = SmallMap<u128, FixtureMixerOutput>;

/// How conflicts are resolved while blending.
#[derive(Debug, Clone, Copy, PartialEq, Eq, Structural)]
pub enum BlendingScheme {
    /// Highest Takes Priority (usually used for intensity)
    HTP,
    /// Latest Takes Priority (usually used for color)
    LTP,
}

/// Whether a value snaps to a new value instead of fading to it.
#[derive(Debug, Clone, Copy, PartialEq, Eq, Structural)]
pub enum SnapData {
    /// Do not snap values
    NoSnap,
    /// Take the latest value once the opacity is beyond this threshold
    SnapAt(u16),
}

/// How an attribute is blended, as given by the fixture description.
#[derive(Debug, Clone, Copy, PartialEq, Eq, Structural)]
pub struct BlendingData {
    /// How the value is blended
    pub scheme: BlendingScheme,
    /// Whether the value snaps
    pub snap: SnapData,
    /// Whether offsets wrap around instead of sticking to the bounds
    pub allow_wrap: bool,
    /// The maximum value of the attribute
    pub max_value: u16,
    /// The minimum value of the attribute
    pub min_value: u16,
}

/// How each attribute of each fixture is blended.
pub type FullMixerBlendingData = SmallMap<u128, SmallMap<u32, BlendingData>>;

/// The values of a submaster: fixture id to attribute id to value.
pub open spec fn submaster_view(data: SubmasterData) -> Map<u128, Map<u32, BlenderValue>> {
    data@.map_values(|l: AbstractLayerLight| l@)
}

/// The values of a mixer output: fixture id to attribute id to value.
pub open spec fn output_view(data: FullMixerOutput) -> Map<u128, Map<u32, u16>> {
    data@.map_values(|l: FixtureMixerOutput| l@)
}

/// How each attribute of each fixture is blended, as a map.
pub open spec fn blending_view(data: FullMixerBlendingData) -> Map<u128, Map<u32, BlendingData>> {
    data@.map_values(|l: SmallMap<u32, BlendingData>| l@)
}

} // verus!
