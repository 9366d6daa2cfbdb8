//! Protocol-erased descriptions of fixtures: channels, personalities and how
//! their values are blended.
use vstd::prelude::*;

use crate::utils::smallmap::SmallMap;

verus! {

/// A value stored for a channel. Values are stored at the largest size that
/// `ChannelSize` offers; outputs truncate them to the size of the channel.
#[derive(PartialEq, Eq, Structural, Debug, Clone, Copy)]
pub enum ChannelValue {
    L16(u16),
}

impl ChannelValue {
    /// The stored 16-bit value.
    pub open spec fn value(self) -> u16 {
        match self {
            ChannelValue::L16(v) => v,
        }
    }

    /// The stored value as a 16-bit integer.
    pub fn as_u16(self) -> (r: u16)
        ensures
            r == self.value(),
    {
        match self {
            ChannelValue::L16(v) => v,
        }
    }

    /// The stored value truncated to 8 bits (its low byte).
    pub fn as_u8(self) -> (r: u8)
        ensures
            r == self.value() % 256,
    {
        match self {
            ChannelValue::L16(v) => (v % 256) as u8,
        }
    }
}

/// A signed offset large enough to hold both positive and negative
/// representations of a channel value.
pub type ChannelOffsetValue = i32;

/// The size of a channel on the wire.
#[derive(PartialEq, Eq, Structural, Debug, Clone, Copy)]
pub enum ChannelSize {
    U8,
    U16,
}

/// The method in which conflicts are resolved while blending.
#[derive(PartialEq, Eq, Structural, Debug, Clone, Copy)]
pub enum BlendingScheme {
    /// Highest Takes Priority (usually used for intensity): the highest of the
    /// faded value and the backdrop wins.
    HTP,
    /// Latest Takes Priority (usually used for color): values are applied in
    /// layer order, fading from the running value.
    LTP,
}

/// Whether a value snaps to a new value instead of fading to it.
#[derive(PartialEq, Eq, Structural, Debug, Clone, Copy)]
pub enum SnapData {
    /// Do not snap values.
    NoSnap,
    /// Take the new value once the opacity is beyond this threshold.
    SnapAt(ChannelValue),
}

/// Describes an image to display.
#[derive(Debug, Clone)]
pub enum AssetDescriptor {
    BuiltIn(String),
    SVGInline(String),
}

/// How a segment is shown to the user.
#[derive(Debug, Clone)]
pub enum SegmentDisplay {
    Gobo { asset: AssetDescriptor },
    Color { red: u8, green: u8, blue: u8 },
    Image { asset: AssetDescriptor },
    Other,
}

/// A named range of values within a segmented channel.
#[derive(Debug, Clone)]
pub struct Segment {
    /// The minimum value within this segment
    pub start: ChannelValue,
    /// The maximum value within this segment
    pub end: ChannelValue,
    /// The name of the segment, for display
    pub name: String,
    /// How the segment is displayed
    pub display: SegmentDisplay,
}

/// How a channel is blended and controlled.
#[derive(Debug, Clone)]
pub enum ChannelType {
    Segmented {
        segments: Vec<Segment>,
        priority: BlendingScheme,
        snapping: SnapData,
    },
    Linear {
        priority: BlendingScheme,
    },
}

/// Information about a specific channel available on a fixture.
#[derive(Debug, Clone)]
pub struct Channel {
    /// Name of the channel
    pub name: String,
    /// `Some(ids)` marks this channel as a virtual intensity channel: each
    /// listed channel is inhibited by this channel's value before output.
    pub intensity_emulation: Option<Vec<u32>>,
    /// Size of the channel on the wire
    pub size: ChannelSize,
    /// Default value, used in the background layer
    pub default: ChannelValue,
    /// How the channel is blended
    pub ch_type: ChannelType,
}

/// A mode of a fixture: which channels of the profile it uses, in order.
#[derive(Debug, Clone)]
pub struct Personality {
    pub name: String,
    pub available_channels: Vec<u32>,
}

/// A group of channels that a special controller can drive.
#[derive(Debug, Clone, Copy)]
pub enum ControlGroupData {
    Intensity(u32),
    RGBGroup { red: u32, green: u32, blue: u32 },
    CMYKGroup { cyan: u32, magenta: u32, yellow: u32, black: u32 },
    PanTilt { pan: u32, tilt: u32 },
    Gobo(u32),
    ColorWheel(u32),
    Zoom(u32),
    GenericInput(u32),
}

/// A named group of channels for a user-friendly controller.
#[derive(Debug, Clone)]
pub struct ControlGroup {
    pub name: Option<String>,
    pub channels: ControlGroupData,
}

/// Generic, protocol-erased information about a fixture.
pub struct FixtureProfile {
    /// Identifies the profile; instances refer to it
    pub id: u128,
    pub name: String,
    pub short_name: Option<String>,
    pub manufacturer: Option<String>,
    pub family: Option<String>,
    pub manual: Option<String>,
    pub notes: Option<String>,
    /// Pool of channels for the personalities to choose from
    pub channels: SmallMap<u32, Channel>,
    /// Modes of the fixture
    pub personalities: SmallMap<u32, Personality>,
    /// Groups of channels for special controllers
    pub control_groups: Vec<ControlGroup>,
}

} // verus!
