//! Blending of channel values through a stack of layers.
use vstd::prelude::*;

use crate::patcher::fixture_types::{
    BlendingScheme, Channel, ChannelOffsetValue, ChannelType, ChannelValue, SnapData,
};
use crate::utils::id_alloc::Id;
use crate::utils::smallmap::{SmallMap, unique_keys};

pub mod laws;
pub mod shader_context;

verus! {

/// How deep passthrough references between submasters are followed.
pub const MAX_LAYER_DEPTH: usize = 50;

/// `value` scaled by `opacity`, where 65535 is full opacity (rounded down).
pub open spec fn scale(value: int, opacity: int) -> int {
    value * opacity / 65535
}

/// Fades from `base` towards `value` by `opacity`. The step is rounded towards
/// `base`, so the result always lies between the two.
pub open spec fn fade(base: u16, value: u16, opacity: u16) -> int {
    if value >= base {
        base + scale(value - base, opacity as int)
    } else {
        base - scale(base - value, opacity as int)
    }
}

/// The blending scheme and snapping that a channel type uses. A linear channel
/// never snaps.
pub open spec fn blend_rule(ch_type: ChannelType) -> (BlendingScheme, SnapData) {
    match ch_type {
        ChannelType::Segmented { priority, snapping, .. } => (priority, snapping),
        ChannelType::Linear { priority } => (priority, SnapData::NoSnap),
    }
}

/// The result of blending `value` over `base` at `opacity`:
/// - snapping LTP: `value` once the opacity is past the fulcrum, else `base`;
/// - snapping HTP: the larger of the two once past the fulcrum, else `base`;
/// - HTP: the larger of `base` and the scaled `value`;
/// - LTP: the fade from `base` to `value`.
pub open spec fn blend_spec(
    priority: BlendingScheme,
    snapping: SnapData,
    base: u16,
    value: u16,
    opacity: u16,
) -> int {
    match snapping {
        SnapData::SnapAt(fulcrum) => {
            if opacity > fulcrum.value() {
                match priority {
                    BlendingScheme::LTP => value as int,
                    BlendingScheme::HTP => if value >= base {
                        value as int
                    } else {
                        base as int
                    },
                }
            } else {
                base as int
            }
        },
        SnapData::NoSnap => match priority {
            BlendingScheme::HTP => {
                let faded = scale(value as int, opacity as int);
                if base >= faded {
                    base as int
                } else {
                    faded
                }
            },
            BlendingScheme::LTP => fade(base, value, opacity),
        },
    }
}

/// Scaling by an opacity never makes a value larger.
pub proof fn lemma_scale_bounds(value: int, opacity: int)
    requires
        0 <= value,
        0 <= opacity <= 65535,
    ensures
        0 <= scale(value, opacity) <= value,
{
    assert(0 <= value * opacity <= value * 65535) by (nonlinear_arith)
        requires
            0 <= value,
            0 <= opacity <= 65535,
    ;
    assert(value * 65535 / 65535 == value) by (nonlinear_arith);
    assert(value * opacity / 65535 <= value * 65535 / 65535) by (nonlinear_arith)
        requires
            0 <= value * opacity <= value * 65535,
    ;
    assert(0 <= value * opacity / 65535) by (nonlinear_arith)
        requires
            0 <= value * opacity,
    ;
}

/// `value * opacity / 65535`, rounded down, for 16-bit operands.
pub fn scale_u16(value: u16, opacity: u16) -> (r: u16)
    ensures
        r == scale(value as int, opacity as int),
{
    proof {
        lemma_scale_bounds(value as int, opacity as int);
    }
    let product: u32 = value as u32 * opacity as u32;
    (product / 65535u32) as u16
}

/// Blends a single channel using the default algorithm according to the
/// channel info struct.
pub fn blend(channel_info: &Channel, base: ChannelValue, value: ChannelValue, opacity: u16) -> (r:
    ChannelValue)
    ensures
        r.value() == blend_spec(
            blend_rule(channel_info.ch_type).0,
            blend_rule(channel_info.ch_type).1,
            base.value(),
            value.value(),
            opacity,
        ),
{
    let b = base.as_u16();
    let v = value.as_u16();
    let (priority, snapping) = match &channel_info.ch_type {
        ChannelType::Segmented { priority, snapping, .. } => (*priority, *snapping),
        ChannelType::Linear { priority } => (*priority, SnapData::NoSnap),
    };
    match snapping {
        SnapData::SnapAt(fulcrum) => {
            if opacity > fulcrum.as_u16() {
                match priority {
                    BlendingScheme::LTP => value,
                    BlendingScheme::HTP => ChannelValue::L16(
                        if v >= b {
                            v
                        } else {
                            b
                        },
                    ),
                }
            } else {
                base
            }
        },
        SnapData::NoSnap => match priority {
            BlendingScheme::HTP => {
                let faded = scale_u16(v, opacity);
                ChannelValue::L16(
                    if b >= faded {
                        b
                    } else {
                        faded
                    },
                )
            },
            BlendingScheme::LTP => {
                if v >= b {
                    let step = scale_u16(v - b, opacity);
                    proof {
                        lemma_scale_bounds((v - b) as int, opacity as int);
                    }
                    ChannelValue::L16(b + step)
                } else {
                    let step = scale_u16(b - v, opacity);
                    proof {
                        lemma_scale_bounds((b - v) as int, opacity as int);
                    }
                    ChannelValue::L16(b - step)
                }
            },
        },
    }
}

/// The value a submaster defines for a channel.
pub enum UserDefinedValue {
    /// Static value
    Static(ChannelValue),
    /// Offset from the previous layer
    Offset(ChannelOffsetValue),
    /// Delegate the value to another submaster
    Passthrough(Id),
}

/// A set of channel values that a layer blends in.
pub enum Submaster {
    UserDefined(SmallMap<(Id, u32), UserDefinedValue>),
    Preset(SmallMap<(Id, u32), UserDefinedValue>),
}

impl Submaster {
    /// The channel values of the submaster.
    pub open spec fn values(self) -> Map<(Id, u32), UserDefinedValue> {
        match self {
            Submaster::UserDefined(values) => values@,
            Submaster::Preset(values) => values@,
        }
    }
}

/// Whether shading `channel` through `submaster` at `depth` completes.
/// Shading a static or an offset value is not implemented and does not
/// complete; a passthrough is followed to the submaster it names until the
/// depth limit is passed.
pub open spec fn shade_completes(
    submasters: Map<Id, Submaster>,
    submaster: Submaster,
    channel: (Id, u32),
    depth: int,
) -> bool
    decreases MAX_LAYER_DEPTH + 1 - depth,
{
    if depth > MAX_LAYER_DEPTH {
        true
    } else if !submaster.values().contains_key(channel) {
        true
    } else {
        match submaster.values()[channel] {
            UserDefinedValue::Static(_) => false,
            UserDefinedValue::Offset(_) => false,
            UserDefinedValue::Passthrough(id) => if submasters.contains_key(id) {
                shade_completes(submasters, submasters[id], channel, depth + 1)
            } else {
                true
            },
        }
    }
}

impl Submaster {
    /// Blends a single channel with an opacity and emits the output. Every
    /// path that completes leaves the channel at `base`.
    pub fn shade(
        &self,
        submasters: &SmallMap<Id, Submaster>,
        channel: (Id, u32),
        base: ChannelValue,
        opacity: u16,
        depth: usize,
    ) -> (r: ChannelValue)
        requires
            shade_completes(submasters@, *self, channel, depth as int),
        ensures
            r == base,
        decreases MAX_LAYER_DEPTH + 1 - depth,
    {
        if depth > MAX_LAYER_DEPTH {
            return base;
        }
        let values = match self {
            Submaster::UserDefined(values) => values,
            Submaster::Preset(values) => values,
        };
        match values.get(&channel) {
            Some(value) => match value {
                UserDefinedValue::Static(_) => base,
                UserDefinedValue::Offset(_) => base,
                UserDefinedValue::Passthrough(submaster_id) => {
                    match submasters.get(submaster_id) {
                        Some(submaster) => submaster.shade(
                            submasters,
                            channel,
                            base,
                            opacity,
                            depth + 1,
                        ),
                        None => base,
                    }
                },
            },
            None => base,
        }
    }
}

/// A submaster placed in the layer stack at an opacity.
pub struct Layer {
    pub submaster: u32,
    pub opacity: u16,
}

/// Every layer of `layers` whose submaster exists completes shading every
/// channel of `base`.
pub open spec fn layers_complete(
    base: Map<(Id, u32), ChannelValue>,
    submasters: Map<Id, Submaster>,
    layers: Seq<Layer>,
) -> bool {
    forall|path: (Id, u32), l: int|
        #![trigger base.contains_key(path), layers[l]]
        base.contains_key(path) && 0 <= l < layers.len() && submasters.contains_key(
            layers[l].submaster,
        ) ==> shade_completes(submasters, submasters[layers[l].submaster], path, 0)
}

/// Blends every channel of `base` through the layers in order. The result has
/// the entries of `base`, in the same order, with their values.
pub fn blend_layers(
    base: &SmallMap<(Id, u32), ChannelValue>,
    submasters: &SmallMap<Id, Submaster>,
    layers: &[Layer],
) -> (r: SmallMap<(Id, u32), ChannelValue>)
    requires
        layers_complete(base@, submasters@, layers@),
    ensures
        r.entries() == base.entries(),
        r@ == base@,
{
    proof {
        use_type_invariant(base);
    }
    let mut result: SmallMap<(Id, u32), ChannelValue> = SmallMap::new();
    let mut i: usize = 0;
    while i < base.len()
        invariant
            i <= base.entries().len(),
            unique_keys(base.entries()),
            result.entries() == base.entries().take(i as int),
            layers_complete(base@, submasters@, layers@),
        decreases base.entries().len() - i,
    {
        let channel_path = base.key_at(i);
        let value = *base.value_at(i);
        proof {
            crate::utils::smallmap::lemma_index_of_unique(*base, i as int);
        }
        let mut curr = value;
        let mut l: usize = 0;
        while l < layers.len()
            invariant
                l <= layers@.len(),
                curr == value,
                base@.contains_key(channel_path),
                layers_complete(base@, submasters@, layers@),
            decreases layers@.len() - l,
        {
            let layer = &layers[l];
            match submasters.get(&layer.submaster) {
                Some(submaster) => {
                    assert(base@.contains_key(channel_path) && layers@[l as int] == *layer);
                    curr = submaster.shade(submasters, channel_path, curr, layer.opacity, 0);
                },
                None => {},
            }
            l = l + 1;
        }
        assert(!result@.contains_key(channel_path)) by {
            if result@.contains_key(channel_path) {
                let a = result.index_of(channel_path);
                assert(base.entries()[a].0 == channel_path);
            }
        }
        result.insert(channel_path, curr);
        assert(result.entries() =~= base.entries().take(i + 1));
        i = i + 1;
    }
    assert(result.entries() =~= base.entries());
    assert(result@ =~= base@);
    result
}

} // verus!
