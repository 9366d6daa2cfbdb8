//! What blending a channel promises.
use vstd::prelude::*;

use crate::patcher::fixture_types::{BlendingScheme, Channel, ChannelType, SnapData};
use super::{blend_rule, blend_spec, lemma_scale_bounds, scale};

verus! {

/// The channel declares latest-takes-precedence blending without snapping:
/// a linear LTP channel, or a segmented LTP channel that declares no
/// snapping.
pub open spec fn fades_without_snapping(ch: Channel) -> bool {
    match ch.ch_type {
        ChannelType::Linear { priority } => priority == BlendingScheme::LTP,
        ChannelType::Segmented { priority, snapping, .. } => priority == BlendingScheme::LTP && snapping
            == SnapData::NoSnap,
    }
}

/// What `blend` gives for `ch` (its `ensures` states the result is this).
pub open spec fn blended(ch: Channel, base: u16, value: u16, opacity: u16) -> int {
    blend_spec(blend_rule(ch.ch_type).0, blend_rule(ch.ch_type).1, base, value, opacity)
}

proof fn lemma_scale_monotone(d: int, o1: int, o2: int)
    requires
        0 <= d,
        0 <= o1 <= o2 <= 65535,
    ensures
        scale(d, o1) <= scale(d, o2),
        scale(d, 65535) == d,
        scale(d, 0) == 0,
{
    assert(d * o1 <= d * o2) by (nonlinear_arith)
        requires
            0 <= d,
            o1 <= o2,
    ;
    assert(d * o1 / 65535 <= d * o2 / 65535) by (nonlinear_arith)
        requires
            d * o1 <= d * o2,
    ;
    assert(d * 65535 / 65535 == d) by (nonlinear_arith);
    assert(d * 0 == 0);
}

/// A channel that fades without snapping starts at the base at opacity 0,
/// reaches the value at full opacity, always lies between the two, and
/// comes closer to the value as the opacity grows.
pub proof fn law_ltp_channel_fades(ch: Channel, base: u16, value: u16, o1: u16, o2: u16)
    requires
        fades_without_snapping(ch),
        o1 <= o2,
    ensures
        blended(ch, base, value, 65535) == value,
        blended(ch, base, value, 0) == base,
        base <= value ==> base <= blended(ch, base, value, o1) <= blended(ch, base, value, o2) <= value,
        value <= base ==> value <= blended(ch, base, value, o2) <= blended(ch, base, value, o1) <= base,
{
    if value >= base {
        lemma_scale_monotone(value - base, o1 as int, o2 as int);
        lemma_scale_bounds(value - base, o2 as int);
    } else {
        lemma_scale_monotone(base - value, o1 as int, o2 as int);
        lemma_scale_bounds(base - value, o2 as int);
    }
}

/// A segmented channel that declares no snapping blends exactly as a
/// linear channel of the same priority.
pub proof fn law_unsnapped_segmented_blends_as_linear(ch: Channel, linear: Channel, base: u16, value: u16, opacity: u16)
    requires
        ch.ch_type matches ChannelType::Segmented { priority, snapping, .. } && snapping == SnapData::NoSnap
            && linear.ch_type == (ChannelType::Linear { priority }),
    ensures
        blended(ch, base, value, opacity) == blended(linear, base, value, opacity),
{
}

} // verus!
