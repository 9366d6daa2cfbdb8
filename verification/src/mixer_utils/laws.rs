//! What the default blending algorithm promises.
use vstd::prelude::*;

use crate::mixer_utils::default_blender::{blended_attribute, blended_fixture, faded_value, ltp_value, nearest};
use crate::mixer_utils::state::{BlenderValue, BlendingData, BlendingScheme, SnapData};

verus! {

/// Rounding a whole number of 65535ths gives that number.
proof fn lemma_nearest_exact(k: int)
    ensures
        nearest(k * 65535, 65535) == k,
{
    assert(2 * (k * 65535) + 65535 == 131070 * k + 65535) by (nonlinear_arith);
    assert((131070 * k + 65535) / 131070 == k) by (nonlinear_arith);
}

/// A submaster at opacity 0 changes no attribute.
pub proof fn law_zero_opacity_changes_nothing(current: u16, blending_data: BlendingData, value: BlenderValue)
    ensures
        blended_attribute(current, blending_data, value, 0) == current,
{
    lemma_nearest_exact(0);
    assert(blended_attribute(current, blending_data, value, 0) == current) by {
        assert(nearest(0, 65535) == 0);
        match value {
            BlenderValue::Static(v) => {
                assert(v * 0 == 0);
                assert((v - current) * 0 == 0);
            },
            BlenderValue::Offset(o) => {
                assert(o * 0 == 0);
            },
            BlenderValue::Transparent => {},
        }
    }
}

/// Without snapping, a static value at full opacity takes the attribute
/// to it with LTP, and to the higher of the two with HTP.
pub proof fn law_full_opacity_static(current: u16, blending_data: BlendingData, v: u16)
    requires
        blending_data.snap == SnapData::NoSnap,
    ensures
        blending_data.scheme == BlendingScheme::LTP ==> blended_attribute(
            current,
            blending_data,
            BlenderValue::Static(v),
            65535,
        ) == v,
        blending_data.scheme == BlendingScheme::HTP ==> blended_attribute(
            current,
            blending_data,
            BlenderValue::Static(v),
            65535,
        ) == if v > current {
            v
        } else {
            current
        },
{
    lemma_nearest_exact(v - current);
    lemma_nearest_exact(v as int);
    assert((v - current) * 65535 == (v - current) * 65535);
    assert(ltp_value(current, v, 65535) == v);
    assert(faded_value(v, 65535) == v);
}

/// With snapping, a submaster at or below the threshold leaves every value
/// as it is.
pub proof fn law_snap_below_threshold(current: u16, blending_data: BlendingData, value: BlenderValue, opacity: u16)
    requires
        blending_data.snap matches SnapData::SnapAt(fulcrum) && opacity <= fulcrum,
    ensures
        blended_attribute(current, blending_data, value, opacity) == current,
{
    lemma_nearest_exact(0);
    match value {
        BlenderValue::Static(v) => {
            assert(v * 0 == 0);
            assert((v - current) * 0 == 0);
        },
        BlenderValue::Offset(o) => {
            assert(o * 0 == 0);
        },
        BlenderValue::Transparent => {},
    }
}

/// A snapping LTP attribute never blends: once the submaster's opacity is
/// past the threshold it takes the submaster's value, and until then it
/// keeps its own.
pub proof fn law_snap_ltp_jumps(current: u16, blending_data: BlendingData, v: u16, opacity: u16)
    requires
        blending_data.scheme == BlendingScheme::LTP,
        blending_data.snap is SnapAt,
    ensures
        blended_attribute(current, blending_data, BlenderValue::Static(v), opacity) == if opacity
            > blending_data.snap->SnapAt_0 {
            v
        } else {
            current
        },
{
    lemma_nearest_exact(v - current);
    lemma_nearest_exact(0);
    assert((v - current) * 0 == 0);
    assert(ltp_value(current, v, 65535) == v);
    assert(ltp_value(current, v, 0) == current);
}

/// An LTP blend lands between the running value and the new one.
pub proof fn law_ltp_between(current: u16, new: u16, opacity: u16)
    ensures
        current <= new ==> current <= ltp_value(current, new, opacity) <= new,
        new <= current ==> new <= ltp_value(current, new, opacity) <= current,
{
    let d = new - current;
    let p = d * opacity;
    if current <= new {
        assert(0 <= p <= d * 65535) by (nonlinear_arith)
            requires
                d >= 0,
                0 <= opacity <= 65535,
                p == d * opacity,
        ;
        assert(0 <= nearest(p, 65535) <= d) by (nonlinear_arith)
            requires
                0 <= p <= d * 65535,
        ;
    } else {
        assert(d * 65535 <= p <= 0) by (nonlinear_arith)
            requires
                d < 0,
                0 <= opacity <= 65535,
                p == d * opacity,
        ;
        assert(d <= nearest(p, 65535) <= 0) by (nonlinear_arith)
            requires
                d * 65535 <= p <= 0,
        ;
    }
}

/// Blending never adds or removes an attribute of a fixture.
pub proof fn law_blending_keeps_attributes(
    cumulative: Map<u32, u16>,
    blending: Map<u32, BlendingData>,
    submaster: Map<u32, BlenderValue>,
    opacity: u16,
)
    ensures
        blended_fixture(cumulative, blending, submaster, opacity).dom() == cumulative.dom(),
{
    assert(blended_fixture(cumulative, blending, submaster, opacity).dom() =~= cumulative.dom());
}

} // verus!
