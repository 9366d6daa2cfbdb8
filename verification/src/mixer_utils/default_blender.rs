//! The default blending algorithm: how a submaster's values are drawn over
//! the running result, attribute by attribute.
use vstd::prelude::*;

use vstd::arithmetic::div_mod::lemma_hoist_over_denominator;
use crate::mixer_utils::state::{
    AbstractLayerLight, BlenderValue, BlendingData, BlendingScheme, FixtureMixerOutput, FullMixerBlendingData,
    FullMixerOutput, SnapData, SubmasterData, blending_view, output_view, submaster_view,
};
use crate::utils::smallmap::{lemma_index_of_unique, unique_keys};

verus! {

/// Aids in snapping, so an attribute that uses snapping doesn't blend: past
/// the snapping threshold the opacity is full, below it nothing. Without
/// snapping the opacity is unchanged.
pub open spec fn modified_opacity(submaster_opacity: u16, blending_data: BlendingData) -> u16 {
    match blending_data.snap {
        SnapData::NoSnap => submaster_opacity,
        SnapData::SnapAt(fulcrum) => if submaster_opacity > fulcrum {
            65535u16
        } else {
            0u16
        },
    }
}

/// Aids in snapping, so an attribute that uses snapping doesn't blend: past
/// the snapping threshold the opacity is full, below it nothing. Without
/// snapping the opacity is unchanged.
pub fn opacity_modifier(submaster_opacity: u16, blending_data: &BlendingData) -> (r: u16)
    ensures
        r == modified_opacity(submaster_opacity, *blending_data),
{
    match blending_data.snap {
        SnapData::NoSnap => submaster_opacity,
        SnapData::SnapAt(fulcrum) => {
            if submaster_opacity > fulcrum {
                u16::MAX
            } else {
                u16::MIN
            }
        },
    }
}

/// The whole number nearest to `p / d`, for `d > 0` (`p / d` is never
/// halfway between two whole numbers where it is used: there `d` is odd).
pub open spec fn nearest(p: int, d: int) -> int {
    (2 * p + d) / (2 * d)
}

/// `x` held to the range of a 16-bit value.
pub open spec fn clamp_u16(x: int) -> u16 {
    if x < 0 {
        0
    } else if x > 65535 {
        65535
    } else {
        x as u16
    }
}

/// The value `fraction` of the way from `current` to `new`, where opacity
/// 65535 is the whole way.
pub open spec fn ltp_value(current: u16, new: u16, opacity: u16) -> u16 {
    clamp_u16(current + nearest((new - current) * opacity, 65535))
}

/// `value` faded to `opacity`.
pub open spec fn faded_value(value: u16, opacity: u16) -> u16 {
    clamp_u16(nearest(value * opacity, 65535))
}

/// `current` moved by `offset` faded to `opacity`, held to the 16-bit range.
pub open spec fn offset_value(current: u16, offset: i32, opacity: u16) -> u16 {
    clamp_u16(current + nearest(offset * opacity, 65535))
}

/// The whole number nearest to `p / 65535`.
fn nearest_65535(p: i64) -> (r: i64)
    requires
        -0x8000_0000 * 65535 <= p <= 0x8000_0000 * 65535,
    ensures
        r == nearest(p as int, 65535),
        -0x8000_0000 <= r <= 0x8000_0000,
{
    let k: i64 = 0x8000_0000;
    let shifted: u64 = (p + k * 65535) as u64;
    let q: u64 = (2 * shifted + 65535) / 131070;
    proof {
        lemma_hoist_over_denominator(2 * p + 65535, k as int, 131070);
        assert((2 * p + 65535) / 131070 >= -k) by {
            lemma_hoist_over_denominator(2 * p + 65535, k as int, 131070);
        }
    }
    assert(2 * shifted + 65535 < 0x1_0000_0001 * 131070);
    assert(q <= 0x1_0000_0000) by (nonlinear_arith)
        requires
            q == (2 * shifted + 65535) / 131070,
            2 * shifted + 65535 < 0x1_0000_0001 * 131070,
    ;
    q as i64 - k
}

/// `x` held to the range of a 16-bit value.
fn clamp_to_u16(x: i64) -> (r: u16)
    ensures
        r == clamp_u16(x as int),
{
    if x < 0 {
        0
    } else if x > 65535 {
        65535
    } else {
        x as u16
    }
}

/// Blends two values as LTP: the value `opacity` of the way from the
/// running value to the new one.
pub fn blend_ltp(current_value: u16, new_value: u16, opacity: u16) -> (r: u16)
    ensures
        r == ltp_value(current_value, new_value, opacity),
{
    let diff: i64 = new_value as i64 - current_value as i64;
    assert(-65535 * 65535 <= diff * opacity <= 65535 * 65535) by (nonlinear_arith)
        requires
            -65535 <= diff <= 65535,
            0 <= opacity <= 65535,
    ;
    let n = nearest_65535(diff * opacity as i64);
    clamp_to_u16(current_value as i64 + n)
}

/// `value` faded to `opacity`.
fn fade(value: u16, opacity: u16) -> (r: u16)
    ensures
        r == faded_value(value, opacity),
{
    assert(0 <= value * opacity <= 65535 * 65535) by (nonlinear_arith)
        requires
            0 <= value <= 65535,
            0 <= opacity <= 65535,
    ;
    clamp_to_u16(nearest_65535(value as i64 * opacity as i64))
}

/// `current` moved by `offset` faded to `opacity`, held to the 16-bit range.
fn apply_offset(current: u16, offset: i32, opacity: u16) -> (r: u16)
    ensures
        r == offset_value(current, offset, opacity),
{
    assert(-0x8000_0000 * 65535 <= offset * opacity <= 0x8000_0000 * 65535) by (nonlinear_arith)
        requires
            -0x8000_0000 <= offset < 0x8000_0000,
            0 <= opacity <= 65535,
    ;
    let n = nearest_65535(offset as i64 * opacity as i64);
    clamp_to_u16(current as i64 + n)
}

/// An attribute's value after blending `value` over `current`:
/// - a transparent value leaves it;
/// - an offset moves it by the offset faded to the (snapping) opacity;
/// - a static value with HTP wins if, faded to the (snapping) opacity, it
///   is higher;
/// - a static value with LTP takes it the (snapping) opacity of the way to
///   the value: a snapping attribute jumps to the value past the threshold
///   and keeps its value at or below it.
pub open spec fn blended_attribute(current: u16, blending_data: BlendingData, value: BlenderValue, opacity: u16) -> u16 {
    match value {
        BlenderValue::Transparent => current,
        BlenderValue::Offset(offset) => offset_value(current, offset, modified_opacity(opacity, blending_data)),
        BlenderValue::Static(v) => match blending_data.scheme {
            BlendingScheme::HTP => {
                let faded = faded_value(v, modified_opacity(opacity, blending_data));
                if faded > current {
                    faded
                } else {
                    current
                }
            },
            BlendingScheme::LTP => ltp_value(current, v, modified_opacity(opacity, blending_data)),
        },
    }
}

/// A fixture's values after blending a submaster's values for it: each
/// attribute that has blending data and a value in the submaster is
/// blended; the others stay.
pub open spec fn blended_fixture(
    cumulative: Map<u32, u16>,
    blending: Map<u32, BlendingData>,
    submaster: Map<u32, BlenderValue>,
    opacity: u16,
) -> Map<u32, u16> {
    Map::new(
        |a: u32| cumulative.contains_key(a),
        |a: u32|
            if blending.contains_key(a) && submaster.contains_key(a) {
                blended_attribute(cumulative[a], blending[a], submaster[a], opacity)
            } else {
                cumulative[a]
            },
    )
}

/// The running result after blending a submaster over it: each fixture that
/// has blending data and values in the submaster is blended; the others
/// stay.
pub open spec fn blended_layer(
    cumulative: Map<u128, Map<u32, u16>>,
    blending: Map<u128, Map<u32, BlendingData>>,
    submaster: Map<u128, Map<u32, BlenderValue>>,
    opacity: u16,
) -> Map<u128, Map<u32, u16>> {
    Map::new(
        |f: u128| cumulative.contains_key(f),
        |f: u128|
            if blending.contains_key(f) && submaster.contains_key(f) {
                blended_fixture(cumulative[f], blending[f], submaster[f], opacity)
            } else {
                cumulative[f]
            },
    )
}

/// Blends one attribute.
fn blend_attribute(current: u16, blending_data: &BlendingData, value: BlenderValue, opacity: u16) -> (r: u16)
    ensures
        r == blended_attribute(current, *blending_data, value, opacity),
{
    match value {
        BlenderValue::Transparent => current,
        BlenderValue::Offset(offset) => apply_offset(current, offset, opacity_modifier(opacity, blending_data)),
        BlenderValue::Static(v) => match blending_data.scheme {
            BlendingScheme::HTP => {
                let faded = fade(v, opacity_modifier(opacity, blending_data));
                if faded > current {
                    faded
                } else {
                    current
                }
            },
            BlendingScheme::LTP => blend_ltp(current, v, opacity_modifier(opacity, blending_data)),
        },
    }
}

/// Blends a submaster's values for fixture `fixture_id` over the fixture's
/// running values. Without blending data for the fixture nothing changes.
pub fn blend_fixture(
    fixture_id: u128,
    cumulative_fixture: &mut FixtureMixerOutput,
    blending_data: &FullMixerBlendingData,
    opacity: u16,
    submaster: &AbstractLayerLight,
)
    ensures
        blending_view(*blending_data).contains_key(fixture_id) ==> final(cumulative_fixture)@ == blended_fixture(
            old(cumulative_fixture)@,
            blending_view(*blending_data)[fixture_id],
            submaster@,
            opacity,
        ),
        !blending_view(*blending_data).contains_key(fixture_id) ==> final(cumulative_fixture)@ == old(
            cumulative_fixture,
        )@,
{
    let fixture_blending_data = match blending_data.get(&fixture_id) {
        Some(b) => b,
        None => {
            return ;
        },
    };
    proof {
        use_type_invariant(&*cumulative_fixture);
    }
    let ghost old_map = *cumulative_fixture;
    let ghost start = old_map@;
    let ghost n = old_map.entries().len();
    let ghost target = blended_fixture(start, fixture_blending_data@, submaster@, opacity);
    let mut i: usize = 0;
    assert(cumulative_fixture@ =~= Map::new(
        |a: u32| start.contains_key(a),
        |a: u32|
            if exists|j: int| 0 <= j < 0 && old_map.entries()[j].0 == a {
                target[a]
            } else {
                start[a]
            },
    ));
    while i < cumulative_fixture.len()
        invariant
            i <= n,
            cumulative_fixture.entries().len() == n,
            n == old_map.entries().len(),
            unique_keys(old_map.entries()),
            start == old_map@,
            target == blended_fixture(start, fixture_blending_data@, submaster@, opacity),
            forall|j: int| 0 <= j < n ==> #[trigger] cumulative_fixture.entries()[j].0 == old_map.entries()[j].0,
            forall|j: int| i <= j < n ==> #[trigger] cumulative_fixture.entries()[j].1 == old_map.entries()[j].1,
            cumulative_fixture@ == Map::new(
                |a: u32| start.contains_key(a),
                |a: u32|
                    if exists|j: int| 0 <= j < i && old_map.entries()[j].0 == a {
                        target[a]
                    } else {
                        start[a]
                    },
            ),
        decreases n - i,
    {
        let attribute_id = cumulative_fixture.key_at(i);
        let current = *cumulative_fixture.value_at(i);
        proof {
            lemma_index_of_unique(old_map, i as int);
            use_type_invariant(&*cumulative_fixture);
            lemma_index_of_unique(*cumulative_fixture, i as int);
        }
        let new_value = match fixture_blending_data.get(&attribute_id) {
            Some(attribute_blending) => match submaster.get(&attribute_id) {
                Some(value) => blend_attribute(current, attribute_blending, *value, opacity),
                None => current,
            },
            None => current,
        };
        assert(new_value == target[attribute_id]);
        let ghost before = cumulative_fixture@;
        cumulative_fixture.insert(attribute_id, new_value);
        assert forall|a: u32| #[trigger] cumulative_fixture@.contains_key(a) implies cumulative_fixture@[a] == (
        if exists|j: int| 0 <= j < i + 1 && old_map.entries()[j].0 == a {
            target[a]
        } else {
            start[a]
        }) by {
            if a != attribute_id {
                if exists|j: int| 0 <= j < i + 1 && old_map.entries()[j].0 == a {
                    let j = choose|j: int| 0 <= j < i + 1 && old_map.entries()[j].0 == a;
                    assert(j != i);
                }
            } else {
                assert(old_map.entries()[i as int].0 == a);
            }
        }
        assert(cumulative_fixture@ =~= Map::new(
            |a: u32| start.contains_key(a),
            |a: u32|
                if exists|j: int| 0 <= j < i + 1 && old_map.entries()[j].0 == a {
                    target[a]
                } else {
                    start[a]
                },
        ));
        i = i + 1;
    }
    proof {
        assert forall|a: u32| #[trigger] start.contains_key(a) implies exists|j: int|
            0 <= j < n && old_map.entries()[j].0 == a by {
            let j = old_map.index_of(a);
            lemma_index_of_unique(old_map, j);
        }
    }
    assert(cumulative_fixture@ =~= target);
}

/// Blends a submaster over the running result, fixture by fixture.
pub fn blend_layer(
    cumulative_layer: &mut FullMixerOutput,
    blending_data: &FullMixerBlendingData,
    opacity: u16,
    submaster: &SubmasterData,
)
    ensures
        output_view(*final(cumulative_layer)) == blended_layer(
            output_view(*old(cumulative_layer)),
            blending_view(*blending_data),
            submaster_view(*submaster),
            opacity,
        ),
{
    proof {
        use_type_invariant(&*cumulative_layer);
    }
    let ghost old_map = *cumulative_layer;
    let ghost start = output_view(old_map);
    let ghost n = old_map.entries().len();
    let ghost target = blended_layer(start, blending_view(*blending_data), submaster_view(*submaster), opacity);
    let mut i: usize = 0;
    assert(output_view(*cumulative_layer) =~= Map::new(
        |f: u128| start.contains_key(f),
        |f: u128|
            if exists|j: int| 0 <= j < 0 && old_map.entries()[j].0 == f {
                target[f]
            } else {
                start[f]
            },
    ));
    while i < cumulative_layer.len()
        invariant
            i <= n,
            cumulative_layer.entries().len() == n,
            n == old_map.entries().len(),
            unique_keys(old_map.entries()),
            start == output_view(old_map),
            target == blended_layer(start, blending_view(*blending_data), submaster_view(*submaster), opacity),
            forall|j: int| 0 <= j < n ==> #[trigger] cumulative_layer.entries()[j].0 == old_map.entries()[j].0,
            forall|j: int| i <= j < n ==> #[trigger] cumulative_layer.entries()[j].1 == old_map.entries()[j].1,
            output_view(*cumulative_layer) == Map::new(
                |f: u128| start.contains_key(f),
                |f: u128|
                    if exists|j: int| 0 <= j < i && old_map.entries()[j].0 == f {
                        target[f]
                    } else {
                        start[f]
                    },
            ),
        decreases n - i,
    {
        let fixture_id = cumulative_layer.key_at(i);
        proof {
            lemma_index_of_unique(old_map, i as int);
            use_type_invariant(&*cumulative_layer);
            lemma_index_of_unique(*cumulative_layer, i as int);
        }
        let mut fixture = cumulative_layer.value_at(i).copied();
        assert(fixture@ == start[fixture_id]);
        match submaster.get(&fixture_id) {
            Some(submaster_values) => {
                blend_fixture(fixture_id, &mut fixture, blending_data, opacity, submaster_values);
            },
            None => {},
        }
        assert(fixture@ == target[fixture_id]);
        let ghost blended = fixture@;
        let ghost before_view = output_view(*cumulative_layer);
        cumulative_layer.insert(fixture_id, fixture);
        assert(output_view(*cumulative_layer) =~= before_view.insert(fixture_id, blended));
        assert forall|f: u128| #[trigger] output_view(*cumulative_layer).contains_key(f) implies output_view(
            *cumulative_layer,
        )[f] == (if exists|j: int| 0 <= j < i + 1 && old_map.entries()[j].0 == f {
            target[f]
        } else {
            start[f]
        }) by {
            if f != fixture_id {
                if exists|j: int| 0 <= j < i + 1 && old_map.entries()[j].0 == f {
                    let j = choose|j: int| 0 <= j < i + 1 && old_map.entries()[j].0 == f;
                    assert(j != i);
                }
            } else {
                assert(old_map.entries()[i as int].0 == f);
            }
        }
        assert(output_view(*cumulative_layer) =~= Map::new(
            |f: u128| start.contains_key(f),
            |f: u128|
                if exists|j: int| 0 <= j < i + 1 && old_map.entries()[j].0 == f {
                    target[f]
                } else {
                    start[f]
                },
        ));
        i = i + 1;
    }
    proof {
        assert forall|f: u128| #[trigger] start.contains_key(f) implies exists|j: int|
            0 <= j < n && old_map.entries()[j].0 == f by {
            let j = old_map.index_of(f);
            lemma_index_of_unique(old_map, j);
        }
    }
    assert(output_view(*cumulative_layer) =~= target);
}

} // verus!