//! What the patcher promises of the background layer and of virtual
//! intensity channels.
use vstd::prelude::*;

use crate::mixer_utils::state::{BlendingScheme, SnapData};
use crate::patcher::fixture_types::{
    BlendingScheme as ChannelScheme, Channel, ChannelSize, ChannelType, SnapData as ChannelSnap,
};
use super::fixture_types::FixtureInfo;
use super::interface::{
    channels_of, fixture_resolved, type_of,
    base_blending, base_defaults, inhibit_list, inhibited_value, virtual_intensity_writes,
    with_virtual_intensities,
};
use super::state::{FixtureInstance, SharablePatcherState};

verus! {

/// The background layer has blending data for exactly the fixtures and
/// channels it has default values for.
pub proof fn law_base_layer_channels_agree(s: SharablePatcherState)
    ensures
        base_defaults(s).dom() == base_blending(s).dom(),
        forall|f: u128|
            #[trigger] base_defaults(s).contains_key(f) ==> base_defaults(s)[f].dom() == base_blending(
                s,
            )[f].dom(),
{
    assert(base_defaults(s).dom() =~= base_blending(s).dom());
    assert forall|f: u128| #[trigger] base_defaults(s).contains_key(f) implies base_defaults(s)[f].dom()
        == base_blending(s)[f].dom() by {
        assert(base_defaults(s)[f].dom() =~= base_blending(s)[f].dom());
    }
}

/// A virtual intensity channel at its full value leaves the channels it
/// dims as they are, and at 0 it dims them to 0.
pub proof fn law_full_intensity_keeps_values(size: ChannelSize, inhibited_size: ChannelSize, value: u16)
    ensures
        inhibited_value(
            size,
            inhibited_size,
            value,
            match size {
                ChannelSize::U8 => 255u16,
                ChannelSize::U16 => 65535u16,
            },
        ) == value,
        inhibited_value(size, inhibited_size, value, 0) == 0,
{
    assert(value * 255 / 255 == value) by (nonlinear_arith);
    assert(value * 65535 / 65535 == value) by (nonlinear_arith);
}

/// Dimming through one virtual intensity channel changes values only: the
/// channels that have a value stay the same.
proof fn lemma_inhibit_list_keeps_channels(
    list: Seq<u32>,
    info: FixtureInfo,
    values: Map<u32, u16>,
    c: u32,
    acc: Map<u32, u16>,
)
    requires
        acc.dom() == values.dom(),
    ensures
        inhibit_list(list, info, values, c, acc).dom() == values.dom(),
    decreases list.len(),
{
    if list.len() > 0 {
        lemma_inhibit_list_keeps_channels(list.drop_last(), info, values, c, acc);
        let before = inhibit_list(list.drop_last(), info, values, c, acc);
        if info.channels@.contains_key(list.last()) && values.contains_key(list.last()) {
            assert(before.insert(list.last(), 0).dom() =~= before.dom());
        }
    }
}

/// Dimming through the virtual intensity channels of a personality changes
/// values only.
proof fn lemma_writes_keep_channels(channels: Seq<u32>, info: FixtureInfo, values: Map<u32, u16>)
    ensures
        virtual_intensity_writes(channels, info, values, values).dom() == values.dom(),
    decreases channels.len(),
{
    if channels.len() > 0 {
        lemma_writes_keep_channels(channels.drop_last(), info, values);
        let before = virtual_intensity_writes(channels.drop_last(), info, values, values);
        let c = channels.last();
        if info.channels@.contains_key(c) && values.contains_key(c) {
            match info.channels@[c].intensity_emulation {
                Some(list) => lemma_inhibit_list_keeps_channels(list@, info, values, c, before),
                None => {},
            }
        }
    }
}

/// Applying virtual intensities changes values only: the output has the
/// same fixtures, and each fixture the same channels, as the mixer's.
pub proof fn law_virtual_intensities_keep_channels(data: Map<u128, Map<u32, u16>>, s: SharablePatcherState)
    ensures
        with_virtual_intensities(data, s).dom() == data.dom(),
        forall|f: u128|
            #[trigger] data.contains_key(f) ==> with_virtual_intensities(data, s)[f].dom() == data[f].dom(),
{
    assert(with_virtual_intensities(data, s).dom() =~= data.dom());
    assert forall|f: u128| #[trigger] data.contains_key(f) implies with_virtual_intensities(data, s)[f].dom()
        == data[f].dom() by {
        lemma_writes_keep_channels(
            super::interface::channels_of(s, f),
            super::interface::type_of(s, f),
            data[f],
        );
    }
}

/// Taking a fixture out of the patch for its driver and putting it back
/// leaves the fixtures as they were.
pub proof fn law_hold_out_then_put_back(fixtures: Map<u128, FixtureInstance>, id: u128)
    requires
        fixtures.contains_key(id),
    ensures
        fixtures.remove(id).insert(id, fixtures[id]) == fixtures,
{
    assert(fixtures.remove(id).insert(id, fixtures[id]) =~= fixtures);
}

/// The channel declares latest-takes-precedence blending.
pub open spec fn declares_ltp(ch: Channel) -> bool {
    match ch.ch_type {
        ChannelType::Linear { priority } => priority == ChannelScheme::LTP,
        ChannelType::Segmented { priority, .. } => priority == ChannelScheme::LTP,
    }
}

/// Every channel of the background layer is blended by the priority its
/// channel declares, LTP as LTP and HTP as HTP, for linear and segmented
/// channels alike; a linear channel never snaps, and a segmented one snaps
/// as it declares.
pub proof fn law_base_blending_follows_declared_priority(s: SharablePatcherState)
    ensures
        forall|f: u128, c: u32|
            #[trigger] base_blending(s).contains_key(f) && #[trigger] base_blending(s)[f].contains_key(c) ==> {
                let ch = type_of(s, f).channels@[c];
                let b = base_blending(s)[f][c];
                &&& (b.scheme == BlendingScheme::LTP) == declares_ltp(ch)
                &&& (b.scheme == BlendingScheme::HTP) == !declares_ltp(ch)
                &&& match ch.ch_type {
                    ChannelType::Linear { .. } => b.snap == SnapData::NoSnap,
                    ChannelType::Segmented { snapping, .. } => match snapping {
                        ChannelSnap::NoSnap => b.snap == SnapData::NoSnap,
                        ChannelSnap::SnapAt(v) => b.snap == SnapData::SnapAt(v.value()),
                    },
                }
            },
{
}

/// Channel `c` of the fixture type is a virtual intensity channel with a
/// value that lists channel `i`.
pub open spec fn dims_channel(info: FixtureInfo, values: Map<u32, u16>, c: u32, i: u32) -> bool {
    &&& info.channels@.contains_key(c)
    &&& values.contains_key(c)
    &&& match info.channels@[c].intensity_emulation {
        Some(list) => list@.contains(i),
        None => false,
    }
}

proof fn lemma_inhibit_list_at(
    list: Seq<u32>,
    info: FixtureInfo,
    values: Map<u32, u16>,
    c: u32,
    acc: Map<u32, u16>,
    i: u32,
)
    requires
        acc.contains_key(i),
        info.channels@.contains_key(i),
        values.contains_key(i),
    ensures
        inhibit_list(list, info, values, c, acc).contains_key(i),
        inhibit_list(list, info, values, c, acc)[i] == if list.contains(i) {
            inhibited_value(info.channels@[c].size, info.channels@[i].size, values[i], values[c])
        } else {
            acc[i]
        },
    decreases list.len(),
{
    if list.len() > 0 {
        let rest = list.drop_last();
        lemma_inhibit_list_at(rest, info, values, c, acc, i);
        assert(list.contains(i) == (rest.contains(i) || list.last() == i)) by {
            if list.contains(i) {
                let k = choose|k: int| 0 <= k < list.len() && list[k] == i;
                if k < rest.len() {
                    assert(rest[k] == i);
                }
            }
            if rest.contains(i) {
                let k = choose|k: int| 0 <= k < rest.len() && rest[k] == i;
                assert(list[k] == i);
            }
            if list.last() == i {
                assert(list[list.len() - 1] == i);
            }
        }
    }
}

proof fn lemma_writes_zero(
    channels: Seq<u32>,
    info: FixtureInfo,
    values: Map<u32, u16>,
    acc: Map<u32, u16>,
    i: u32,
)
    requires
        acc.contains_key(i),
        info.channels@.contains_key(i),
        values.contains_key(i),
        forall|k: int| 0 <= k < channels.len() && dims_channel(info, values, #[trigger] channels[k], i) ==> values[channels[k]] == 0,
    ensures
        virtual_intensity_writes(channels, info, values, acc).contains_key(i),
        (exists|k: int| 0 <= k < channels.len() && dims_channel(info, values, #[trigger] channels[k], i))
            ==> virtual_intensity_writes(channels, info, values, acc)[i] == 0,
        !(exists|k: int| 0 <= k < channels.len() && dims_channel(info, values, #[trigger] channels[k], i))
            ==> virtual_intensity_writes(channels, info, values, acc)[i] == acc[i],
    decreases channels.len(),
{
    if channels.len() > 0 {
        let rest = channels.drop_last();
        let c = channels.last();
        assert forall|k: int| 0 <= k < rest.len() && dims_channel(info, values, #[trigger] rest[k], i) implies values[rest[k]] == 0 by {
            assert(rest[k] == channels[k]);
        }
        lemma_writes_zero(rest, info, values, acc, i);
        let before = virtual_intensity_writes(rest, info, values, acc);
        if info.channels@.contains_key(c) && values.contains_key(c) {
            match info.channels@[c].intensity_emulation {
                Some(list) => {
                    lemma_inhibit_list_at(list@, info, values, c, before, i);
                    if list@.contains(i) {
                        assert(dims_channel(info, values, channels[channels.len() - 1], i));
                        assert(values[c] == 0);
                        assert(values[i] * 0 == 0);
                    }
                },
                None => {},
            }
        }
        if exists|k: int| 0 <= k < rest.len() && dims_channel(info, values, #[trigger] rest[k], i) {
            let k = choose|k: int| 0 <= k < rest.len() && dims_channel(info, values, #[trigger] rest[k], i);
            assert(channels[k] == rest[k]);
        }
        if exists|k: int| 0 <= k < channels.len() && dims_channel(info, values, #[trigger] channels[k], i) {
            let k = choose|k: int| 0 <= k < channels.len() && dims_channel(info, values, #[trigger] channels[k], i);
            if k < rest.len() {
                assert(rest[k] == channels[k]);
            }
        }
    }
}

/// A channel that some virtual intensity channel of the fixture's
/// personality lists comes out 0 when every virtual intensity channel that
/// lists it holds 0, whatever the sizes of the channels; a channel that no
/// virtual intensity channel with a value lists keeps its value.
pub proof fn law_virtual_intensity_at_zero(data: Map<u128, Map<u32, u16>>, s: SharablePatcherState, f: u128, i: u32)
    requires
        data.contains_key(f),
        fixture_resolved(s, f),
        type_of(s, f).channels@.contains_key(i),
        data[f].contains_key(i),
    ensures
        ({
            let chans = channels_of(s, f);
            let info = type_of(s, f);
            let r = with_virtual_intensities(data, s);
            &&& r.contains_key(f) && r[f].contains_key(i)
            &&& (exists|k: int| 0 <= k < chans.len() && dims_channel(info, data[f], #[trigger] chans[k], i))
                && (forall|k: int|
                0 <= k < chans.len() && dims_channel(info, data[f], #[trigger] chans[k], i) ==> data[f][chans[k]] == 0)
                ==> r[f][i] == 0
            &&& !(exists|k: int| 0 <= k < chans.len() && dims_channel(info, data[f], #[trigger] chans[k], i))
                ==> r[f][i] == data[f][i]
        }),
{
    let chans = channels_of(s, f);
    let info = type_of(s, f);
    if forall|k: int| 0 <= k < chans.len() && dims_channel(info, data[f], #[trigger] chans[k], i) ==> data[f][chans[k]] == 0 {
        lemma_writes_zero(chans, info, data[f], data[f], i);
    } else {
        lemma_writes_none(chans, info, data[f], data[f], i);
    }
}

proof fn lemma_writes_none(
    channels: Seq<u32>,
    info: FixtureInfo,
    values: Map<u32, u16>,
    acc: Map<u32, u16>,
    i: u32,
)
    requires
        acc.contains_key(i),
        info.channels@.contains_key(i),
        values.contains_key(i),
    ensures
        virtual_intensity_writes(channels, info, values, acc).contains_key(i),
        !(exists|k: int| 0 <= k < channels.len() && dims_channel(info, values, #[trigger] channels[k], i))
            ==> virtual_intensity_writes(channels, info, values, acc)[i] == acc[i],
    decreases channels.len(),
{
    if channels.len() > 0 {
        let rest = channels.drop_last();
        let c = channels.last();
        lemma_writes_none(rest, info, values, acc, i);
        let before = virtual_intensity_writes(rest, info, values, acc);
        if info.channels@.contains_key(c) && values.contains_key(c) {
            match info.channels@[c].intensity_emulation {
                Some(list) => {
                    lemma_inhibit_list_at(list@, info, values, c, before, i);
                    if list@.contains(i) {
                        assert(dims_channel(info, values, channels[channels.len() - 1], i));
                    }
                },
                None => {},
            }
        }
        if exists|k: int| 0 <= k < rest.len() && dims_channel(info, values, #[trigger] rest[k], i) {
            let k = choose|k: int| 0 <= k < rest.len() && dims_channel(info, values, #[trigger] rest[k], i);
            assert(channels[k] == rest[k]);
        }
    }
}

} // verus!
