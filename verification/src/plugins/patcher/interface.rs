//! The patcher's operations: the background layer, the fixture library and
//! the fixtures in the show.
use vstd::prelude::*;

use crate::mixer_utils::state::{
    BlendingData, BlendingScheme, FixtureMixerOutput, FullMixerBlendingData, FullMixerOutput, SnapData,
    blending_view, output_view,
};
use crate::patcher::fixture_types::{
    BlendingScheme as ChannelScheme, Channel, ChannelSize, ChannelType, Personality, Segment,
    SnapData as ChannelSnap,
};
use crate::utils::smallmap::{SmallMap, lemma_index_of_unique, lemma_prefix_view, lemma_prefix_view_ends, prefix_view, unique_keys};
use crate::utils::id_list::{other_than, without_id};
use crate::utils::random_id::{is_random_id, new_random_id};
use super::driver_plugin_api::{CreateInstanceError, EditInstanceError, ImportError};
use super::fixture_types::FixtureInfo;
use super::state::{FixtureInstance, PatcherContext, SharablePatcherState, VisualizationInfo};

verus! {

/// The largest value a channel of `size` holds.
pub open spec fn max_value_of(size: ChannelSize) -> u16 {
    match size {
        ChannelSize::U8 => 255,
        ChannelSize::U16 => 65535,
    }
}

/// The largest value a channel of `channel_size` holds.
pub fn get_max_value(channel_size: &ChannelSize) -> (r: u16)
    ensures
        r == max_value_of(*channel_size),
{
    match channel_size {
        ChannelSize::U8 => 255,
        ChannelSize::U16 => 65535,
    }
}

/// The greatest end among `segments`, or `None` if there are none.
pub open spec fn greatest_end(segments: Seq<Segment>) -> Option<u16>
    decreases segments.len(),
{
    if segments.len() == 0 {
        None
    } else {
        let end = segments.last().end.value();
        match greatest_end(segments.drop_last()) {
            Some(m) => Some(
                if m < end {
                    end
                } else {
                    m
                },
            ),
            None => Some(end),
        }
    }
}

/// The smallest start among `segments`, or `None` if there are none.
pub open spec fn least_start(segments: Seq<Segment>) -> Option<u16>
    decreases segments.len(),
{
    if segments.len() == 0 {
        None
    } else {
        let start = segments.last().start.value();
        match least_start(segments.drop_last()) {
            Some(m) => Some(
                if m > start {
                    start
                } else {
                    m
                },
            ),
            None => Some(start),
        }
    }
}

/// The value held, or 0.
pub open spec fn or_zero(v: Option<u16>) -> u16 {
    match v {
        Some(x) => x,
        None => 0,
    }
}

/// The largest value a segmented channel takes: the greatest end among its
/// segments, or 0 without segments.
pub fn get_max_value_segments(segments: &[Segment]) -> (r: u16)
    ensures
        r == or_zero(greatest_end(segments@)),
{
    let mut max_value: Option<u16> = None;
    let mut i: usize = 0;
    while i < segments.len()
        invariant
            i <= segments@.len(),
            max_value == greatest_end(segments@.take(i as int)),
        decreases segments@.len() - i,
    {
        let end = segments[i].end.as_u16();
        assert(segments@.take(i + 1).drop_last() =~= segments@.take(i as int));
        match max_value {
            Some(current_max) => {
                if current_max < end {
                    max_value = Some(end);
                }
            },
            None => {
                max_value = Some(end);
            },
        }
        i = i + 1;
    }
    assert(segments@.take(segments@.len() as int) =~= segments@);
    match max_value {
        Some(v) => v,
        None => 0,
    }
}

/// The smallest value a segmented channel takes: the least start among its
/// segments, or 0 without segments.
pub fn get_min_value_segments(segments: &[Segment]) -> (r: u16)
    ensures
        r == or_zero(least_start(segments@)),
{
    let mut min_value: Option<u16> = None;
    let mut i: usize = 0;
    while i < segments.len()
        invariant
            i <= segments@.len(),
            min_value == least_start(segments@.take(i as int)),
        decreases segments@.len() - i,
    {
        let start = segments[i].start.as_u16();
        assert(segments@.take(i + 1).drop_last() =~= segments@.take(i as int));
        match min_value {
            Some(current_min) => {
                if current_min > start {
                    min_value = Some(start);
                }
            },
            None => {
                min_value = Some(start);
            },
        }
        i = i + 1;
    }
    assert(segments@.take(segments@.len() as int) =~= segments@);
    match min_value {
        Some(v) => v,
        None => 0,
    }
}

/// The mixer's blending scheme for a channel's scheme.
pub open spec fn scheme_of(p: ChannelScheme) -> BlendingScheme {
    match p {
        ChannelScheme::HTP => BlendingScheme::HTP,
        ChannelScheme::LTP => BlendingScheme::LTP,
    }
}

/// The mixer's snapping for a channel's snapping.
pub open spec fn snap_of(s: ChannelSnap) -> SnapData {
    match s {
        ChannelSnap::NoSnap => SnapData::NoSnap,
        ChannelSnap::SnapAt(v) => SnapData::SnapAt(v.value()),
    }
}

/// How the mixer blends a channel.
pub open spec fn channel_blending(ch: Channel) -> BlendingData {
    match ch.ch_type {
        ChannelType::Linear { priority } => BlendingData {
            scheme: scheme_of(priority),
            snap: SnapData::NoSnap,
            allow_wrap: false,
            max_value: max_value_of(ch.size),
            min_value: 0,
        },
        ChannelType::Segmented { segments, priority, snapping } => BlendingData {
            scheme: scheme_of(priority),
            snap: snap_of(snapping),
            allow_wrap: false,
            max_value: or_zero(greatest_end(segments@)),
            min_value: or_zero(least_start(segments@)),
        },
    }
}

/// How the mixer blends `ch`.
fn blending_for(ch: &Channel) -> (r: BlendingData)
    ensures
        r == channel_blending(*ch),
{
    match &ch.ch_type {
        ChannelType::Linear { priority } => BlendingData {
            scheme: match priority {
                ChannelScheme::HTP => BlendingScheme::HTP,
                ChannelScheme::LTP => BlendingScheme::LTP,
            },
            snap: SnapData::NoSnap,
            allow_wrap: false,
            max_value: get_max_value(&ch.size),
            min_value: 0,
        },
        ChannelType::Segmented { segments, priority, snapping } => BlendingData {
            scheme: match priority {
                ChannelScheme::HTP => BlendingScheme::HTP,
                ChannelScheme::LTP => BlendingScheme::LTP,
            },
            snap: match snapping {
                ChannelSnap::NoSnap => SnapData::NoSnap,
                ChannelSnap::SnapAt(v) => SnapData::SnapAt(v.as_u16()),
            },
            allow_wrap: false,
            max_value: get_max_value_segments(segments.as_slice()),
            min_value: get_min_value_segments(segments.as_slice()),
        },
    }
}

/// The channels of `channels` that the fixture type defines.
pub open spec fn defined_channels(info: FixtureInfo, channels: Seq<u32>) -> Set<u32> {
    Set::new(|c: u32| channels.contains(c) && info.channels@.contains_key(c))
}

/// The default value of each channel of a personality that the fixture type
/// defines.
pub open spec fn fixture_defaults(info: FixtureInfo, channels: Seq<u32>) -> Map<u32, u16> {
    Map::new(
        |c: u32| defined_channels(info, channels).contains(c),
        |c: u32| info.channels@[c].default.value(),
    )
}

/// How each channel of a personality that the fixture type defines is
/// blended.
pub open spec fn fixture_blending(info: FixtureInfo, channels: Seq<u32>) -> Map<u32, BlendingData> {
    Map::new(
        |c: u32| defined_channels(info, channels).contains(c),
        |c: u32| channel_blending(info.channels@[c]),
    )
}

/// Fixture `f` is in the show, with its type in the library and its
/// personality in its type.
pub open spec fn fixture_resolved(s: SharablePatcherState, f: u128) -> bool {
    &&& s.fixtures@.contains_key(f)
    &&& s.library@.contains_key(s.fixtures@[f].fixture_id)
    &&& s.library@[s.fixtures@[f].fixture_id].personalities@.contains_key(s.fixtures@[f].personality)
}

/// The fixture type of fixture `f`.
pub open spec fn type_of(s: SharablePatcherState, f: u128) -> FixtureInfo {
    s.library@[s.fixtures@[f].fixture_id]
}

/// The channels of the personality of fixture `f`.
pub open spec fn channels_of(s: SharablePatcherState, f: u128) -> Seq<u32> {
    type_of(s, f).personalities@[s.fixtures@[f].personality].available_channels@
}

/// The background layer: the default value of each channel of each fixture
/// whose type and personality are known.
pub open spec fn base_defaults(s: SharablePatcherState) -> Map<u128, Map<u32, u16>> {
    Map::new(|f: u128| fixture_resolved(s, f), |f: u128| fixture_defaults(type_of(s, f), channels_of(s, f)))
}

/// How each channel of each fixture of the background layer is blended.
pub open spec fn base_blending(s: SharablePatcherState) -> Map<u128, Map<u32, BlendingData>> {
    Map::new(|f: u128| fixture_resolved(s, f), |f: u128| fixture_blending(type_of(s, f), channels_of(s, f)))
}

/// The default values and blending of one personality's channels.
fn personality_base(info: &FixtureInfo, personality: &Personality) -> (r: (
    FixtureMixerOutput,
    SmallMap<u32, BlendingData>,
))
    ensures
        r.0@ == fixture_defaults(*info, personality.available_channels@),
        r.1@ == fixture_blending(*info, personality.available_channels@),
{
    let ghost all = personality.available_channels@;
    let mut defaults: FixtureMixerOutput = SmallMap::new();
    let mut blending: SmallMap<u32, BlendingData> = SmallMap::new();
    let mut j: usize = 0;
    assert(defaults@ =~= fixture_defaults(*info, all.take(0)));
    assert(blending@ =~= fixture_blending(*info, all.take(0)));
    while j < personality.available_channels.len()
        invariant
            j <= all.len(),
            all == personality.available_channels@,
            defaults@ == fixture_defaults(*info, all.take(j as int)),
            blending@ == fixture_blending(*info, all.take(j as int)),
        decreases all.len() - j,
    {
        let channel_id = personality.available_channels[j];
        let ghost prefix = all.take(j + 1);
        assert(prefix =~= all.take(j as int).push(channel_id));
        assert forall|c: u32| #[trigger] prefix.contains(c) == (all.take(j as int).contains(c) || c
            == channel_id) by {
            if prefix.contains(c) {
                let i = choose|i: int| 0 <= i < prefix.len() && prefix[i] == c;
                if i < j {
                    assert(all.take(j as int)[i] == c);
                }
            }
            if all.take(j as int).contains(c) {
                let i = choose|i: int| 0 <= i < j && all.take(j as int)[i] == c;
                assert(prefix[i] == c);
            }
            if c == channel_id {
                assert(prefix[j as int] == c);
            }
        }
        match info.channels.get(&channel_id) {
            Some(channel_info) => {
                defaults.insert(channel_id, channel_info.default.as_u16());
                blending.insert(channel_id, blending_for(channel_info));
            },
            None => {},
        }
        assert(defaults@ =~= fixture_defaults(*info, prefix));
        assert(blending@ =~= fixture_blending(*info, prefix));
        j = j + 1;
    }
    assert(all.take(all.len() as int) =~= all);
    (defaults, blending)
}

/// The value of a channel of size `inhibited_size` holding `inhibited`,
/// dimmed by a virtual intensity channel of size `size` holding `v`.
pub open spec fn inhibited_value(size: ChannelSize, inhibited_size: ChannelSize, inhibited: u16, v: u16) -> u16 {
    match size {
        ChannelSize::U8 => (inhibited * v / 255) as u16,
        ChannelSize::U16 => (inhibited * v / 65535) as u16,
    }
}

/// The values after virtual intensity channel `c` has dimmed the channels of
/// `list`, in order, reading every value from `values`.
pub open spec fn inhibit_list(
    list: Seq<u32>,
    info: FixtureInfo,
    values: Map<u32, u16>,
    c: u32,
    acc: Map<u32, u16>,
) -> Map<u32, u16>
    decreases list.len(),
{
    if list.len() == 0 {
        acc
    } else {
        let before = inhibit_list(list.drop_last(), info, values, c, acc);
        let i = list.last();
        if info.channels@.contains_key(i) && values.contains_key(i) {
            before.insert(
                i,
                inhibited_value(info.channels@[c].size, info.channels@[i].size, values[i], values[c]),
            )
        } else {
            before
        }
    }
}

/// The values after each virtual intensity channel of `channels`, in order,
/// has dimmed the channels it lists, reading every value from `values`.
pub open spec fn virtual_intensity_writes(
    channels: Seq<u32>,
    info: FixtureInfo,
    values: Map<u32, u16>,
    acc: Map<u32, u16>,
) -> Map<u32, u16>
    decreases channels.len(),
{
    if channels.len() == 0 {
        acc
    } else {
        let before = virtual_intensity_writes(channels.drop_last(), info, values, acc);
        let c = channels.last();
        if info.channels@.contains_key(c) && values.contains_key(c) {
            match info.channels@[c].intensity_emulation {
                Some(list) => inhibit_list(list@, info, values, c, before),
                None => before,
            }
        } else {
            before
        }
    }
}

/// Channel `c` of `channels` is an 8-bit virtual intensity channel that
/// dims the 8-bit channel `i`, both with a value.
pub open spec fn dims_8bit(info: FixtureInfo, channels: Seq<u32>, values: Map<u32, u16>, c: u32, i: u32) -> bool {
    &&& channels.contains(c)
    &&& info.channels@.contains_key(c)
    &&& info.channels@.contains_key(i)
    &&& values.contains_key(c)
    &&& values.contains_key(i)
    &&& info.channels@[c].size == ChannelSize::U8
    &&& info.channels@[i].size == ChannelSize::U8
    &&& match info.channels@[c].intensity_emulation {
        Some(list) => list@.contains(i),
        None => false,
    }
}

/// Dimming an 8-bit channel by an 8-bit virtual intensity channel is
/// computed in 16 bits: the product of the two values fits.
pub open spec fn intensity_products_fit(info: FixtureInfo, channels: Seq<u32>, values: Map<u32, u16>) -> bool {
    forall|c: u32, i: u32| #[trigger] dims_8bit(info, channels, values, c, i) ==> values[i] * values[c] <= 65535
}

/// The mixer output with the virtual intensity channels of each fixture
/// whose type and personality are known applied.
pub open spec fn with_virtual_intensities(data: Map<u128, Map<u32, u16>>, s: SharablePatcherState) -> Map<
    u128,
    Map<u32, u16>,
> {
    Map::new(
        |f: u128| data.contains_key(f),
        |f: u128|
            if fixture_resolved(s, f) {
                virtual_intensity_writes(channels_of(s, f), type_of(s, f), data[f], data[f])
            } else {
                data[f]
            },
    )
}

/// Every product computed while applying virtual intensities fits.
pub open spec fn virtual_intensities_fit(data: Map<u128, Map<u32, u16>>, s: SharablePatcherState) -> bool {
    forall|f: u128|
        #[trigger] data.contains_key(f) && fixture_resolved(s, f) ==> intensity_products_fit(
            type_of(s, f),
            channels_of(s, f),
            data[f],
        )
}

/// The product of two 16-bit values, computed in 32 bits.
fn wide_product(a: u16, b: u16) -> (r: u32)
    ensures
        r == a * b,
        r <= 65535 * 65535,
{
    assert(a * b <= 65535 * 65535) by (nonlinear_arith)
        requires
            a <= 65535,
            b <= 65535,
    ;
    a as u32 * b as u32
}

/// Applies the virtual intensity channels of one fixture.
fn inhibit_fixture(info: &FixtureInfo, channels: &Vec<u32>, values: &FixtureMixerOutput) -> (r: FixtureMixerOutput)
    requires
        intensity_products_fit(*info, channels@, values@),
    ensures
        r@ == virtual_intensity_writes(channels@, *info, values@, values@),
{
    let mut out = values.copied();
    let mut j: usize = 0;
    while j < channels.len()
        invariant
            j <= channels@.len(),
            intensity_products_fit(*info, channels@, values@),
            out@ == virtual_intensity_writes(channels@.take(j as int), *info, values@, values@),
        decreases channels@.len() - j,
    {
        let c = channels[j];
        assert(channels@.take(j + 1).drop_last() =~= channels@.take(j as int));
        assert(channels@.take(j + 1).last() == c);
        assert(channels@.contains(c)) by {
            assert(channels@[j as int] == c);
        }
        match info.channels.get(&c) {
            Some(channel) => match values.get(&c) {
                Some(cv) => match &channel.intensity_emulation {
                    Some(list) => {
                        let ghost acc0 = out@;
                        let mut m: usize = 0;
                        while m < list.len()
                            invariant
                                m <= list@.len(),
                                intensity_products_fit(*info, channels@, values@),
                                channels@.contains(c),
                                info.channels@.contains_key(c),
                                *channel == info.channels@[c],
                                channel.intensity_emulation == Some(*list),
                                values@.contains_key(c),
                                *cv == values@[c],
                                out@ == inhibit_list(list@.take(m as int), *info, values@, c, acc0),
                            decreases list@.len() - m,
                        {
                            let i = list[m];
                            assert(list@.take(m + 1).drop_last() =~= list@.take(m as int));
                            assert(list@.take(m + 1).last() == i);
                            match info.channels.get(&i) {
                                Some(inhibited_channel) => match values.get(&i) {
                                    Some(iv) => {
                                        let new_value: u16 = match channel.size {
                                            ChannelSize::U8 => match inhibited_channel.size {
                                                ChannelSize::U8 => {
                                                    assert(list@.contains(i)) by {
                                                        assert(list@[m as int] == i);
                                                    }
                                                    assert(dims_8bit(*info, channels@, values@, c, i));
                                                    *iv * *cv / 255u16
                                                },
                                                ChannelSize::U16 => {
                                                    let q = wide_product(*iv, *cv) / 255u32;
                                                    (#[verifier::truncate] (q as u16))
                                                },
                                            },
                                            ChannelSize::U16 => {
                                                let p = wide_product(*iv, *cv);
                                                assert(p / 65535 <= 65535) by (nonlinear_arith)
                                                    requires
                                                        p <= 65535 * 65535,
                                                ;
                                                (p / 65535u32) as u16
                                            },
                                        };
                                        out.insert(i, new_value);
                                    },
                                    None => {},
                                },
                                None => {},
                            }
                            m = m + 1;
                        }
                        assert(list@.take(list@.len() as int) =~= list@);
                    },
                    None => {},
                },
                None => {},
            },
            None => {},
        }
        j = j + 1;
    }
    assert(channels@.take(channels@.len() as int) =~= channels@);
    out
}

/// Whether every product computed while applying the virtual intensity
/// channels of one fixture fits.
fn fixture_products_fit(info: &FixtureInfo, channels: &Vec<u32>, values: &FixtureMixerOutput) -> (r: bool)
    ensures
        r == intensity_products_fit(*info, channels@, values@),
{
    let mut j: usize = 0;
    while j < channels.len()
        invariant
            j <= channels@.len(),
            forall|c: u32, i: u32|
                #[trigger] dims_8bit(*info, channels@.take(j as int), values@, c, i) ==> values@[i] * values@[c]
                    <= 65535,
        decreases channels@.len() - j,
    {
        let c = channels[j];
        let ghost prefix = channels@.take(j + 1);
        assert(prefix =~= channels@.take(j as int).push(c));
        assert forall|x: u32| #[trigger] prefix.contains(x) == (channels@.take(j as int).contains(x) || x == c) by {
            if prefix.contains(x) {
                let k = choose|k: int| 0 <= k < prefix.len() && prefix[k] == x;
                if k < j {
                    assert(channels@.take(j as int)[k] == x);
                }
            }
            if channels@.take(j as int).contains(x) {
                let k = choose|k: int| 0 <= k < j && channels@.take(j as int)[k] == x;
                assert(prefix[k] == x);
            }
            if x == c {
                assert(prefix[j as int] == x);
            }
        }
        match info.channels.get(&c) {
            Some(channel) => match values.get(&c) {
                Some(cv) => match &channel.intensity_emulation {
                    Some(list) => {
                        match channel.size {
                            ChannelSize::U8 => {
                                let mut m: usize = 0;
                                while m < list.len()
                                    invariant
                                        m <= list@.len(),
                                        j < channels@.len(),
                                        channels@[j as int] == c,
                                        info.channels@.contains_key(c),
                                        *channel == info.channels@[c],
                                        channel.intensity_emulation == Some(*list),
                                        channel.size == ChannelSize::U8,
                                        values@.contains_key(c),
                                        *cv == values@[c],
                                        forall|i: u32|
                                            #![trigger list@.take(m as int).contains(i)]
                                            list@.take(m as int).contains(i) && info.channels@.contains_key(i)
                                                && values@.contains_key(i) && info.channels@[i].size
                                                == ChannelSize::U8 ==> values@[i] * values@[c] <= 65535,
                                    decreases list@.len() - m,
                                {
                                    let i = list[m];
                                    let ghost lp = list@.take(m + 1);
                                    assert(lp =~= list@.take(m as int).push(i));
                                    assert forall|x: u32| #[trigger] lp.contains(x) == (list@.take(m as int).contains(x)
                                        || x == i) by {
                                        if lp.contains(x) {
                                            let k = choose|k: int| 0 <= k < lp.len() && lp[k] == x;
                                            if k < m {
                                                assert(list@.take(m as int)[k] == x);
                                            }
                                        }
                                        if list@.take(m as int).contains(x) {
                                            let k = choose|k: int| 0 <= k < m && list@.take(m as int)[k] == x;
                                            assert(lp[k] == x);
                                        }
                                        if x == i {
                                            assert(lp[m as int] == x);
                                        }
                                    }
                                    match info.channels.get(&i) {
                                        Some(inhibited_channel) => match values.get(&i) {
                                            Some(iv) => {
                                                if inhibited_channel.size == ChannelSize::U8 {
                                                    if wide_product(*iv, *cv) > 65535 {
                                                        assert(list@.contains(i)) by {
                                                            assert(list@[m as int] == i);
                                                        }
                                                        assert(dims_8bit(*info, channels@, values@, c, i)) by {
                                                            assert(channels@[j as int] == c);
                                                        }
                                                        return false;
                                                    }
                                                }
                                            },
                                            None => {},
                                        },
                                        None => {},
                                    }
                                    m = m + 1;
                                }
                                assert(list@.take(list@.len() as int) =~= list@);
                            },
                            ChannelSize::U16 => {},
                        }
                    },
                    None => {},
                },
                None => {},
            },
            None => {},
        }
        assert forall|x: u32, i: u32| #[trigger] dims_8bit(*info, prefix, values@, x, i) implies values@[i]
            * values@[x] <= 65535 by {
            if x != c {
                assert(dims_8bit(*info, channels@.take(j as int), values@, x, i));
            } else if channels@.take(j as int).contains(x) {
                assert(dims_8bit(*info, channels@.take(j as int), values@, x, i));
            }
        }
        j = j + 1;
    }
    assert(channels@.take(channels@.len() as int) =~= channels@);
    true
}

/// The patcher's state together with its operations. An operation that needs
/// an output driver takes what the driver answered, or `None` when the
/// driver responsible is not registered.
pub struct PatcherInterface {
    pub context: PatcherContext,
}

impl PatcherInterface {
    /// Wraps the patcher's state.
    pub fn new(patcher_ctx: PatcherContext) -> (r: Self)
        ensures
            r.context == patcher_ctx,
    {
        PatcherInterface { context: patcher_ctx }
    }

    /// The background layer for the mixer: the default value of each channel
    /// of each fixture whose type and personality are known, and how each of
    /// these channels is blended.
    pub fn get_base_layer(&self) -> (r: (FullMixerOutput, FullMixerBlendingData))
        ensures
            output_view(r.0) == base_defaults(self.context.sharable),
            blending_view(r.1) == base_blending(self.context.sharable),
    {
        let s = &self.context.sharable;
        proof {
            use_type_invariant(&s.fixtures);
            lemma_prefix_view_ends(s.fixtures);
        }
        let ghost all_defaults = base_defaults(*s);
        let ghost all_blending = base_blending(*s);
        let mut default_values: FullMixerOutput = SmallMap::new();
        let mut blending_data: FullMixerBlendingData = SmallMap::new();
        assert(output_view(default_values) =~= all_defaults.restrict(prefix_view(s.fixtures, 0).dom()));
        assert(blending_view(blending_data) =~= all_blending.restrict(prefix_view(s.fixtures, 0).dom()));
        let mut i: usize = 0;
        while i < s.fixtures.len()
            invariant
                i <= s.fixtures.entries().len(),
                s == &self.context.sharable,
                unique_keys(s.fixtures.entries()),
                all_defaults == base_defaults(*s),
                all_blending == base_blending(*s),
                output_view(default_values) == all_defaults.restrict(prefix_view(s.fixtures, i as int).dom()),
                blending_view(blending_data) == all_blending.restrict(prefix_view(s.fixtures, i as int).dom()),
            decreases s.fixtures.entries().len() - i,
        {
            let fixture_id = s.fixtures.key_at(i);
            let fixture_data = s.fixtures.value_at(i);
            proof {
                lemma_index_of_unique(s.fixtures, i as int);
                lemma_prefix_view(s.fixtures, i as int);
            }
            let ghost dom_before = prefix_view(s.fixtures, i as int).dom();
            let ghost dom_after = prefix_view(s.fixtures, i + 1).dom();
            assert(dom_after =~= dom_before.insert(fixture_id));
            match s.library.get(&fixture_data.fixture_id) {
                Some(fixture_info) => {
                    match fixture_info.personalities.get(&fixture_data.personality) {
                        Some(fixture_personality) => {
                            let (fixture_defaults, fixture_blending_data) = personality_base(
                                fixture_info,
                                fixture_personality,
                            );
                            let ghost d = fixture_defaults@;
                            let ghost b = fixture_blending_data@;
                            assert(s.fixtures@[fixture_id] == *fixture_data);
                            assert(fixture_resolved(*s, fixture_id));
                            assert(all_defaults[fixture_id] == d);
                            assert(all_blending[fixture_id] == b);
                            let ghost dv = output_view(default_values);
                            let ghost bv = blending_view(blending_data);
                            default_values.insert(fixture_id, fixture_defaults);
                            blending_data.insert(fixture_id, fixture_blending_data);
                            assert(output_view(default_values) =~= dv.insert(fixture_id, d));
                            assert(blending_view(blending_data) =~= bv.insert(fixture_id, b));
                            assert(output_view(default_values) =~= all_defaults.restrict(dom_after));
                            assert(blending_view(blending_data) =~= all_blending.restrict(dom_after));
                        },
                        None => {
                            assert(output_view(default_values) =~= all_defaults.restrict(dom_after));
                            assert(blending_view(blending_data) =~= all_blending.restrict(dom_after));
                        },
                    }
                },
                None => {
                    assert(output_view(default_values) =~= all_defaults.restrict(dom_after));
                    assert(blending_view(blending_data) =~= all_blending.restrict(dom_after));
                },
            }
            i = i + 1;
        }
        assert(output_view(default_values) =~= all_defaults);
        assert(blending_view(blending_data) =~= all_blending);
        (default_values, blending_data)
    }
    /// The mixer output with the virtual intensity channels of each fixture
    /// applied: each channel such a channel lists is dimmed by its value.
    /// Values are read from `data` as it was given; where two virtual
    /// intensity channels dim the same channel, the later one in the
    /// personality wins.
    pub fn apply_virtual_intensities(data: &FullMixerOutput, ctx: &PatcherContext) -> (r: FullMixerOutput)
        requires
            virtual_intensities_fit(output_view(*data), ctx.sharable),
        ensures
            output_view(r) == with_virtual_intensities(output_view(*data), ctx.sharable),
    {
        let s = &ctx.sharable;
        proof {
            use_type_invariant(data);
            lemma_prefix_view_ends(*data);
        }
        let ghost target = with_virtual_intensities(output_view(*data), *s);
        let mut new_data: FullMixerOutput = SmallMap::new();
        assert(output_view(new_data) =~= target.restrict(prefix_view(*data, 0).dom()));
        let mut i: usize = 0;
        while i < data.len()
            invariant
                i <= data.entries().len(),
                s == &ctx.sharable,
                unique_keys(data.entries()),
                virtual_intensities_fit(output_view(*data), *s),
                target == with_virtual_intensities(output_view(*data), *s),
                output_view(new_data) == target.restrict(prefix_view(*data, i as int).dom()),
            decreases data.entries().len() - i,
        {
            let fixture_id = data.key_at(i);
            let fixture_values = data.value_at(i);
            proof {
                lemma_index_of_unique(*data, i as int);
                lemma_prefix_view(*data, i as int);
            }
            let ghost dom_after = prefix_view(*data, i + 1).dom();
            assert(dom_after =~= prefix_view(*data, i as int).dom().insert(fixture_id));
            assert(output_view(*data)[fixture_id] == fixture_values@);
            assert(output_view(*data).contains_key(fixture_id));
            let mut resolved: Option<FixtureMixerOutput> = None;
            match s.fixtures.get(&fixture_id) {
                Some(fixture_instance) => match s.library.get(&fixture_instance.fixture_id) {
                    Some(fixture_type) => match fixture_type.personalities.get(&fixture_instance.personality) {
                        Some(fixture_personality) => {
                            assert(fixture_resolved(*s, fixture_id));
                            resolved = Some(inhibit_fixture(
                                fixture_type,
                                &fixture_personality.available_channels,
                                fixture_values,
                            ));
                        },
                        None => {},
                    },
                    None => {},
                },
                None => {},
            }
            let new_values = match resolved {
                Some(v) => v,
                None => fixture_values.copied(),
            };
            assert(new_values@ == target[fixture_id]);
            let ghost before = output_view(new_data);
            let ghost nv = new_values@;
            new_data.insert(fixture_id, new_values);
            assert(output_view(new_data) =~= before.insert(fixture_id, nv));
            assert(output_view(new_data) =~= target.restrict(dom_after));
            i = i + 1;
        }
        assert(output_view(new_data) =~= target);
        new_data
    }

    /// The mixer output with the virtual intensity channels applied, or
    /// `None` when dimming an 8-bit channel by an 8-bit virtual intensity
    /// channel would overflow 16 bits.
    pub fn checked_virtual_intensities(data: &FullMixerOutput, ctx: &PatcherContext) -> (r: Option<FullMixerOutput>)
        ensures
            r is Some == virtual_intensities_fit(output_view(*data), ctx.sharable),
            r matches Some(out) ==> output_view(out) == with_virtual_intensities(output_view(*data), ctx.sharable),
    {
        let s = &ctx.sharable;
        proof {
            use_type_invariant(data);
        }
        let mut i: usize = 0;
        while i < data.len()
            invariant
                i <= data.entries().len(),
                s == &ctx.sharable,
                unique_keys(data.entries()),
                forall|a: int|
                    0 <= a < i ==> #[trigger] fixture_resolved(*s, data.entries()[a].0) ==> intensity_products_fit(
                        type_of(*s, data.entries()[a].0),
                        channels_of(*s, data.entries()[a].0),
                        data.entries()[a].1@,
                    ),
            decreases data.entries().len() - i,
        {
            let fixture_id = data.key_at(i);
            let fixture_values = data.value_at(i);
            proof {
                lemma_index_of_unique(*data, i as int);
            }
            match s.fixtures.get(&fixture_id) {
                Some(fixture_instance) => match s.library.get(&fixture_instance.fixture_id) {
                    Some(fixture_type) => match fixture_type.personalities.get(&fixture_instance.personality) {
                        Some(fixture_personality) => {
                            if !fixture_products_fit(
                                fixture_type,
                                &fixture_personality.available_channels,
                                fixture_values,
                            ) {
                                assert(output_view(*data).contains_key(fixture_id));
                                assert(output_view(*data)[fixture_id] == fixture_values@);
                                return None;
                            }
                        },
                        None => {},
                    },
                    None => {},
                },
                None => {},
            }
            i = i + 1;
        }
        assert forall|f: u128|
            #[trigger] output_view(*data).contains_key(f) && fixture_resolved(*s, f) implies intensity_products_fit(
            type_of(*s, f),
            channels_of(*s, f),
            output_view(*data)[f],
        ) by {
            let a = data.index_of(f);
            lemma_index_of_unique(*data, a);
            assert(fixture_resolved(*s, data.entries()[a].0));
        }
        Some(Self::apply_virtual_intensities(data, ctx))
    }

    /// The output driver responsible for fixture type `fixture_type`, if the
    /// library has it.
    pub fn library_driver(&self, fixture_type: u128) -> (r: Option<String>)
        ensures
            r is Some == self.context.sharable.library@.contains_key(fixture_type),
            r matches Some(d) ==> d@ == self.context.sharable.library@[fixture_type].output_driver@,
    {
        match self.context.sharable.library.get(&fixture_type) {
            Some(info) => Some(info.output_driver.clone()),
            None => None,
        }
    }

    /// The output driver responsible for fixture `fixture_id`, if the fixture
    /// and its type are known.
    pub fn fixture_driver(&self, fixture_id: u128) -> (r: Option<String>)
        ensures
            r is Some == (self.context.sharable.fixtures@.contains_key(fixture_id)
                && self.context.sharable.library@.contains_key(
                self.context.sharable.fixtures@[fixture_id].fixture_id,
            )),
            r matches Some(d) ==> d@ == self.context.sharable.library@[self.context.sharable.fixtures@[fixture_id].fixture_id].output_driver@,
    {
        match self.context.sharable.fixtures.get(&fixture_id) {
            Some(instance) => self.library_driver(instance.fixture_id),
            None => None,
        }
    }

    /// Adds a fixture type to the library once its output driver has
    /// imported the protocol-specific details. `driver_outcome` is what the
    /// driver answered, or `None` when the driver is not registered.
    pub fn import_fixture(
        &mut self,
        fixture_info: FixtureInfo,
        driver_outcome: Option<Result<(), ImportError>>,
    ) -> (r: Result<(), ImportFixtureError>)
        ensures
            match driver_outcome {
                None => r == Err::<(), ImportFixtureError>(ImportFixtureError::UnknownController)
                    && *final(self) == *old(self),
                Some(Err(e)) => r == Err::<(), ImportFixtureError>(ImportFixtureError::ErrorFromController(e))
                    && *final(self) == *old(self),
                Some(Ok(())) => r is Ok && final(self).context.sharable.library@ == old(
                    self,
                ).context.sharable.library@.insert(fixture_info.id, fixture_info)
                    && final(self).context.sharable.fixtures == old(self).context.sharable.fixtures
                    && final(self).context.sharable.fixture_order == old(self).context.sharable.fixture_order,
            },
    {
        match driver_outcome {
            None => Err(ImportFixtureError::UnknownController),
            Some(Err(controller_error)) => Err(ImportFixtureError::ErrorFromController(controller_error)),
            Some(Ok(())) => {
                let id = fixture_info.id;
                self.context.sharable.library.insert(id, fixture_info);
                Ok(())
            },
        }
    }

    /// The output driver to ask for the creation form of a fixture type.
    pub fn creation_form_driver(&self, fixture_type: u128) -> (r: Result<String, GetCreationFormError>)
        ensures
            r is Ok == self.context.sharable.library@.contains_key(fixture_type),
            r matches Ok(d) ==> d@ == self.context.sharable.library@[fixture_type].output_driver@,
            r matches Err(e) ==> e == GetCreationFormError::FixtureTypeMissing,
    {
        match self.library_driver(fixture_type) {
            Some(d) => Ok(d),
            None => Err(GetCreationFormError::FixtureTypeMissing),
        }
    }

    /// The output driver to ask for the edit form of a fixture.
    pub fn edit_form_driver(&self, fixture_id: u128) -> (r: Result<String, GetEditFormError>)
        ensures
            !self.context.sharable.fixtures@.contains_key(fixture_id) ==> r == Err::<String, GetEditFormError>(GetEditFormError::FixtureMissing),
            self.context.sharable.fixtures@.contains_key(fixture_id) && !self.context.sharable.library@.contains_key(
                self.context.sharable.fixtures@[fixture_id].fixture_id,
            ) ==> r == Err::<String, GetEditFormError>(GetEditFormError::FixtureDefinitionMissing),
            r matches Ok(d) ==> self.context.sharable.fixtures@.contains_key(fixture_id)
                && d@ == self.context.sharable.library@[self.context.sharable.fixtures@[fixture_id].fixture_id].output_driver@,
            self.context.sharable.fixtures@.contains_key(fixture_id) && self.context.sharable.library@.contains_key(
                self.context.sharable.fixtures@[fixture_id].fixture_id,
            ) ==> r is Ok,
    {
        match self.context.sharable.fixtures.get(&fixture_id) {
            Some(instance) => match self.library_driver(instance.fixture_id) {
                Some(d) => Ok(d),
                None => Err(GetEditFormError::FixtureDefinitionMissing),
            },
            None => Err(GetEditFormError::FixtureMissing),
        }
    }

    /// A new random id for a fixture instance, to hand to the output driver
    /// before the fixture is created: a version 4 UUID, as a number.
    pub fn new_instance_id() -> (r: u128)
        ensures
            is_random_id(r),
    {
        new_random_id()
    }

    /// Adds a fixture of type `fixture_type` to the show under `instance_id`
    /// once its output driver has created the instance. The id is one the
    /// patch does not hold yet, as drawn by `new_instance_id`. The fixture is
    /// placed at the origin of the visualizer and listed last.
    pub fn create_fixture(
        &mut self,
        instance_id: u128,
        fixture_type: u128,
        personality: u32,
        name: Option<String>,
        comments: Option<String>,
        driver_outcome: Option<Result<(), CreateInstanceError>>,
    ) -> (r: Result<u128, CreateFixtureError>)
        requires
            !old(self).context.sharable.fixtures@.contains_key(instance_id),
        ensures
            !old(self).context.sharable.library@.contains_key(fixture_type) ==> r == Err::<u128, CreateFixtureError>(CreateFixtureError::FixtureTypeMissing)
                && *final(self) == *old(self),
            old(self).context.sharable.library@.contains_key(fixture_type) ==> match driver_outcome {
                None => r == Err::<u128, CreateFixtureError>(CreateFixtureError::ControllerMissing)
                    && *final(self) == *old(self),
                Some(Err(e)) => r == Err::<u128, CreateFixtureError>(CreateFixtureError::ErrorFromController(e))
                    && *final(self) == *old(self),
                Some(Ok(())) => r == Ok::<u128, CreateFixtureError>(instance_id)
                    && final(self).context.sharable.fixture_order@ == old(self).context.sharable.fixture_order@.push(instance_id)
                    && final(self).context.sharable.fixtures@ == old(self).context.sharable.fixtures@.insert(
                    instance_id,
                    FixtureInstance {
                        id: instance_id,
                        fixture_id: fixture_type,
                        personality,
                        name,
                        comments,
                        visualization_info: VisualizationInfo { x: 0, y: 0 },
                    },
                ) && final(self).context.sharable.library == old(self).context.sharable.library,
            },
    {
        if !self.context.sharable.library.contains_key(&fixture_type) {
            return Err(CreateFixtureError::FixtureTypeMissing);
        }
        match driver_outcome {
            None => Err(CreateFixtureError::ControllerMissing),
            Some(Err(controller_error)) => Err(CreateFixtureError::ErrorFromController(controller_error)),
            Some(Ok(())) => {
                let fixture = FixtureInstance {
                    id: instance_id,
                    fixture_id: fixture_type,
                    personality,
                    name,
                    comments,
                    visualization_info: VisualizationInfo::default(),
                };
                self.context.sharable.fixture_order.push(instance_id);
                self.context.sharable.fixtures.insert(instance_id, fixture);
                Ok(instance_id)
            },
        }
    }

    /// Removes fixture `fixture_id` from the show once its output driver has
    /// removed the instance. A refused request leaves the patch as it was.
    pub fn delete_fixture(&mut self, fixture_id: u128, driver_outcome: Option<Result<(), String>>) -> (r:
        Result<(), DeleteFixtureError>)
        ensures
            !old(self).context.sharable.fixtures@.contains_key(fixture_id) ==> r == Err::<(), DeleteFixtureError>(DeleteFixtureError::FixtureMissing),
            old(self).context.sharable.fixtures@.contains_key(fixture_id) && !old(self).context.sharable.library@.contains_key(
                old(self).context.sharable.fixtures@[fixture_id].fixture_id,
            ) ==> r == Err::<(), DeleteFixtureError>(DeleteFixtureError::FixtureTypeMissing),
            old(self).context.sharable.fixtures@.contains_key(fixture_id) && old(self).context.sharable.library@.contains_key(
                old(self).context.sharable.fixtures@[fixture_id].fixture_id,
            ) ==> match driver_outcome {
                None => r == Err::<(), DeleteFixtureError>(DeleteFixtureError::ControllerMissing),
                Some(Err(e)) => r == Err::<(), DeleteFixtureError>(DeleteFixtureError::ErrorFromController(e)),
                Some(Ok(())) => r is Ok,
            },
            r is Err ==> *final(self) == *old(self),
            r is Ok ==> final(self).context.sharable.fixtures@ == old(self).context.sharable.fixtures@.remove(fixture_id)
                && final(self).context.sharable.fixture_order@ == old(self).context.sharable.fixture_order@.filter(
                other_than(fixture_id),
            ) && final(self).context.sharable.library == old(self).context.sharable.library,
    {
        let fixture_type = match self.context.sharable.fixtures.get(&fixture_id) {
            Some(fixture) => fixture.fixture_id,
            None => {
                return Err(DeleteFixtureError::FixtureMissing);
            },
        };
        if !self.context.sharable.library.contains_key(&fixture_type) {
            return Err(DeleteFixtureError::FixtureTypeMissing);
        }
        match driver_outcome {
            None => Err(DeleteFixtureError::ControllerMissing),
            Some(Err(controller_err)) => Err(DeleteFixtureError::ErrorFromController(controller_err)),
            Some(Ok(())) => {
                self.context.sharable.fixtures.remove(&fixture_id);
                self.context.sharable.fixture_order = without_id(&self.context.sharable.fixture_order, fixture_id);
                Ok(())
            },
        }
    }

    /// Takes fixture `instance_id` out of the patch while its output driver
    /// is asked to edit it: the driver is handed the patch without the
    /// fixture, with the fixture's type from the library. Returns the
    /// fixture, to be put back with `put_back_fixture` before the edit is
    /// applied; nothing changes where the fixture does not exist.
    pub fn hold_out_fixture(&mut self, instance_id: u128) -> (r: Option<FixtureInstance>)
        ensures
            final(self).context.sharable.fixtures@ == old(self).context.sharable.fixtures@.remove(instance_id),
            final(self).context.sharable.library == old(self).context.sharable.library,
            final(self).context.sharable.fixture_order == old(self).context.sharable.fixture_order,
            r == if old(self).context.sharable.fixtures@.contains_key(instance_id) {
                Some(old(self).context.sharable.fixtures@[instance_id])
            } else {
                None::<FixtureInstance>
            },
    {
        self.context.sharable.fixtures.remove(&instance_id)
    }

    /// Puts a fixture taken out with `hold_out_fixture` back under its id.
    pub fn put_back_fixture(&mut self, instance_id: u128, fixture: FixtureInstance)
        ensures
            final(self).context.sharable.fixtures@ == old(self).context.sharable.fixtures@.insert(instance_id, fixture),
            final(self).context.sharable.library == old(self).context.sharable.library,
            final(self).context.sharable.fixture_order == old(self).context.sharable.fixture_order,
    {
        self.context.sharable.fixtures.insert(instance_id, fixture);
    }

    /// Replaces the personality, name and comments of fixture `instance_id`
    /// once its output driver has accepted the change. The fixture keeps its
    /// type and its place in the visualizer, and is stored again under the id
    /// it records. A refused request leaves the patch as it was.
    pub fn edit_fixture(
        &mut self,
        instance_id: u128,
        personality: u32,
        name: Option<String>,
        comments: Option<String>,
        driver_outcome: Option<Result<(), EditInstanceError>>,
    ) -> (r: Result<(), EditFixtureError>)
        ensures
            !old(self).context.sharable.fixtures@.contains_key(instance_id) ==> r == Err::<(), EditFixtureError>(EditFixtureError::FixtureMissing),
            old(self).context.sharable.fixtures@.contains_key(instance_id) && !old(self).context.sharable.library@.contains_key(
                old(self).context.sharable.fixtures@[instance_id].fixture_id,
            ) ==> r == Err::<(), EditFixtureError>(EditFixtureError::FixtureTypeMissing),
            old(self).context.sharable.fixtures@.contains_key(instance_id) && old(self).context.sharable.library@.contains_key(
                old(self).context.sharable.fixtures@[instance_id].fixture_id,
            ) ==> match driver_outcome {
                None => r == Err::<(), EditFixtureError>(EditFixtureError::ControllerMissing),
                Some(Err(e)) => r == Err::<(), EditFixtureError>(EditFixtureError::ErrorFromController(e)),
                Some(Ok(())) => r is Ok,
            },
            r is Err ==> *final(self) == *old(self),
            r is Ok ==> ({
                let previous = old(self).context.sharable.fixtures@[instance_id];
                final(self).context.sharable.fixtures@ == old(self).context.sharable.fixtures@.remove(
                    instance_id,
                ).insert(
                    previous.id,
                    FixtureInstance {
                        id: instance_id,
                        fixture_id: previous.fixture_id,
                        personality,
                        name,
                        comments,
                        visualization_info: previous.visualization_info,
                    },
                )
            }) && final(self).context.sharable.library == old(self).context.sharable.library
                && final(self).context.sharable.fixture_order == old(self).context.sharable.fixture_order,
    {
        let (stored_id, fixture_type, visualization_info) = match self.context.sharable.fixtures.get(&instance_id) {
            Some(fixture) => (fixture.id, fixture.fixture_id, fixture.visualization_info),
            None => {
                return Err(EditFixtureError::FixtureMissing);
            },
        };
        if !self.context.sharable.library.contains_key(&fixture_type) {
            return Err(EditFixtureError::FixtureTypeMissing);
        }
        match driver_outcome {
            None => Err(EditFixtureError::ControllerMissing),
            Some(Err(controller_err)) => Err(EditFixtureError::ErrorFromController(controller_err)),
            Some(Ok(())) => {
                let new_instance = FixtureInstance {
                    id: instance_id,
                    fixture_id: fixture_type,
                    personality,
                    name,
                    comments,
                    visualization_info,
                };
                self.context.sharable.fixtures.remove(&instance_id);
                self.context.sharable.fixtures.insert(stored_id, new_instance);
                Ok(())
            },
        }
    }

    /// Moves fixture `instance_id` in the visualizer, if it exists.
    pub fn edit_fixture_placement(&mut self, instance_id: u128, x: u16, y: u16)
        ensures
            final(self).context.sharable.library == old(self).context.sharable.library,
            final(self).context.sharable.fixture_order == old(self).context.sharable.fixture_order,
            old(self).context.sharable.fixtures@.contains_key(instance_id) ==> ({
                let f = old(self).context.sharable.fixtures@[instance_id];
                final(self).context.sharable.fixtures@ == old(self).context.sharable.fixtures@.insert(
                    instance_id,
                    FixtureInstance {
                        id: f.id,
                        fixture_id: f.fixture_id,
                        personality: f.personality,
                        name: f.name,
                        comments: f.comments,
                        visualization_info: VisualizationInfo { x, y },
                    },
                )
            }),
            !old(self).context.sharable.fixtures@.contains_key(instance_id) ==> *final(self) == *old(self),
    {
        let moved = match self.context.sharable.fixtures.get(&instance_id) {
            Some(fixture) => Some(FixtureInstance {
                id: fixture.id,
                fixture_id: fixture.fixture_id,
                personality: fixture.personality,
                name: copy_text(&fixture.name),
                comments: copy_text(&fixture.comments),
                visualization_info: VisualizationInfo { x, y },
            }),
            None => None,
        };
        match moved {
            Some(fixture) => {
                self.context.sharable.fixtures.insert(instance_id, fixture);
            },
            None => {},
        }
    }

    /// Where fixture `instance_id` is drawn in the visualizer, if it exists.
    pub fn get_fixture_placement(&self, instance_id: u128) -> (r: Option<(u16, u16)>)
        ensures
            r is Some == self.context.sharable.fixtures@.contains_key(instance_id),
            r matches Some(p) ==> p == (
                self.context.sharable.fixtures@[instance_id].visualization_info.x,
                self.context.sharable.fixtures@[instance_id].visualization_info.y,
            ),
    {
        match self.context.sharable.fixtures.get(&instance_id) {
            Some(fixture) => Some((fixture.visualization_info.x, fixture.visualization_info.y)),
            None => None,
        }
    }
}

/// A copy of an optional text.
fn copy_text(t: &Option<String>) -> (r: Option<String>)
    ensures
        r == *t,
{
    match t {
        Some(s) => Some(s.clone()),
        None => None,
    }
}

/// An error that could occur when importing a fixture definition.
#[derive(Debug, Clone, PartialEq, Eq)]
pub enum ImportFixtureError {
    /// The output driver named by the fixture definition is not registered
    UnknownController,
    /// The output driver refused the protocol-specific details
    ErrorFromController(ImportError),
}

/// An error that could occur when creating a fixture.
#[derive(Debug, Clone, PartialEq, Eq)]
pub enum CreateFixtureError {
    /// The requested fixture type is not in the library
    FixtureTypeMissing,
    /// The output driver responsible for the fixture type is not registered
    ControllerMissing,
    /// The output driver refused to create the instance
    ErrorFromController(CreateInstanceError),
}

/// An error that could occur while retrieving a fixture creation form.
#[derive(Debug, Clone, PartialEq, Eq)]
pub enum GetCreationFormError {
    /// The requested fixture type is not in the library
    FixtureTypeMissing,
    /// The output driver reported an error
    Other(String),
}

/// An error that could occur while retrieving a fixture edit form.
#[derive(Debug, Clone, PartialEq, Eq)]
pub enum GetEditFormError {
    /// The requested fixture is not in the show
    FixtureMissing,
    /// The fixture's type is not in the library
    FixtureDefinitionMissing,
    /// The output driver responsible for the fixture is not registered
    ControllerMissing,
    /// The output driver reported an error
    ControllerError(String),
}

/// An error that could occur when editing a fixture.
#[derive(Debug, Clone, PartialEq, Eq)]
pub enum EditFixtureError {
    /// The fixture is not in the show
    FixtureMissing,
    /// The fixture's type is not in the library
    FixtureTypeMissing,
    /// The output driver responsible for the fixture is not registered
    ControllerMissing,
    /// The output driver refused the change
    ErrorFromController(EditInstanceError),
}

/// An error that could occur when removing a fixture.
#[derive(Debug, Clone, PartialEq, Eq)]
pub enum DeleteFixtureError {
    /// The fixture is not in the show
    FixtureMissing,
    /// The fixture's type is not in the library
    FixtureTypeMissing,
    /// The output driver responsible for the fixture is not registered
    ControllerMissing,
    /// The output driver refused to remove the instance
    ErrorFromController(String),
}

} // verus!
