//! Show data, blending and DMX rendering for stage lighting control.
use vstd::prelude::*;

pub mod api_utilities;
pub mod utils;
pub mod patcher;
pub mod layering;
pub mod plugins;
pub mod mixer_utils;
pub mod render_laws;

use crate::layering::{scale, scale_u16, Layer, Submaster};
use crate::patcher::fixture_types::{Channel, ChannelSize, ChannelValue, FixtureProfile, Personality};
use crate::patcher::DmxFixtureInstance;
use crate::utils::id_alloc::Id;
use crate::utils::smallmap::{SmallMap, lemma_index_of_unique, unique_keys};

verus! {

/// A driver that a DMX universe is sent through.
#[derive(Debug, Clone, Copy)]
pub enum DmxDriver {
    /// Dummy output. Universe data is generated, but only used for display.
    Dummy,
}

/// A universe registered in a show.
pub struct DmxUniverseInfo {
    pub name: String,
    pub driver: DmxDriver,
}

/// The state of a show.
pub struct SimplyDmx {
    /// Library of fixture profiles usable from the patcher
    pub dmx_fixture_library: SmallMap<Id, FixtureProfile>,
    /// Fixtures registered in the show
    pub dmx_fixtures: SmallMap<Id, DmxFixtureInstance>,
    /// Universes registered in the show
    pub dmx_universes: SmallMap<Id, DmxUniverseInfo>,
    /// Submasters available for blending via layers
    pub submasters: SmallMap<Id, Submaster>,
    /// Layers used in the final render
    pub layers: SmallMap<Id, Layer>,
}

/// The inhibitions after a virtual intensity channel with value `v` has
/// claimed the channels of `list`.
pub open spec fn inhibit(inhibitions: Map<u32, ChannelValue>, list: Seq<u32>, v: ChannelValue) -> Map<
    u32,
    ChannelValue,
> {
    Map::new(
        |k: u32| inhibitions.contains_key(k) || list.contains(k),
        |k: u32|
            if list.contains(k) {
                v
            } else {
                inhibitions[k]
            },
    )
}

/// The universe after writing the channels of `channels` (in order) for the
/// fixture `fixture_id`, starting at `cursor`:
/// - a channel that the profile does not define, or that has no value, is skipped;
/// - a virtual intensity channel writes nothing and inhibits the channels it lists;
/// - an inhibited channel is scaled by its inhibiting value;
/// - an 8-bit channel writes the low byte of its value, a 16-bit channel writes
///   both bytes, most significant first;
/// - a channel that would not fit in the universe ends the fixture.
pub open spec fn render_channels(
    channels: Seq<u32>,
    profile_channels: Map<u32, Channel>,
    data: Map<(Id, u32), ChannelValue>,
    fixture_id: Id,
    cursor: int,
    inhibitions: Map<u32, ChannelValue>,
    universe: Seq<u8>,
) -> Seq<u8>
    decreases channels.len(),
{
    if channels.len() == 0 {
        universe
    } else {
        let c = channels[0];
        let rest = channels.drop_first();
        if !profile_channels.contains_key(c) || !data.contains_key((fixture_id, c)) {
            render_channels(rest, profile_channels, data, fixture_id, cursor, inhibitions, universe)
        } else {
            let info = profile_channels[c];
            let v = data[(fixture_id, c)];
            match info.intensity_emulation {
                Some(list) => render_channels(
                    rest,
                    profile_channels,
                    data,
                    fixture_id,
                    cursor,
                    inhibit(inhibitions, list@, v),
                    universe,
                ),
                None => {
                    let out = if inhibitions.contains_key(c) {
                        scale(v.value() as int, inhibitions[c].value() as int)
                    } else {
                        v.value() as int
                    };
                    match info.size {
                        ChannelSize::U8 => if cursor >= 512 {
                            universe
                        } else {
                            render_channels(
                                rest,
                                profile_channels,
                                data,
                                fixture_id,
                                cursor + 1,
                                inhibitions,
                                universe.update(cursor, (out % 256) as u8),
                            )
                        },
                        ChannelSize::U16 => if cursor >= 511 {
                            universe
                        } else {
                            render_channels(
                                rest,
                                profile_channels,
                                data,
                                fixture_id,
                                cursor + 2,
                                inhibitions,
                                universe.update(cursor, (out / 256) as u8).update(
                                    cursor + 1,
                                    (out % 256) as u8,
                                ),
                            )
                        },
                    }
                },
            }
        }
    }
}

/// The universes after rendering one fixture. A fixture whose universe, profile
/// or personality is missing is skipped.
pub open spec fn render_fixture(
    universes: Map<Id, Seq<u8>>,
    library: Map<Id, FixtureProfile>,
    data: Map<(Id, u32), ChannelValue>,
    fixture_id: Id,
    instance: DmxFixtureInstance,
) -> Map<Id, Seq<u8>> {
    if universes.contains_key(instance.universe) && library.contains_key(instance.fixture_profile)
        && library[instance.fixture_profile].personalities@.contains_key(instance.personality) {
        let profile = library[instance.fixture_profile];
        let personality = profile.personalities@[instance.personality];
        universes.insert(
            instance.universe,
            render_channels(
                personality.available_channels@,
                profile.channels@,
                data,
                fixture_id,
                instance.offset as int,
                Map::empty(),
                universes[instance.universe],
            ),
        )
    } else {
        universes
    }
}

/// The universes after rendering `fixtures` in order.
pub open spec fn render_fixtures(
    fixtures: Seq<(Id, DmxFixtureInstance)>,
    library: Map<Id, FixtureProfile>,
    data: Map<(Id, u32), ChannelValue>,
    universes: Map<Id, Seq<u8>>,
) -> Map<Id, Seq<u8>>
    decreases fixtures.len(),
{
    if fixtures.len() == 0 {
        universes
    } else {
        render_fixture(
            render_fixtures(fixtures.drop_last(), library, data, universes),
            library,
            data,
            fixtures.last().0,
            fixtures.last().1,
        )
    }
}

/// A blank frame of 512 channels.
pub open spec fn blank_frame() -> Seq<u8> {
    Seq::new(512, |i: int| 0u8)
}

/// Rendering fixtures only changes the frames of universes that exist.
pub proof fn lemma_render_fixtures_dom(
    fixtures: Seq<(Id, DmxFixtureInstance)>,
    library: Map<Id, FixtureProfile>,
    data: Map<(Id, u32), ChannelValue>,
    universes: Map<Id, Seq<u8>>,
)
    ensures
        render_fixtures(fixtures, library, data, universes).dom() == universes.dom(),
    decreases fixtures.len(),
{
    if fixtures.len() > 0 {
        lemma_render_fixtures_dom(fixtures.drop_last(), library, data, universes);
        let before = render_fixtures(fixtures.drop_last(), library, data, universes);
        let after = render_fixture(before, library, data, fixtures.last().0, fixtures.last().1);
        assert(after.dom() =~= before.dom());
    }
}

/// A sequence with one more element contains what it contained and the new
/// element.
proof fn lemma_push_contains(s: Seq<u32>, a: u32, k: u32)
    ensures
        s.push(a).contains(k) == (s.contains(k) || k == a),
{
    if s.push(a).contains(k) {
        let i = choose|i: int| 0 <= i < s.push(a).len() && s.push(a)[i] == k;
        if i < s.len() {
            assert(s[i] == k);
        }
    }
    if s.contains(k) {
        let i = choose|i: int| 0 <= i < s.len() && s[i] == k;
        assert(s.push(a)[i] == k);
    }
    if k == a {
        assert(s.push(a)[s.len() as int] == k);
    }
}

/// Renders one fixture's channels into its universe.
fn render_fixture_channels(
    profile: &FixtureProfile,
    personality: &Personality,
    fixture_data: &SmallMap<(Id, u32), ChannelValue>,
    fixture_id: Id,
    offset: u16,
    universe: &mut [u8; 512],
)
    ensures
        final(universe)@ == render_channels(
            personality.available_channels@,
            profile.channels@,
            fixture_data@,
            fixture_id,
            offset as int,
            Map::empty(),
            old(universe)@,
        ),
{
    let ghost all = personality.available_channels@;
    let ghost target = render_channels(
        all,
        profile.channels@,
        fixture_data@,
        fixture_id,
        offset as int,
        Map::empty(),
        old(universe)@,
    );
    let mut dmx_cursor: u16 = offset;
    let mut channel_inhibitions: SmallMap<u32, ChannelValue> = SmallMap::new();
    let mut j: usize = 0;
    assert(all.skip(0) =~= all);
    while j < personality.available_channels.len()
        invariant
            j <= all.len(),
            all == personality.available_channels@,
            universe@.len() == 512,
            target == render_channels(
                all.skip(j as int),
                profile.channels@,
                fixture_data@,
                fixture_id,
                dmx_cursor as int,
                channel_inhibitions@,
                universe@,
            ),
        ensures
            final(universe)@ == target,
        decreases all.len() - j,
    {
        let channel_id = personality.available_channels[j];
        assert(all.skip(j as int)[0] == channel_id);
        assert(all.skip(j as int).drop_first() =~= all.skip(j + 1));
        match profile.channels.get(&channel_id) {
            None => {},
            Some(channel_info) => {
                match fixture_data.get(&(fixture_id, channel_id)) {
                    None => {},
                    Some(channel_value_ref) => {
                        let channel_value = *channel_value_ref;
                        match &channel_info.intensity_emulation {
                            Some(inhibited_channels) => {
                                let ghost before = channel_inhibitions@;
                                let mut m: usize = 0;
                                while m < inhibited_channels.len()
                                    invariant
                                        m <= inhibited_channels@.len(),
                                        channel_inhibitions@ == inhibit(
                                            before,
                                            inhibited_channels@.take(m as int),
                                            channel_value,
                                        ),
                                    decreases inhibited_channels@.len() - m,
                                {
                                    channel_inhibitions.insert(inhibited_channels[m], channel_value);
                                    let ghost prefix = inhibited_channels@.take(m + 1);
                                    assert(prefix =~= inhibited_channels@.take(m as int).push(
                                        inhibited_channels@[m as int],
                                    ));
                                    assert forall|k: u32| #[trigger] prefix.contains(k) == (
                                    inhibited_channels@.take(m as int).contains(k) || k
                                        == inhibited_channels@[m as int]) by {
                                        lemma_push_contains(
                                            inhibited_channels@.take(m as int),
                                            inhibited_channels@[m as int],
                                            k,
                                        );
                                    }
                                    assert(channel_inhibitions@ =~= inhibit(
                                        before,
                                        prefix,
                                        channel_value,
                                    ));
                                    m = m + 1;
                                }
                                assert(inhibited_channels@.take(inhibited_channels@.len() as int)
                                    =~= inhibited_channels@);
                            },
                            None => {
                                let mut out: u16 = channel_value.as_u16();
                                match channel_inhibitions.get(&channel_id) {
                                    Some(inhibition) => {
                                        out = scale_u16(out, inhibition.as_u16());
                                    },
                                    None => {},
                                }
                                match channel_info.size {
                                    ChannelSize::U8 => {
                                        if dmx_cursor >= 512 {
                                            break ;
                                        }
                                        universe[dmx_cursor as usize] = (out % 256) as u8;
                                        dmx_cursor = dmx_cursor + 1;
                                    },
                                    ChannelSize::U16 => {
                                        if dmx_cursor >= 511 {
                                            break ;
                                        }
                                        universe[dmx_cursor as usize] = (out / 256) as u8;
                                        universe[dmx_cursor as usize + 1] = (out % 256) as u8;
                                        dmx_cursor = dmx_cursor + 2;
                                    },
                                }
                            },
                        }
                    },
                }
            },
        }
        j = j + 1;
    }
}

impl SimplyDmx {
    /// Renders the mixer's channel values into one 512-channel frame per
    /// universe. The result has one frame for each universe of the show, in
    /// the order of `dmx_universes`; each frame starts blank and the fixtures
    /// are written into it in the order of `dmx_fixtures`.
    pub fn render_dmx(&mut self, fixture_data: &SmallMap<(Id, u32), ChannelValue>) -> (r: SmallMap<
        Id,
        [u8; 512],
    >)
        ensures
            *final(self) == *old(self),
            r.entries().len() == old(self).dmx_universes.entries().len(),
            forall|i: int|
                0 <= i < r.entries().len() ==> #[trigger] r.entries()[i].0
                    == old(self).dmx_universes.entries()[i].0,
            r@.dom() == old(self).dmx_universes@.dom(),
            forall|k: Id|
                #[trigger] r@.contains_key(k) ==> r@[k]@ == render_fixtures(
                    old(self).dmx_fixtures.entries(),
                    old(self).dmx_fixture_library@,
                    fixture_data@,
                    Map::new(|u: Id| old(self).dmx_universes@.contains_key(u), |u: Id| blank_frame()),
                )[k],
    {
        proof {
            use_type_invariant(&self.dmx_universes);
        }
        let ghost blank = Map::new(|u: Id| self.dmx_universes@.contains_key(u), |u: Id| blank_frame());
        let mut universes: SmallMap<Id, [u8; 512]> = SmallMap::new();
        let mut i: usize = 0;
        while i < self.dmx_universes.len()
            invariant
                i <= self.dmx_universes.entries().len(),
                unique_keys(self.dmx_universes.entries()),
                universes.entries().len() == i,
                forall|a: int|
                    0 <= a < i ==> #[trigger] universes.entries()[a].0
                        == self.dmx_universes.entries()[a].0 && universes.entries()[a].1@
                        == blank_frame(),
            decreases self.dmx_universes.entries().len() - i,
        {
            let key = self.dmx_universes.key_at(i);
            assert(!universes@.contains_key(key)) by {
                if universes@.contains_key(key) {
                    let a = universes.index_of(key);
                    assert(self.dmx_universes.entries()[a].0 == key);
                }
            }
            let frame = [0u8; 512];
            assert(frame@ =~= blank_frame());
            universes.insert(key, frame);
            i = i + 1;
        }
        proof {
            use_type_invariant(&universes);
            assert forall|k: Id| universes@.contains_key(k) == blank.contains_key(k) by {
                if universes@.contains_key(k) {
                    let a = universes.index_of(k);
                    assert(self.dmx_universes.entries()[a].0 == k);
                }
                if self.dmx_universes@.contains_key(k) {
                    let a = self.dmx_universes.index_of(k);
                    assert(universes.entries()[a].0 == k);
                }
            }
            assert forall|k: Id| #[trigger] universes@.contains_key(k) implies universes@[k]@
                == blank[k] by {
                let a = universes.index_of(k);
                lemma_index_of_unique(universes, a);
            }
        }
        let ghost fixtures = self.dmx_fixtures.entries();
        let mut j: usize = 0;
        while j < self.dmx_fixtures.len()
            invariant
                j <= fixtures.len(),
                fixtures == self.dmx_fixtures.entries(),
                universes.entries().len() == self.dmx_universes.entries().len(),
                forall|a: int|
                    0 <= a < universes.entries().len() ==> #[trigger] universes.entries()[a].0
                        == self.dmx_universes.entries()[a].0,
                forall|k: Id|
                    #[trigger] universes@.contains_key(k) == render_fixtures(
                        fixtures.take(j as int),
                        self.dmx_fixture_library@,
                        fixture_data@,
                        blank,
                    ).contains_key(k),
                forall|k: Id|
                    #[trigger] universes@.contains_key(k) ==> universes@[k]@ == render_fixtures(
                        fixtures.take(j as int),
                        self.dmx_fixture_library@,
                        fixture_data@,
                        blank,
                    )[k],
            decreases fixtures.len() - j,
        {
            let ghost before = render_fixtures(
                fixtures.take(j as int),
                self.dmx_fixture_library@,
                fixture_data@,
                blank,
            );
            assert(fixtures.take(j + 1).drop_last() =~= fixtures.take(j as int));
            let fixture_id = self.dmx_fixtures.key_at(j);
            let instance = *self.dmx_fixtures.value_at(j);
            assert(fixtures.take(j + 1).last() == (fixture_id, instance));
            let ghost after = render_fixture(
                before,
                self.dmx_fixture_library@,
                fixture_data@,
                fixture_id,
                instance,
            );
            match universes.get(&instance.universe) {
                None => {
                    assert(after =~= before);
                },
                Some(frame_ref) => {
                    match self.dmx_fixture_library.get(&instance.fixture_profile) {
                        None => {
                            assert(after =~= before);
                        },
                        Some(profile) => {
                            match profile.personalities.get(&instance.personality) {
                                None => {
                                    assert(after =~= before);
                                },
                                Some(personality) => {
                                    let mut frame = *frame_ref;
                                    render_fixture_channels(
                                        profile,
                                        personality,
                                        fixture_data,
                                        fixture_id,
                                        instance.offset,
                                        &mut frame,
                                    );
                                    let ghost old_universes = universes;
                                    universes.insert(instance.universe, frame);
                                    proof {
                                        assert forall|a: int|
                                            0 <= a < universes.entries().len() implies #[trigger] universes.entries()[a].0
                                                == self.dmx_universes.entries()[a].0 by {
                                            assert(old_universes.entries()[a].0
                                                == self.dmx_universes.entries()[a].0);
                                        }
                                    }
                                },
                            }
                        },
                    }
                },
            }
            j = j + 1;
        }
        assert(fixtures.take(fixtures.len() as int) =~= fixtures);
        proof {
            lemma_render_fixtures_dom(fixtures, self.dmx_fixture_library@, fixture_data@, blank);
            assert(universes@.dom() =~= self.dmx_universes@.dom());
        }
        universes
    }
}

} // verus!
