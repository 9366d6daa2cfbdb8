//! The DMX plugin's state: where each fixture sits in which universe.
use vstd::prelude::*;

use super::fixture_types::{DMXFixtureData, DMXPersonalityData};
use crate::patcher::fixture_types::{Channel, ChannelSize};
use crate::plugins::patcher::fixture_types::FixtureInfo;
use crate::plugins::patcher::state::SharablePatcherState;
use crate::utils::smallmap::{SmallMap, lemma_index_of_unique, unique_keys};

verus! {

/// The number of DMX slots a channel of `size` takes.
pub open spec fn slot_width(size: ChannelSize) -> int {
    match size {
        ChannelSize::U8 => 1,
        ChannelSize::U16 => 2,
    }
}

/// The number of DMX slots that the channels of `order` take, or `None` if
/// one of them is not defined in `channels`.
pub open spec fn span(order: Seq<u32>, channels: Map<u32, Channel>) -> Option<int>
    decreases order.len(),
{
    if order.len() == 0 {
        Some(0)
    } else {
        match span(order.drop_last(), channels) {
            Some(n) => if channels.contains_key(order.last()) {
                Some(n + slot_width(channels[order.last()].size))
            } else {
                None
            },
            None => None,
        }
    }
}

/// Every prefix of `order` whose channels are all defined takes at most
/// 65535 slots, so that counting them in 16 bits does not overflow.
pub open spec fn span_fits(order: Seq<u32>, channels: Map<u32, Channel>) -> bool {
    forall|k: int|
        0 <= k <= order.len() && (#[trigger] span(order.take(k), channels)) is Some ==> span(
            order.take(k),
            channels,
        )->0 <= 65535
}

/// A span is never negative, and never more than two slots per channel.
proof fn lemma_span_bounds(order: Seq<u32>, channels: Map<u32, Channel>)
    ensures
        span(order, channels) matches Some(n) ==> 0 <= n <= 2 * order.len(),
    decreases order.len(),
{
    if order.len() > 0 {
        lemma_span_bounds(order.drop_last(), channels);
    }
}

/// The number of DMX slots the channels of `order` take, counted without
/// overflow, or `None` if one of them is not defined.
fn slots_of(order: &Vec<u32>, channels: &SmallMap<u32, Channel>) -> (r: Option<u128>)
    ensures
        match span(order@, channels@) {
            Some(n) => r == Some(n as u128),
            None => r is None,
        },
{
    let mut size: u128 = 0;
    let mut i: usize = 0;
    while i < order.len()
        invariant
            i <= order@.len(),
            span(order@.take(i as int), channels@) == Some(size as int),
        decreases order@.len() - i,
    {
        proof {
            lemma_span_bounds(order@.take(i as int), channels@);
        }
        assert(order@.take(i + 1).drop_last() =~= order@.take(i as int));
        let channel_id = order[i];
        assert(order@.take(i + 1).last() == channel_id);
        match channels.get(&channel_id) {
            Some(channel) => {
                size = size + match channel.size {
                    ChannelSize::U8 => 1,
                    ChannelSize::U16 => 2,
                };
            },
            None => {
                proof {
                    lemma_span_none_extends(order@, channels@, i + 1);
                }
                return None;
            },
        }
        i = i + 1;
    }
    assert(order@.take(order@.len() as int) =~= order@);
    Some(size)
}

/// Once a prefix has an undefined channel, every longer prefix has one.
proof fn lemma_span_none_extends(order: Seq<u32>, channels: Map<u32, Channel>, k: int)
    requires
        0 <= k <= order.len(),
        span(order.take(k), channels) is None,
    ensures
        span(order, channels) is None,
    decreases order.len() - k,
{
    if k < order.len() {
        assert(order.take(k + 1).drop_last() =~= order.take(k));
        lemma_span_none_extends(order, channels, k + 1);
    } else {
        assert(order.take(k) =~= order);
    }
}

/// The number of DMX slots that a personality takes, given the channels of
/// its fixture type.
pub fn get_size(personality: &DMXPersonalityData, fixture_type_info: &FixtureInfo) -> (r: Result<
    u16,
    NormalizeFixtureError,
>)
    requires
        span_fits(personality.dmx_channel_order@, fixture_type_info.channels@),
    ensures
        match span(personality.dmx_channel_order@, fixture_type_info.channels@) {
            Some(n) => r == Ok::<u16, NormalizeFixtureError>(n as u16),
            None => r == Err::<u16, NormalizeFixtureError>(NormalizeFixtureError::UndefinedChannel),
        },
{
    let ghost order = personality.dmx_channel_order@;
    assert(order.take(order.len() as int) =~= order);
    assert(span(order.take(order.len() as int), fixture_type_info.channels@) == span(
        order,
        fixture_type_info.channels@,
    ));
    match slots_of(&personality.dmx_channel_order, &fixture_type_info.channels) {
        Some(size) => {
            let ghost k = order.len() as int;
            proof {
                lemma_span_bounds(order, fixture_type_info.channels@);
            }
            assert(span(order.take(k), fixture_type_info.channels@) is Some);
            assert(size <= 65535);
            Ok(size as u16)
        },
        None => Err(NormalizeFixtureError::UndefinedChannel),
    }
}

/// Whether two inclusive ranges share a value.
pub open spec fn overlaps(a0: int, a1: int, b0: int, b1: int) -> bool {
    !(a0 > b1 || a1 < b0)
}

/// Whether two inclusive ranges of slots share a slot.
pub fn check_overlap(range1: (u16, u16), range2: (u16, u16)) -> (r: bool)
    ensures
        r == overlaps(range1.0 as int, range1.1 as int, range2.0 as int, range2.1 as int),
{
    if range1.0 > range2.1 {
        false
    } else if range1.1 < range2.0 {
        false
    } else {
        true
    }
}

/// Why a fixture's placement was refused.
#[derive(Debug, Clone, Copy, PartialEq, Eq, Structural)]
pub enum NormalizeFixtureError {
    /// "Offset must be between 1 and 512"
    OffsetOutOfRange,
    /// "Cannot find fixture definition"
    FixtureDefinitionMissing,
    /// "Could not find the requested personality"
    PersonalityMissing,
    /// "Fixture definition referenced a channel that was not defined."
    UndefinedChannel,
    /// "Offset conflicts with an existing fixture definition"
    OffsetConflict,
    /// "Cannot assign fixture to universe without an offset"
    OffsetMissing,
}

/// DMX-specific information about a fixture instance: its universe and the
/// first slot it takes there.
#[derive(Debug, Clone, Copy, PartialEq, Eq, Structural)]
pub struct DMXFixtureInstance {
    pub universe: Option<u128>,
    pub offset: Option<u16>,
}

/// A DMX universe.
pub struct UniverseInstance {
    pub id: u128,
    pub name: String,
    /// The transport driver the universe is linked to
    pub controller: Option<String>,
}

/// The DMX plugin's saved data.
pub struct DMXShowSave {
    pub library: SmallMap<u128, DMXFixtureData>,
    pub fixtures: SmallMap<u128, DMXFixtureInstance>,
    pub universes: SmallMap<u128, UniverseInstance>,
}

/// The DMX plugin's state. The transport drivers are held by the runtime,
/// next to this state.
pub struct DMXState {
    /// The DMX layout of each fixture type
    pub library: SmallMap<u128, DMXFixtureData>,
    /// Where each fixture sits
    pub fixtures: SmallMap<u128, DMXFixtureInstance>,
    /// The universes
    pub universes: SmallMap<u128, UniverseInstance>,
}

/// Fixture `fid` of the plugin sits in `universe` at a range of slots that
/// shares a slot with `start..=end`. Its size is computed from the layout of
/// the fixture type `type_id` being placed, with the personality and the
/// channels of the fixture's own type in the patch.
pub open spec fn conflicts_with(
    st: DMXState,
    patcher: SharablePatcherState,
    type_id: u128,
    universe: u128,
    start: int,
    end: int,
    fid: u128,
) -> bool {
    let f = st.fixtures@[fid];
    let instance = patcher.fixtures@[fid];
    &&& f.universe == Some(universe)
    &&& f.offset is Some
    &&& patcher.fixtures@.contains_key(fid)
    &&& patcher.library@.contains_key(instance.fixture_id)
    &&& st.library@.contains_key(type_id)
    &&& st.library@[type_id].personalities@.contains_key(instance.personality)
    &&& span(
        st.library@[type_id].personalities@[instance.personality].dmx_channel_order@,
        patcher.library@[instance.fixture_id].channels@,
    ) is Some
    &&& ({
        let size = span(
            st.library@[type_id].personalities@[instance.personality].dmx_channel_order@,
            patcher.library@[instance.fixture_id].channels@,
        )->0;
        let o = f.offset->0 as int;
        overlaps(start, end, o, o + size - 1)
    })
}

/// The result of checking a fixture's placement: a fixture outside any
/// universe has no offset; one in a universe needs an offset between 1 and
/// 512, a known layout, and slots that no other fixture of that universe
/// takes.
pub open spec fn normalized(
    st: DMXState,
    patcher: SharablePatcherState,
    fixture_type_info: FixtureInfo,
    personality_id: u32,
    fixture: DMXFixtureInstance,
) -> Result<DMXFixtureInstance, NormalizeFixtureError> {
    match fixture.universe {
        None => Ok(DMXFixtureInstance { universe: None, offset: None }),
        Some(universe) => match fixture.offset {
            None => Err(NormalizeFixtureError::OffsetMissing),
            Some(offset) => if offset < 1 || offset > 512 {
                Err(NormalizeFixtureError::OffsetOutOfRange)
            } else if !st.library@.contains_key(fixture_type_info.id) {
                Err(NormalizeFixtureError::FixtureDefinitionMissing)
            } else if !st.library@[fixture_type_info.id].personalities@.contains_key(personality_id) {
                Err(NormalizeFixtureError::PersonalityMissing)
            } else {
                match span(
                    st.library@[fixture_type_info.id].personalities@[personality_id].dmx_channel_order@,
                    fixture_type_info.channels@,
                ) {
                    None => Err(NormalizeFixtureError::UndefinedChannel),
                    Some(size) => if exists|fid: u128|
                        #[trigger] st.fixtures@.contains_key(fid) && conflicts_with(
                            st,
                            patcher,
                            fixture_type_info.id,
                            universe,
                            offset as int,
                            offset + size - 1,
                            fid,
                        ) {
                        Err(NormalizeFixtureError::OffsetConflict)
                    } else {
                        Ok(fixture)
                    },
                }
            },
        },
    }
}

impl DMXState {
    /// A DMX plugin without fixture layouts, fixtures or universes.
    pub fn new() -> (r: Self)
        ensures
            r.library@ == Map::<u128, DMXFixtureData>::empty(),
            r.fixtures@ == Map::<u128, DMXFixtureInstance>::empty(),
            r.universes@ == Map::<u128, UniverseInstance>::empty(),
    {
        DMXState { library: SmallMap::new(), fixtures: SmallMap::new(), universes: SmallMap::new() }
    }

    /// The DMX plugin as it was loaded from a show file.
    pub fn from_file(file: DMXShowSave) -> (r: Self)
        ensures
            r.library == file.library,
            r.fixtures == file.fixtures,
            r.universes == file.universes,
    {
        DMXState { library: file.library, fixtures: file.fixtures, universes: file.universes }
    }

    /// Checks where a fixture is to be placed. A fixture outside any universe
    /// loses its offset; one in a universe needs an offset between 1 and 512,
    /// a known DMX layout for its type and personality, and slots that no
    /// other fixture of the universe takes.
    ///
    /// Slot ranges are compared as whole numbers.
    pub fn normalize_fixture(
        &self,
        patcher: &SharablePatcherState,
        fixture_type_info: &FixtureInfo,
        personality_id: u32,
        fixture: DMXFixtureInstance,
    ) -> (r: Result<DMXFixtureInstance, NormalizeFixtureError>)
        ensures
            r == normalized(*self, *patcher, *fixture_type_info, personality_id, fixture),
    {
        let universe = match fixture.universe {
            None => {
                return Ok(DMXFixtureInstance { universe: None, offset: None });
            },
            Some(universe) => universe,
        };
        let offset = match fixture.offset {
            None => {
                return Err(NormalizeFixtureError::OffsetMissing);
            },
            Some(offset) => offset,
        };
        if offset < 1 || offset > 512 {
            return Err(NormalizeFixtureError::OffsetOutOfRange);
        }
        let fixture_info = match self.library.get(&fixture_type_info.id) {
            Some(info) => info,
            None => {
                return Err(NormalizeFixtureError::FixtureDefinitionMissing);
            },
        };
        let personality = match fixture_info.personalities.get(&personality_id) {
            Some(p) => p,
            None => {
                return Err(NormalizeFixtureError::PersonalityMissing);
            },
        };
        let size = match slots_of(&personality.dmx_channel_order, &fixture_type_info.channels) {
            Some(size) => size,
            None => {
                return Err(NormalizeFixtureError::UndefinedChannel);
            },
        };
        let order_len = personality.dmx_channel_order.len();
        proof {
            lemma_span_bounds(personality.dmx_channel_order@, fixture_type_info.channels@);
        }
        // The range covered is offset..=offset + size - 1; it is compared
        // after adding one to both sides.
        let start: u128 = offset as u128;
        let end_plus_one: u128 = offset as u128 + size;
        let ghost end = offset + size - 1;
        proof {
            use_type_invariant(&self.fixtures);
        }
        let mut overlap = false;
        let mut i: usize = 0;
        while i < self.fixtures.len()
            invariant
                i <= self.fixtures.entries().len(),
                unique_keys(self.fixtures.entries()),
                start == offset,
                end_plus_one == end + 1,
                self.library@.contains_key(fixture_type_info.id),
                overlap == exists|a: int|
                    0 <= a < i && #[trigger] conflicts_with(
                        *self,
                        *patcher,
                        fixture_type_info.id,
                        universe,
                        offset as int,
                        end,
                        self.fixtures.entries()[a].0,
                    ),
            decreases self.fixtures.entries().len() - i,
        {
            let fixture_id = self.fixtures.key_at(i);
            let other = *self.fixtures.value_at(i);
            proof {
                lemma_index_of_unique(self.fixtures, i as int);
            }
            let mut hit = false;
            if other.universe == Some(universe) {
                match other.offset {
                    Some(other_offset) => match patcher.fixtures.get(&fixture_id) {
                        Some(patcher_instance) => match patcher.library.get(&patcher_instance.fixture_id) {
                            Some(patcher_definition) => match self.library.get(&fixture_type_info.id) {
                                Some(dmx_info) => match dmx_info.personalities.get(&patcher_instance.personality) {
                                    Some(dmx_personality) => match slots_of(
                                        &dmx_personality.dmx_channel_order,
                                        &patcher_definition.channels,
                                    ) {
                                        Some(other_size) => {
                                            let other_len = dmx_personality.dmx_channel_order.len();
                                            proof {
                                                lemma_span_bounds(
                                                    dmx_personality.dmx_channel_order@,
                                                    patcher_definition.channels@,
                                                );
                                            }
                                            assert(self.fixtures@[fixture_id] == other);
                                            assert(patcher.fixtures@[fixture_id] == *patcher_instance);
                                            let other_start: u128 = other_offset as u128;
                                            let other_end_plus_one: u128 = other_offset as u128 + other_size;
                                            hit = !(start >= other_end_plus_one || end_plus_one <= other_start);
                                            assert(conflicts_with(
                                                *self,
                                                *patcher,
                                                fixture_type_info.id,
                                                universe,
                                                offset as int,
                                                end,
                                                fixture_id,
                                            ) == hit);
                                        },
                                        None => {},
                                    },
                                    None => {},
                                },
                                None => {},
                            },
                            None => {},
                        },
                        None => {},
                    },
                    None => {},
                }
            }
            assert(hit == conflicts_with(
                *self,
                *patcher,
                fixture_type_info.id,
                universe,
                offset as int,
                end,
                fixture_id,
            ));
            overlap = overlap || hit;
            i = i + 1;
        }
        proof {
            if overlap {
                let a = choose|a: int|
                    0 <= a < self.fixtures.entries().len() && #[trigger] conflicts_with(
                        *self,
                        *patcher,
                        fixture_type_info.id,
                        universe,
                        offset as int,
                        end,
                        self.fixtures.entries()[a].0,
                    );
                lemma_index_of_unique(self.fixtures, a);
                assert(self.fixtures@.contains_key(self.fixtures.entries()[a].0));
            } else {
                assert forall|fid: u128|
                    #[trigger] self.fixtures@.contains_key(fid) implies !conflicts_with(
                    *self,
                    *patcher,
                    fixture_type_info.id,
                    universe,
                    offset as int,
                    end,
                    fid,
                ) by {
                    let a = self.fixtures.index_of(fid);
                    assert(self.fixtures.entries()[a].0 == fid);
                }
            }
        }
        if overlap {
            return Err(NormalizeFixtureError::OffsetConflict);
        }
        Ok(fixture)
    }
}

/// A fixture outside any universe is always accepted, without an offset; a
/// fixture accepted in a universe is kept as it was given, with an offset
/// between 1 and 512.
pub proof fn law_accepted_placement(
    st: DMXState,
    patcher: SharablePatcherState,
    fixture_type_info: FixtureInfo,
    personality_id: u32,
    fixture: DMXFixtureInstance,
)
    ensures
        fixture.universe is None ==> normalized(st, patcher, fixture_type_info, personality_id, fixture)
            == Ok::<DMXFixtureInstance, NormalizeFixtureError>(DMXFixtureInstance { universe: None, offset: None }),
        fixture.universe is Some && normalized(st, patcher, fixture_type_info, personality_id, fixture) is Ok
            ==> (normalized(st, patcher, fixture_type_info, personality_id, fixture) == Ok::<
            DMXFixtureInstance,
            NormalizeFixtureError,
        >(fixture) && (fixture.offset matches Some(o) && 1 <= o <= 512)),
{
}

} // verus!
