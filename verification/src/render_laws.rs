//! Where rendering puts each channel of a fixture in its universe.
use vstd::prelude::*;

use crate::patcher::fixture_types::{Channel, ChannelSize, ChannelValue};
use crate::{render_channels, render_fixture};
use crate::patcher::{DmxFixtureInstance};
use crate::patcher::fixture_types::FixtureProfile;
use crate::utils::id_alloc::Id;

verus! {

/// The number of DMX slots a channel of `size` takes.
pub open spec fn slots_of(size: ChannelSize) -> int {
    match size {
        ChannelSize::U8 => 1,
        ChannelSize::U16 => 2,
    }
}

/// The number of slots the first `k` channels of `channels` take.
pub open spec fn slots_before(channels: Seq<u32>, profile: Map<u32, Channel>, k: int) -> int
    decreases channels.len(),
{
    if k <= 0 || channels.len() == 0 {
        0
    } else {
        slots_of(profile[channels[0]].size) + slots_before(channels.drop_first(), profile, k - 1)
    }
}

/// Every channel of `channels` is defined by the profile, has a value for
/// fixture `f`, and is an ordinary channel (not a virtual intensity).
pub open spec fn plain_channels(
    channels: Seq<u32>,
    profile: Map<u32, Channel>,
    data: Map<(Id, u32), ChannelValue>,
    f: Id,
) -> bool {
    forall|k: int|
        0 <= k < channels.len() ==> {
            &&& profile.contains_key(#[trigger] channels[k])
            &&& data.contains_key((f, channels[k]))
            &&& profile[channels[k]].intensity_emulation is None
        }
}

proof fn lemma_slots_nonneg(channels: Seq<u32>, profile: Map<u32, Channel>, k: int)
    ensures
        0 <= slots_before(channels, profile, k),
        k <= channels.len() ==> slots_before(channels, profile, k) <= slots_before(channels, profile, channels.len() as int),
    decreases channels.len(),
{
    if k > 0 && channels.len() > 0 {
        lemma_slots_nonneg(channels.drop_first(), profile, k - 1);
    }
    if channels.len() > 0 {
        lemma_slots_nonneg(channels.drop_first(), profile, channels.len() - 1);
    }
}

/// The channels of a fixture are laid out one after another from the
/// fixture's first slot, each taking as many slots as its width: channel `k`
/// starts after the slots of the channels before it; an 8-bit channel writes
/// the low byte of its value, a 16-bit channel its high byte then its low
/// byte. Where they all fit in the universe, nothing outside the fixture's
/// slots changes.
pub proof fn law_channels_laid_out_by_width(
    channels: Seq<u32>,
    profile: Map<u32, Channel>,
    data: Map<(Id, u32), ChannelValue>,
    f: Id,
    cursor: int,
    universe: Seq<u8>,
)
    requires
        plain_channels(channels, profile, data, f),
        0 <= cursor,
        cursor + slots_before(channels, profile, channels.len() as int) <= universe.len(),
        universe.len() == 512,
    ensures
        ({
            let r = render_channels(channels, profile, data, f, cursor, Map::empty(), universe);
            &&& r.len() == universe.len()
            &&& forall|k: int|
                0 <= k < channels.len() ==> {
                    let at = cursor + slots_before(channels, profile, k);
                    let v = data[(f, #[trigger] channels[k])].value() as int;
                    match profile[channels[k]].size {
                        ChannelSize::U8 => r[at] as int == v % 256,
                        ChannelSize::U16 => r[at] as int == v / 256 && r[at + 1] as int == v % 256,
                    }
                }
            &&& forall|j: int|
                0 <= j < universe.len() && (j < cursor || j >= cursor + slots_before(
                    channels,
                    profile,
                    channels.len() as int,
                )) ==> #[trigger] r[j] == universe[j]
        }),
    decreases channels.len(),
{
    if channels.len() > 0 {
        let c = channels[0];
        let rest = channels.drop_first();
        let info = profile[c];
        let v = data[(f, c)];
        let w = slots_of(info.size);
        assert(profile.contains_key(channels[0]));
        assert(plain_channels(rest, profile, data, f)) by {
            assert forall|k: int| 0 <= k < rest.len() implies {
                &&& profile.contains_key(#[trigger] rest[k])
                &&& data.contains_key((f, rest[k]))
                &&& profile[rest[k]].intensity_emulation is None
            } by {
                assert(rest[k] == channels[k + 1]);
            }
        }
        lemma_slots_nonneg(rest, profile, rest.len() as int);
        assert(slots_before(channels, profile, channels.len() as int) == w + slots_before(
            rest,
            profile,
            rest.len() as int,
        ));
        let out = v.value() as int;
        let u1 = match info.size {
            ChannelSize::U8 => universe.update(cursor, (out % 256) as u8),
            ChannelSize::U16 => universe.update(cursor, (out / 256) as u8).update(cursor + 1, (out % 256) as u8),
        };
        assert(out / 256 < 256);
        law_channels_laid_out_by_width(rest, profile, data, f, cursor + w, u1);
        let r = render_channels(channels, profile, data, f, cursor, Map::empty(), universe);
        assert(r == render_channels(rest, profile, data, f, cursor + w, Map::empty(), u1));
        assert forall|k: int| 0 <= k < channels.len() implies {
            let at = cursor + slots_before(channels, profile, k);
            let v = data[(f, #[trigger] channels[k])].value() as int;
            match profile[channels[k]].size {
                ChannelSize::U8 => r[at] as int == v % 256,
                ChannelSize::U16 => r[at] as int == v / 256 && r[at + 1] as int == v % 256,
            }
        } by {
            if k > 0 {
                assert(channels[k] == rest[k - 1]);
                assert(slots_before(channels, profile, k) == w + slots_before(rest, profile, k - 1));
            } else {
                assert(slots_before(channels, profile, 0) == 0);
            }
        }
    }
}

/// Rendering one fixture whose personality's channels are all ordinary and
/// valued writes each channel at the fixture's offset plus the slots of the
/// channels before it, as `law_channels_laid_out_by_width` states, and
/// leaves every other universe as it was.
pub proof fn law_fixture_laid_out_by_width(
    universes: Map<Id, Seq<u8>>,
    library: Map<Id, FixtureProfile>,
    data: Map<(Id, u32), ChannelValue>,
    f: Id,
    instance: DmxFixtureInstance,
)
    requires
        universes.contains_key(instance.universe),
        universes[instance.universe].len() == 512,
        library.contains_key(instance.fixture_profile),
        library[instance.fixture_profile].personalities@.contains_key(instance.personality),
        ({
            let profile = library[instance.fixture_profile];
            let channels = profile.personalities@[instance.personality].available_channels@;
            &&& plain_channels(channels, profile.channels@, data, f)
            &&& instance.offset + slots_before(channels, profile.channels@, channels.len() as int) <= 512
        }),
    ensures
        ({
            let profile = library[instance.fixture_profile];
            let channels = profile.personalities@[instance.personality].available_channels@;
            let r = render_fixture(universes, library, data, f, instance);
            &&& r.dom() == universes.dom()
            &&& forall|u: Id| #[trigger] r.contains_key(u) && u != instance.universe ==> r[u] == universes[u]
            &&& forall|k: int|
                0 <= k < channels.len() ==> {
                    let at = instance.offset + slots_before(channels, profile.channels@, k);
                    let v = data[(f, #[trigger] channels[k])].value() as int;
                    match profile.channels@[channels[k]].size {
                        ChannelSize::U8 => r[instance.universe][at] as int == v % 256,
                        ChannelSize::U16 => r[instance.universe][at] as int == v / 256
                            && r[instance.universe][at + 1] as int == v % 256,
                    }
                }
        }),
{
    let profile = library[instance.fixture_profile];
    let channels = profile.personalities@[instance.personality].available_channels@;
    law_channels_laid_out_by_width(
        channels,
        profile.channels@,
        data,
        f,
        instance.offset as int,
        universes[instance.universe],
    );
    let r = render_fixture(universes, library, data, f, instance);
    assert(r.dom() =~= universes.dom());
}

} // verus!
