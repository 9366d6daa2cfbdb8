use simplydmx::patcher::fixture_types::{BlendingScheme, Channel, ChannelSize, ChannelType, ChannelValue, Personality};
use simplydmx::plugins::output_dmx::driver_types::RegisterUniverseError;
use simplydmx::plugins::output_dmx::fixture_types::{DMXFixtureData, DMXPersonalityData};
use simplydmx::plugins::output_dmx::interface::DMXInterface;
use simplydmx::plugins::output_dmx::services::{
    CreateUniverse, DeleteUniverse, LinkUniverse, ListDrivers, ListUniverses, UnlinkUniverse,
};
use simplydmx::plugins::output_dmx::state::{
    check_overlap, get_size, DMXFixtureInstance, DMXShowSave, DMXState, NormalizeFixtureError, UniverseInstance,
};
use simplydmx::plugins::output_dmx::{OptionalUniverseTypeSpecifier, UniverseTypeSpecifier};
use simplydmx::plugins::output_dmx_e131::dmxsource_controller::{source_action, streams_to_terminate, SourceAction};
use simplydmx::plugins::output_dmx_e131::interface::{E131UniverseError, FrameCache};
use simplydmx::plugins::output_dmx_e131::state::{E131State, E131Universe};
use simplydmx::plugins::output_dmx_enttecopendmx::interface::{OpenDMXAction, OpenDMXShowSave, OpenDMXState};
use simplydmx::plugins::patcher::fixture_types::FixtureInfo;
use simplydmx::plugins::patcher::state::{FixtureInstance, SharablePatcherState, VisualizationInfo};
use simplydmx::utils::smallmap::SmallMap;

fn channel(size: ChannelSize) -> Channel {
    Channel {
        name: "C".into(),
        intensity_emulation: None,
        size,
        default: ChannelValue::L16(0),
        ch_type: ChannelType::Linear { priority: BlendingScheme::LTP },
    }
}

/// A fixture type with an 8-bit channel 1 and a 16-bit channel 2.
fn fixture_type(id: u128) -> FixtureInfo {
    let mut channels = SmallMap::new();
    channels.insert(1u32, channel(ChannelSize::U8));
    channels.insert(2u32, channel(ChannelSize::U16));
    let mut personalities = SmallMap::new();
    personalities.insert(0u32, Personality { name: "P".into(), available_channels: vec![1, 2] });
    FixtureInfo { id, name: "T".into(), output_driver: "dmx".into(), channels, personalities }
}

/// The DMX layout of the type: personality 0 takes channels 1 and 2 (3
/// slots), personality 1 names an undefined channel.
fn dmx_data() -> DMXFixtureData {
    let mut personalities = SmallMap::new();
    personalities.insert(0u32, DMXPersonalityData { dmx_channel_order: vec![1, 2] });
    personalities.insert(1u32, DMXPersonalityData { dmx_channel_order: vec![1, 7] });
    DMXFixtureData { personalities }
}

fn dmx_state() -> DMXState {
    let mut st = DMXState::new();
    st.library.insert(100, dmx_data());
    st
}

fn patch_with(fixtures: &[(u128, u32)]) -> SharablePatcherState {
    let mut library = SmallMap::new();
    library.insert(100u128, fixture_type(100));
    let mut map = SmallMap::new();
    for (id, personality) in fixtures {
        map.insert(
            *id,
            FixtureInstance {
                id: *id,
                fixture_id: 100,
                personality: *personality,
                name: None,
                comments: None,
                visualization_info: VisualizationInfo { x: 0, y: 0 },
            },
        );
    }
    SharablePatcherState { library, fixture_order: fixtures.iter().map(|f| f.0).collect(), fixtures: map }
}

fn placed(universe: u128, offset: u16) -> DMXFixtureInstance {
    DMXFixtureInstance { universe: Some(universe), offset: Some(offset) }
}

#[test]
fn size_of_personalities() {
    let t = fixture_type(100);
    let d = dmx_data();
    assert_eq!(get_size(d.personalities.get(&0).unwrap(), &t), Ok(3));
    assert_eq!(get_size(d.personalities.get(&1).unwrap(), &t), Err(NormalizeFixtureError::UndefinedChannel));
    assert_eq!(get_size(&DMXPersonalityData { dmx_channel_order: vec![] }, &t), Ok(0));
}

#[test]
fn overlap_of_ranges() {
    assert!(check_overlap((1, 3), (3, 5)));
    assert!(check_overlap((4, 4), (1, 10)));
    assert!(!check_overlap((1, 3), (4, 5)));
    assert!(!check_overlap((6, 9), (4, 5)));
}

#[test]
fn normalize_fixture_cases() {
    let st = dmx_state();
    let patch = patch_with(&[]);
    let t = fixture_type(100);
    let unassigned = DMXFixtureInstance { universe: None, offset: Some(40) };
    assert_eq!(
        st.normalize_fixture(&patch, &t, 0, unassigned),
        Ok(DMXFixtureInstance { universe: None, offset: None })
    );
    assert_eq!(
        st.normalize_fixture(&patch, &t, 0, DMXFixtureInstance { universe: Some(1), offset: None }),
        Err(NormalizeFixtureError::OffsetMissing)
    );
    assert_eq!(st.normalize_fixture(&patch, &t, 0, placed(1, 0)), Err(NormalizeFixtureError::OffsetOutOfRange));
    assert_eq!(st.normalize_fixture(&patch, &t, 0, placed(1, 513)), Err(NormalizeFixtureError::OffsetOutOfRange));
    assert_eq!(
        st.normalize_fixture(&patch, &fixture_type(101), 0, placed(1, 1)),
        Err(NormalizeFixtureError::FixtureDefinitionMissing)
    );
    assert_eq!(st.normalize_fixture(&patch, &t, 5, placed(1, 1)), Err(NormalizeFixtureError::PersonalityMissing));
    assert_eq!(st.normalize_fixture(&patch, &t, 1, placed(1, 1)), Err(NormalizeFixtureError::UndefinedChannel));
    assert_eq!(st.normalize_fixture(&patch, &t, 0, placed(1, 512)), Ok(placed(1, 512)));
}

#[test]
fn normalize_fixture_detects_conflicts() {
    let mut st = dmx_state();
    st.fixtures.insert(7, placed(1, 10));
    st.fixtures.insert(8, placed(2, 1));
    let patch = patch_with(&[(7, 0), (8, 0)]);
    let t = fixture_type(100);
    // Fixture 7 takes slots 10 to 12 of universe 1.
    assert_eq!(st.normalize_fixture(&patch, &t, 0, placed(1, 8)), Err(NormalizeFixtureError::OffsetConflict));
    assert_eq!(st.normalize_fixture(&patch, &t, 0, placed(1, 12)), Err(NormalizeFixtureError::OffsetConflict));
    assert_eq!(st.normalize_fixture(&patch, &t, 0, placed(1, 7)), Ok(placed(1, 7)));
    assert_eq!(st.normalize_fixture(&patch, &t, 0, placed(1, 13)), Ok(placed(1, 13)));
    // Another universe does not conflict.
    assert_eq!(st.normalize_fixture(&patch, &t, 0, placed(3, 10)), Ok(placed(3, 10)));
    // A fixture the patch does not know does not conflict.
    let unknown = patch_with(&[(8, 0)]);
    assert_eq!(st.normalize_fixture(&unknown, &t, 0, placed(1, 10)), Ok(placed(1, 10)));
}

#[test]
fn universes_listed_for_choices() {
    let mut st = DMXState::new();
    st.universes.insert(5, UniverseInstance { id: 5, name: "Stage".into(), controller: None });
    st.universes.insert(2, UniverseInstance { id: 2, name: "House".into(), controller: Some("e131".into()) });
    let interface = DMXInterface::new(st);
    assert_eq!(interface.list_universes(), vec![(5u128, "Stage".to_string()), (2u128, "House".to_string())]);
    let required = UniverseTypeSpecifier(interface);
    assert_eq!(required.get_options().len(), 2);
    let optional = OptionalUniverseTypeSpecifier(required.0);
    let options = optional.get_options();
    assert_eq!(options[0], (None, "Unassigned".to_string()));
    assert_eq!(options[2], (Some(2u128), "House".to_string()));
}

#[test]
fn dmx_state_from_file_and_services() {
    let mut fixtures = SmallMap::new();
    fixtures.insert(3u128, placed(1, 4));
    let file = DMXShowSave { library: SmallMap::new(), fixtures, universes: SmallMap::new() };
    let st = DMXState::from_file(file);
    assert_eq!(st.fixtures.get(&3), Some(&placed(1, 4)));
    let s = CreateUniverse::new(DMXInterface::new(st));
    let s = DeleteUniverse::new(s.0);
    let s = LinkUniverse::new(s.0);
    let s = UnlinkUniverse::new(s.0);
    let s = ListUniverses::new(s.0);
    let s = ListDrivers::new(s.0);
    assert_eq!(s.0.state.fixtures.len(), 1);
}

fn frame(v: u8) -> [u8; 512] {
    [v; 512]
}

#[test]
fn e131_universe_mapping() {
    let mut st = E131State::new();
    let mut cache: FrameCache = None;
    assert_eq!(st.create_universe(&mut cache, 1, E131Universe { external_universe: 10 }), Ok(()));
    assert_eq!(cache.as_ref().map(|c| c.len()), Some(0));
    assert_eq!(
        st.create_universe(&mut cache, 2, E131Universe { external_universe: 10 }),
        Err(E131UniverseError::ExternalUniverseTaken)
    );
    assert_eq!(st.create_universe(&mut cache, 2, E131Universe { external_universe: 11 }), Ok(()));

    let mut frames = SmallMap::new();
    frames.insert(1u128, frame(1));
    frames.insert(2u128, frame(2));
    frames.insert(3u128, frame(3));
    st.send_frames(&mut cache, &frames);
    let c = cache.as_ref().unwrap();
    assert_eq!(c.len(), 2);
    assert_eq!(c.get(&10).unwrap()[0], 1);
    assert_eq!(c.get(&11).unwrap()[0], 2);

    st.destroy_universe(&mut cache, 1);
    assert!(cache.as_ref().unwrap().get(&10).is_none());
    assert!(cache.as_ref().unwrap().get(&11).is_some());
    st.destroy_universe(&mut cache, 2);
    assert!(cache.is_none());

    let mut unknown = SmallMap::new();
    unknown.insert(9u128, frame(9));
    st.send_frames(&mut cache, &unknown);
    assert!(cache.is_none());
}

#[test]
fn e131_register_universe_errors() {
    let mut st = E131State::new();
    let mut cache: FrameCache = None;
    assert_eq!(
        st.register_universe(&mut cache, 1, Err("not a number".into())),
        Err(RegisterUniverseError::InvalidData("not a number".into()))
    );
    assert_eq!(st.register_universe(&mut cache, 1, Ok(E131Universe { external_universe: 5 })), Ok(()));
    assert_eq!(
        st.register_universe(&mut cache, 2, Ok(E131Universe { external_universe: 5 })),
        Err(RegisterUniverseError::Other("This external universe ID is taken".into()))
    );
}

#[test]
fn e131_sender_decisions() {
    let mut full = SmallMap::new();
    full.insert(1u16, frame(0));
    let empty: SmallMap<u16, [u8; 512]> = SmallMap::new();
    assert_eq!(source_action(&Some(full), false), SourceAction::Open);
    assert_eq!(source_action(&Some(empty), true), SourceAction::Close);
    assert_eq!(source_action(&None, true), SourceAction::Keep);
    assert_eq!(source_action(&None, false), SourceAction::Keep);
    assert_eq!(streams_to_terminate(&vec![1, 2, 3], &vec![2, 4]), vec![1u16, 3]);
    assert_eq!(streams_to_terminate(&vec![], &vec![2]), Vec::<u16>::new());
}

#[test]
fn opendmx_single_universe() {
    let mut st = OpenDMXState::new();
    assert_eq!(st.register_universe(7), Ok(()));
    assert_eq!(st.register_universe(7), Ok(()));
    assert_eq!(
        st.register_universe(8),
        Err(RegisterUniverseError::Other("OpenDMX driver is already in use".into()))
    );
    let mut frames = SmallMap::new();
    frames.insert(3u128, frame(3));
    assert_eq!(st.send_dmx(&frames), OpenDMXAction::Idle);
    frames.insert(7u128, frame(7));
    assert_eq!(st.send_dmx(&frames), OpenDMXAction::StartController(frame(7)));
    assert_eq!(st.send_dmx(&frames), OpenDMXAction::SendFrame(frame(7)));
    assert!(!st.delete_universe(8));
    assert!(st.delete_universe(7));
    assert_eq!(st, OpenDMXState::default());
    let loaded = OpenDMXState::from_file(OpenDMXShowSave { universe_id: Some(4) });
    assert_eq!(loaded.save(), OpenDMXShowSave { universe_id: Some(4) });
    assert!(!loaded.controller_running);
}
