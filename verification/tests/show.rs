use simplydmx::api_utilities::events::should_forward;
use simplydmx::api_utilities::JSONCallServiceError;
use simplydmx::layering::{blend_layers, scale_u16, Layer, Submaster, UserDefinedValue};
use simplydmx::patcher::fixture_types::{
    BlendingScheme, Channel, ChannelSize, ChannelType, ChannelValue, FixtureProfile, Personality,
};
use simplydmx::patcher::DmxFixtureInstance;
use simplydmx::plugins::midi_controllers::controller_types::{route_midi, MidiCreationError, MidiRoute};
use simplydmx::plugins::midi_controllers::controllers::behringer::x_touch_compact::{
    create_x_touch, XTouchBinding, XTouchCompact,
};
use simplydmx::plugins::live_controller::providers::boards::behringer::x_touch::compact::{control_id, XTouchControl};
use simplydmx::plugins::midi_router::backends::coremidi_backend::pack_midi_words;
use simplydmx::plugins::midi_router::{
    InputMeta, LinkMidiError, LogicalInput, LogicalOutput, MidiIndex, MidiMomento, MidiRouterInterface,
    OutputMeta, SendOutputError,
};
use simplydmx::utils::id_list::{contains_id, copy_ids, without_id};
use simplydmx::utils::smallmap::SmallMap;
use simplydmx::{DmxDriver, DmxUniverseInfo, SimplyDmx};

fn channel(size: ChannelSize, emulation: Option<Vec<u32>>) -> Channel {
    Channel {
        name: "C".into(),
        intensity_emulation: emulation,
        size,
        default: ChannelValue::L16(0),
        ch_type: ChannelType::Linear { priority: BlendingScheme::HTP },
    }
}

fn show() -> SimplyDmx {
    let mut channels = SmallMap::new();
    channels.insert(1u32, channel(ChannelSize::U8, None));
    channels.insert(2u32, channel(ChannelSize::U16, None));
    channels.insert(3u32, channel(ChannelSize::U8, Some(vec![1])));
    let mut personalities = SmallMap::new();
    personalities.insert(0u32, Personality { name: "P".into(), available_channels: vec![3, 1, 2] });
    let profile = FixtureProfile {
        id: 1,
        name: "Par".into(),
        short_name: None,
        manufacturer: None,
        family: None,
        manual: None,
        notes: None,
        channels,
        personalities,
        control_groups: vec![],
    };
    let mut library = SmallMap::new();
    library.insert(1u32, profile);
    let mut fixtures = SmallMap::new();
    fixtures.insert(10u32, DmxFixtureInstance { fixture_profile: 1, personality: 0, universe: 100, offset: 0 });
    fixtures.insert(11u32, DmxFixtureInstance { fixture_profile: 1, personality: 0, universe: 100, offset: 510 });
    let mut universes = SmallMap::new();
    universes.insert(100u32, DmxUniverseInfo { name: "U".into(), driver: DmxDriver::Dummy });
    universes.insert(200u32, DmxUniverseInfo { name: "Empty".into(), driver: DmxDriver::Dummy });
    SimplyDmx {
        dmx_fixture_library: library,
        dmx_fixtures: fixtures,
        dmx_universes: universes,
        submasters: SmallMap::new(),
        layers: SmallMap::new(),
    }
}

#[test]
fn render_dmx_writes_fixtures() {
    let mut s = show();
    let mut data = SmallMap::new();
    data.insert((10u32, 1u32), ChannelValue::L16(0x1234));
    data.insert((10u32, 2u32), ChannelValue::L16(0xABCD));
    data.insert((10u32, 3u32), ChannelValue::L16(32768));
    data.insert((11u32, 1u32), ChannelValue::L16(7));
    data.insert((11u32, 2u32), ChannelValue::L16(0xFFFF));
    let frames = s.render_dmx(&data);
    assert_eq!(frames.len(), 2);
    let u = frames.get(&100).unwrap();
    // Channel 1 is dimmed by the virtual intensity channel 3 to half, then
    // written as its low byte; channel 2 follows in two bytes.
    let dimmed = scale_u16(0x1234, 32768);
    assert_eq!(u[0], (dimmed % 256) as u8);
    assert_eq!(u[1], 0xAB);
    assert_eq!(u[2], 0xCD);
    // The second fixture's 16-bit channel would not fit past slot 511.
    assert_eq!(u[510], 7);
    assert_eq!(u[511], 0);
    assert!(frames.get(&200).unwrap().iter().all(|b| *b == 0));
}

#[test]
fn blend_layers_keeps_base() {
    let mut base = SmallMap::new();
    base.insert((1u32, 1u32), ChannelValue::L16(5));
    base.insert((1u32, 2u32), ChannelValue::L16(6));
    let mut values = SmallMap::new();
    values.insert((9u32, 9u32), UserDefinedValue::Passthrough(2));
    let mut submasters = SmallMap::new();
    submasters.insert(1u32, Submaster::UserDefined(values));
    let layers = vec![Layer { submaster: 1, opacity: 65535 }, Layer { submaster: 7, opacity: 1 }];
    let out = blend_layers(&base, &submasters, layers.as_slice());
    assert_eq!(out.get(&(1, 1)), Some(&ChannelValue::L16(5)));
    assert_eq!(out.get(&(1, 2)), Some(&ChannelValue::L16(6)));
    assert_eq!(out.len(), 2);
}

#[test]
fn x_touch_layout_table() {
    let layout = create_x_touch(17);
    assert_eq!(layout.len(), 55);
    let first = &layout[0];
    assert_eq!(first.name, "Fader 1");
    assert_eq!(layout[8].name, "Fader 9");
    assert_eq!(layout[24].name, "Knob 16");
    assert_eq!(layout[25].name, "Button 1");
    assert_eq!(layout[48].name, "Button 24");
    assert_eq!(layout[52].name, "Right button 4");
    assert_eq!(first.id, control_id(XTouchControl::Fader(1)));
    assert_eq!(first.channel, 1);
    assert_eq!(first.binding, XTouchBinding::FaderColumn { fader_cc: 1, touch_cc: 101, touch_threshold: 63, flash_note: 40 });
    assert_eq!(layout[2].binding, XTouchBinding::FaderColumn { fader_cc: 2, touch_cc: 103, touch_threshold: 63, flash_note: 42 });
    assert_eq!(layout[9].control, XTouchControl::Knob(1));
    assert_eq!(layout[9].binding, XTouchBinding::Knob { knob_cc: 10, push_note: 0 });
    assert_eq!(layout[24].binding, XTouchBinding::Knob { knob_cc: 25, push_note: 15 });
    assert_eq!(layout[25].binding, XTouchBinding::Button { note: 16 });
    assert_eq!(layout[48].binding, XTouchBinding::Button { note: 39 });
    assert_eq!(layout[49].control, XTouchControl::RightButton(1));
    assert_eq!(layout[54].binding, XTouchBinding::Button { note: 54 });
    let meta = XTouchCompact.meta();
    assert_eq!(meta.name, "X-Touch Compact");
    assert_eq!(meta.family, Some("X-Touch".to_string()));
    assert_eq!(XTouchCompact.id(), 0x569ec2d6_e5b4_4fb8_b27d_c17f41728f6b);
}

#[test]
fn midi_messages_route_to_controls() {
    assert_eq!(route_midi(&[0xB3, 7, 99]), Some(MidiRoute::Analog { channel: 3, controller: 7, value: 99 }));
    assert_eq!(
        route_midi(&[0x90, 60, 100]),
        Some(MidiRoute::Button { channel: 0, key: 60, pressed: true, velocity: 100 })
    );
    assert_eq!(
        route_midi(&[0x8F, 1, 0]),
        Some(MidiRoute::Button { channel: 15, key: 1, pressed: false, velocity: 0 })
    );
    assert_eq!(route_midi(&[0xE0, 0, 64]), None);
    assert_eq!(route_midi(&[0xF8]), None);
    assert_eq!(route_midi(&[0x40]), None);
    assert_ne!(MidiCreationError::InvalidChannel, MidiCreationError::InvalidId);
}

#[test]
fn midi_words_are_packed_big_endian() {
    assert_eq!(pack_midi_words(&[0x90, 0x40, 0x7F]), vec![0x0090407Fu32]);
    assert_eq!(pack_midi_words(&[1, 2, 3, 4, 5]), vec![0x01020304u32, 0x05]);
    assert_eq!(pack_midi_words(&[]), Vec::<u32>::new());
}

#[test]
fn event_forwarding() {
    assert!(should_forward(true, true));
    assert!(should_forward(false, false));
    assert!(!should_forward(false, true));
    assert!(!should_forward(true, false));
    assert_ne!(JSONCallServiceError::ServiceNotFound, JSONCallServiceError::ArgDeserializationFailed);
}

#[test]
fn id_lists() {
    let ids = vec![3u128, 1, 3, 2];
    assert_eq!(copy_ids(&ids), ids);
    assert!(contains_id(&ids, 2));
    assert!(!contains_id(&ids, 4));
    assert_eq!(without_id(&ids, 3), vec![1u128, 2]);
}

#[test]
fn small_map_keeps_insertion_order() {
    let mut m: SmallMap<u32, u16> = SmallMap::new();
    assert_eq!(m.insert(5, 1), None);
    assert_eq!(m.insert(2, 2), None);
    assert_eq!(m.insert(5, 3), Some(1));
    assert_eq!(m.keys(), vec![5u32, 2]);
    assert_eq!(m.get(&5), Some(&3));
    assert_eq!(m.remove(&5), Some(3));
    assert_eq!(m.keys(), vec![2u32]);
    assert!(!m.contains_key(&5));
    let c = m.copied();
    assert_eq!(c.len(), 1);
}

#[test]
fn midi_router_links() {
    let mut router = MidiRouterInterface::new();
    let out = router.create_output(OutputMeta { name: "Out".into() });
    assert_eq!(router.outputs.get(&out).unwrap().1, LogicalOutput::Unlinked);
    assert_eq!(router.send_output(out, Err("ignored".into())), Ok(()));
    assert_eq!(router.send_output(out + 1, Ok(())), Err(SendOutputError::NotRegistered));
    assert_eq!(router.link_output(out, MidiIndex::CoreMidi(4), Ok(())), (Ok(()), None));
    assert_eq!(router.outputs.get(&out).unwrap().1, LogicalOutput::Linked(MidiIndex::CoreMidi(4)));
    assert_eq!(router.send_output(out, Err("gone".into())), Err(SendOutputError::Unknown("gone".into())));
    // Linking to nothing keeps the output as an unlinked placeholder.
    assert_eq!(router.link_output(out, MidiIndex::Unlinked, Ok(())), (Ok(()), Some(MidiIndex::CoreMidi(4))));
    assert_eq!(router.outputs.get(&out).unwrap().1, LogicalOutput::Unlinked);
    // A failed connection leaves it registered and unlinked.
    assert_eq!(
        router.link_output(out, MidiIndex::CoreMidi(5), Err(LinkMidiError::DeviceNotFound)),
        (Err(LinkMidiError::DeviceNotFound), None)
    );
    assert_eq!(router.outputs.get(&out).unwrap().1, LogicalOutput::Unlinked);
    assert_eq!(
        router.link_output(out + 1, MidiIndex::Unlinked, Ok(())),
        (Err(LinkMidiError::NotRegistered), None)
    );

    let input = router.create_input_with_momento(InputMeta { name: "In".into() }, MidiMomento::CoreMidi(2), false);
    assert_eq!(router.inputs.get(&input).unwrap().1, LogicalInput::Unlinked);
    assert_eq!(
        router.link_input(input, MidiIndex::CoreMidi(2), Err(LinkMidiError::DeviceNotFound)),
        (Err(LinkMidiError::DeviceNotFound), None)
    );
    assert_eq!(router.inputs.get(&input).unwrap().1, LogicalInput::Unlinked);
    assert_eq!(router.link_input(input, MidiIndex::CoreMidi(2), Ok(())), (Ok(()), None));
    assert_eq!(router.remove_input(input), Some(MidiIndex::CoreMidi(2)));
    assert!(router.inputs.get(&input).is_none());
}
