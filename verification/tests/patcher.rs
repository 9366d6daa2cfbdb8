use simplydmx::mixer_utils::state::{
    BlendingData, BlendingScheme as MixScheme, FixtureMixerOutput, FullMixerOutput, SnapData as MixSnap,
};
use simplydmx::patcher::fixture_types::{
    BlendingScheme, Channel, ChannelSize, ChannelType, ChannelValue, Personality, Segment, SegmentDisplay,
    SnapData,
};
use simplydmx::plugins::patcher::driver_plugin_api::{CreateInstanceError, EditInstanceError, ImportError};
use simplydmx::plugins::patcher::fixture_types::FixtureInfo;
use simplydmx::plugins::patcher::interface::{
    get_max_value, get_max_value_segments, get_min_value_segments, CreateFixtureError, DeleteFixtureError,
    EditFixtureError, GetCreationFormError, GetEditFormError, ImportFixtureError, PatcherInterface,
};
use simplydmx::plugins::patcher::state::{PatcherContext, VisualizationInfo};
use simplydmx::plugins::patcher::PatcherInitializationError;
use simplydmx::utils::smallmap::SmallMap;

fn segment(start: u16, end: u16) -> Segment {
    Segment {
        start: ChannelValue::L16(start),
        end: ChannelValue::L16(end),
        name: "Segment".into(),
        display: SegmentDisplay::Other,
    }
}

fn linear(size: ChannelSize, default: u16, scheme: BlendingScheme, emulation: Option<Vec<u32>>) -> Channel {
    Channel {
        name: "Channel".into(),
        intensity_emulation: emulation,
        size,
        default: ChannelValue::L16(default),
        ch_type: ChannelType::Linear { priority: scheme },
    }
}

/// A fixture type with an 8-bit red (1), green (2) and virtual intensity
/// (3, dimming 1 and 2), a 16-bit dimmer (4) and a segmented gobo wheel (5).
fn rgb_type(id: u128) -> FixtureInfo {
    let mut channels = SmallMap::new();
    channels.insert(1u32, linear(ChannelSize::U8, 10, BlendingScheme::LTP, None));
    channels.insert(2u32, linear(ChannelSize::U8, 20, BlendingScheme::LTP, None));
    channels.insert(3u32, linear(ChannelSize::U8, 255, BlendingScheme::HTP, Some(vec![1, 2])));
    channels.insert(4u32, linear(ChannelSize::U16, 0, BlendingScheme::HTP, None));
    channels.insert(
        5u32,
        Channel {
            name: "Gobo".into(),
            intensity_emulation: None,
            size: ChannelSize::U8,
            default: ChannelValue::L16(0),
            ch_type: ChannelType::Segmented {
                segments: vec![segment(0, 63), segment(64, 127), segment(128, 255)],
                priority: BlendingScheme::LTP,
                snapping: SnapData::SnapAt(ChannelValue::L16(30000)),
            },
        },
    );
    let mut personalities = SmallMap::new();
    personalities.insert(0u32, Personality { name: "Full".into(), available_channels: vec![1, 2, 3, 4, 5, 99] });
    personalities.insert(1u32, Personality { name: "Basic".into(), available_channels: vec![3, 1] });
    FixtureInfo { id, name: "RGB".into(), output_driver: "dmx".into(), channels, personalities }
}

fn patcher_with_type() -> PatcherInterface {
    let mut p = PatcherInterface::new(PatcherContext::new());
    assert_eq!(p.import_fixture(rgb_type(100), Some(Ok(()))), Ok(()));
    p
}

#[test]
fn max_values() {
    assert_eq!(get_max_value(&ChannelSize::U8), 255);
    assert_eq!(get_max_value(&ChannelSize::U16), 65535);
}

#[test]
fn segment_bounds() {
    let segments = vec![segment(64, 127), segment(0, 63), segment(128, 255)];
    // The maximum is the greatest end, and the minimum the least start.
    assert_eq!(get_max_value_segments(segments.as_slice()), 255);
    assert_eq!(get_min_value_segments(segments.as_slice()), 0);
    assert_eq!(get_max_value_segments(&[]), 0);
    assert_eq!(get_min_value_segments(&[]), 0);
}

#[test]
fn import_fixture_outcomes() {
    let mut p = PatcherInterface::new(PatcherContext::new());
    assert_eq!(p.import_fixture(rgb_type(1), None), Err(ImportFixtureError::UnknownController));
    assert_eq!(
        p.import_fixture(rgb_type(1), Some(Err(ImportError::InvalidData("bad".into())))),
        Err(ImportFixtureError::ErrorFromController(ImportError::InvalidData("bad".into())))
    );
    assert_eq!(p.context.sharable.library.len(), 0);
    assert_eq!(p.import_fixture(rgb_type(1), Some(Ok(()))), Ok(()));
    assert_eq!(p.library_driver(1), Some("dmx".to_string()));
    assert_eq!(p.library_driver(2), None);
}

#[test]
fn create_edit_delete_fixture() {
    let mut p = patcher_with_type();
    assert_eq!(
        p.create_fixture(5, 999, 0, None, None, Some(Ok(()))),
        Err(CreateFixtureError::FixtureTypeMissing)
    );
    assert_eq!(p.create_fixture(5, 100, 0, None, None, None), Err(CreateFixtureError::ControllerMissing));
    assert_eq!(
        p.create_fixture(5, 100, 0, None, None, Some(Err(CreateInstanceError::Other("no".into())))),
        Err(CreateFixtureError::ErrorFromController(CreateInstanceError::Other("no".into())))
    );
    assert_eq!(p.context.sharable.fixtures.len(), 0);
    assert_eq!(p.create_fixture(5, 100, 0, Some("Left".into()), None, Some(Ok(()))), Ok(5));
    assert_eq!(p.context.sharable.fixture_order, vec![5u128]);
    assert_eq!(p.get_fixture_placement(5), Some((0, 0)));
    assert_eq!(p.fixture_driver(5), Some("dmx".to_string()));

    p.edit_fixture_placement(5, 12, 34);
    assert_eq!(p.get_fixture_placement(5), Some((12, 34)));
    p.edit_fixture_placement(6, 1, 1);
    assert_eq!(p.get_fixture_placement(6), None);

    assert_eq!(
        p.edit_fixture(5, 1, None, None, Some(Err(EditInstanceError::InvalidData("x".into())))),
        Err(EditFixtureError::ErrorFromController(EditInstanceError::InvalidData("x".into())))
    );
    assert_eq!(p.context.sharable.fixtures.get(&5).unwrap().personality, 0);
    assert_eq!(p.edit_fixture(7, 1, None, None, Some(Ok(()))), Err(EditFixtureError::FixtureMissing));
    assert_eq!(p.edit_fixture(5, 1, None, Some("note".into()), None), Err(EditFixtureError::ControllerMissing));
    assert_eq!(p.edit_fixture(5, 1, None, Some("note".into()), Some(Ok(()))), Ok(()));
    let f = p.context.sharable.fixtures.get(&5).unwrap();
    assert_eq!(f.personality, 1);
    assert_eq!(f.name, None);
    assert_eq!(f.comments, Some("note".to_string()));
    assert_eq!(f.visualization_info, VisualizationInfo { x: 12, y: 34 });

    assert_eq!(p.delete_fixture(8, Some(Ok(()))), Err(DeleteFixtureError::FixtureMissing));
    assert_eq!(p.delete_fixture(5, None), Err(DeleteFixtureError::ControllerMissing));
    assert_eq!(
        p.delete_fixture(5, Some(Err("busy".into()))),
        Err(DeleteFixtureError::ErrorFromController("busy".into()))
    );
    assert!(p.context.sharable.fixtures.get(&5).is_some());
    assert_eq!(p.delete_fixture(5, Some(Ok(()))), Ok(()));
    assert!(p.context.sharable.fixtures.get(&5).is_none());
    assert!(p.context.sharable.fixture_order.is_empty());
}

#[test]
fn driver_sees_patch_without_edited_fixture() {
    let mut p = patcher_with_type();
    assert_eq!(p.create_fixture(5, 100, 0, Some("Left".into()), None, Some(Ok(()))), Ok(5));
    assert_eq!(p.create_fixture(6, 100, 0, None, None, Some(Ok(()))), Ok(6));
    assert!(p.hold_out_fixture(9).is_none());
    let held = p.hold_out_fixture(5).unwrap();
    assert_eq!(held.name, Some("Left".to_string()));
    // What the driver is handed: the patch without fixture 5, and its type.
    assert!(p.context.sharable.fixtures.get(&5).is_none());
    assert!(p.context.sharable.fixtures.get(&6).is_some());
    assert_eq!(p.context.sharable.library.get(&held.fixture_id).unwrap().output_driver, "dmx");
    assert_eq!(p.context.sharable.fixture_order, vec![5u128, 6]);
    p.put_back_fixture(5, held);
    assert_eq!(p.edit_fixture(5, 1, None, None, Some(Ok(()))), Ok(()));
    assert_eq!(p.context.sharable.fixtures.get(&5).unwrap().personality, 1);
}

#[test]
fn missing_fixture_type_errors() {
    let mut p = patcher_with_type();
    p.create_fixture(5, 100, 0, None, None, Some(Ok(()))).unwrap();
    p.context.sharable.library.remove(&100);
    assert_eq!(p.delete_fixture(5, Some(Ok(()))), Err(DeleteFixtureError::FixtureTypeMissing));
    assert_eq!(p.edit_fixture(5, 0, None, None, Some(Ok(()))), Err(EditFixtureError::FixtureTypeMissing));
    assert_eq!(p.edit_form_driver(5), Err(GetEditFormError::FixtureDefinitionMissing));
    assert_eq!(p.edit_form_driver(6), Err(GetEditFormError::FixtureMissing));
    assert_eq!(p.creation_form_driver(100), Err(GetCreationFormError::FixtureTypeMissing));
    assert_eq!(PatcherInitializationError::UnrecognizedData, PatcherInitializationError::UnrecognizedData);
}

#[test]
fn base_layer_defaults_and_blending() {
    let mut p = patcher_with_type();
    p.create_fixture(5, 100, 0, None, None, Some(Ok(()))).unwrap();
    p.create_fixture(6, 100, 1, None, None, Some(Ok(()))).unwrap();
    p.create_fixture(7, 100, 9, None, None, Some(Ok(()))).unwrap();
    let (defaults, blending) = p.get_base_layer();
    let f5 = defaults.get(&5).unwrap();
    assert_eq!(f5.len(), 5);
    assert_eq!(f5.get(&1), Some(&10));
    assert_eq!(f5.get(&3), Some(&255));
    assert!(f5.get(&99).is_none());
    let f6 = defaults.get(&6).unwrap();
    assert_eq!(f6.len(), 2);
    assert!(defaults.get(&7).is_none());
    assert!(blending.get(&7).is_none());
    let b5 = blending.get(&5).unwrap();
    assert_eq!(
        *b5.get(&4).unwrap(),
        BlendingData { scheme: MixScheme::HTP, snap: MixSnap::NoSnap, allow_wrap: false, max_value: 65535, min_value: 0 }
    );
    assert_eq!(
        *b5.get(&5).unwrap(),
        BlendingData {
            scheme: MixScheme::LTP,
            snap: MixSnap::SnapAt(30000),
            allow_wrap: false,
            max_value: 255,
            min_value: 0,
        }
    );
    assert_eq!(b5.get(&1).unwrap().max_value, 255);
}

#[test]
fn virtual_intensities_dim_listed_channels() {
    let mut p = patcher_with_type();
    p.create_fixture(5, 100, 0, None, None, Some(Ok(()))).unwrap();
    let mut values: FixtureMixerOutput = SmallMap::new();
    values.insert(1, 200);
    values.insert(2, 100);
    values.insert(3, 128);
    values.insert(4, 65535);
    let mut data: FullMixerOutput = SmallMap::new();
    data.insert(5, values);
    let mut other: FixtureMixerOutput = SmallMap::new();
    other.insert(1, 77);
    data.insert(42, other);
    let out = PatcherInterface::apply_virtual_intensities(&data, &p.context);
    let f5 = out.get(&5).unwrap();
    assert_eq!(f5.get(&1), Some(&(200 * 128 / 255)));
    assert_eq!(f5.get(&2), Some(&(100 * 128 / 255)));
    assert_eq!(f5.get(&3), Some(&128));
    assert_eq!(f5.get(&4), Some(&65535));
    // A fixture the patch does not know is passed through.
    assert_eq!(out.get(&42).unwrap().get(&1), Some(&77));
}

#[test]
fn new_ids_are_version_4_uuids() {
    for _ in 0..16 {
        let id = PatcherInterface::new_instance_id();
        assert_eq!((id >> 76) & 0xf, 4);
        assert_eq!((id >> 62) & 0x3, 2);
    }
    let mut m = simplydmx::plugins::mixer::MixerInterface::new(simplydmx::plugins::mixer::state::MixerContext::new());
    let layer = m.create_layer("L".to_string());
    assert_eq!((layer >> 76) & 0xf, 4);
    assert_eq!((layer >> 62) & 0x3, 2);
}
