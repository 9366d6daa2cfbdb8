use simplydmx::plugins::live_controller::control_proxies::debounce_analog::DebounceAnalogState;
use simplydmx::plugins::live_controller::providers::boards::behringer::x_touch::compact::ControlBindings;
use simplydmx::plugins::live_controller::scalable_value::ScalableValue;
use simplydmx::plugins::mixer::state::MixerContext;
use simplydmx::plugins::mixer::{load_mixer, MixerInitializationError};
use simplydmx::plugins::output_dmx::{load_dmx, DMXInitializationError};
use simplydmx::plugins::output_dmx_enttecopendmx::interface::OpenDMXShowSave;
use simplydmx::plugins::output_dmx_enttecopendmx::{load_opendmx, OpenDMXInitializationError};
use simplydmx::plugins::patcher::state::SharablePatcherState;
use simplydmx::plugins::patcher::{load_patcher, PatcherInitializationError};
use simplydmx::utils::saved::SavedData;
use simplydmx::utils::smallmap::SmallMap;

#[test]
fn plugins_load_from_the_show_file() {
    assert_eq!(load_mixer(SavedData::Unreadable).err(), Some(MixerInitializationError::UnrecognizedData));
    let empty = load_mixer(SavedData::NothingSaved).unwrap();
    assert_eq!(empty.blind_opacity, 0);
    assert!(empty.frozen_context.is_none());
    let mut saved = MixerContext::new();
    saved.blind_opacity = 7;
    assert_eq!(load_mixer(SavedData::Saved(saved)).unwrap().blind_opacity, 7);

    assert_eq!(load_dmx(SavedData::Unreadable).err(), Some(DMXInitializationError::UnrecognizedData));
    assert_eq!(load_dmx(SavedData::NothingSaved).unwrap().universes.len(), 0);

    assert_eq!(load_patcher(SavedData::Unreadable).err(), Some(PatcherInitializationError::UnrecognizedData));
    let patch = SharablePatcherState { library: SmallMap::new(), fixture_order: vec![3], fixtures: SmallMap::new() };
    assert_eq!(load_patcher(SavedData::Saved(patch)).unwrap().sharable.fixture_order, vec![3u128]);
    assert!(load_patcher(SavedData::NothingSaved).unwrap().sharable.fixture_order.is_empty());

    assert_eq!(load_opendmx(SavedData::Unreadable).err(), Some(OpenDMXInitializationError::UnrecognizedData));
    assert_eq!(load_opendmx(SavedData::NothingSaved).unwrap().universe_id, None);
    let state = load_opendmx(SavedData::Saved(OpenDMXShowSave { universe_id: Some(4) })).unwrap();
    assert_eq!(state.universe_id, Some(4));
    assert!(!state.controller_running);
}

#[test]
fn rebinding_a_control_hands_back_the_old_link() {
    let mut b: ControlBindings<&str> = ControlBindings::new();
    assert_eq!(b.bind(1, Some("fader")), None);
    assert_eq!(b.bind(1, Some("opacity")), Some("fader"));
    assert_eq!(b.bind(2, None), None);
    assert_eq!(b.bind(1, None), Some("opacity"));
    assert_eq!(b.bindings.len(), 0);
}

#[test]
fn debounced_fader_waits_for_the_crossing() {
    let mut d = DebounceAnalogState::new();
    assert!(d.receive_physical(ScalableValue::U8(200)));
    // Set to 100 in software: the fader, at 200, must come down to 100.
    assert!(d.send_analog(ScalableValue::U8(100)));
    let passed: Vec<bool> = [180, 150, 90, 120, 250]
        .iter()
        .map(|v| d.receive_physical(ScalableValue::U8(*v)))
        .collect();
    assert_eq!(passed, vec![false, false, true, true, true]);
}
