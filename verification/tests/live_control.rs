use simplydmx::plugins::live_controller::control_proxies::analog_to_digital::AnalogToBooleanState;
use simplydmx::plugins::live_controller::control_proxies::debounce_analog::{DebounceAnalogLock, DebounceAnalogState};
use simplydmx::plugins::live_controller::control_proxies::digital_to_analog::BooleanToAnalogState;
use simplydmx::plugins::live_controller::controller_services::{
    led_brightness, rgb_led, ControllerButtonEvent, ControllerEvent, ControllerFaderColumnEvent, ControllerFaderEvent,
    ControllerKnobEvent,
};
use simplydmx::plugins::live_controller::providers::boards::behringer::x_touch::compact::{
    control_id, control_of_id, create_controller_event, create_note_event, handle_packet, reflect_to_board,
    XTouchCompactProvider, XTouchControl,
};
use simplydmx::plugins::live_controller::scalable_value::{ScalableValue, U7};
use std::cmp::Ordering;

fn u7(v: u8) -> U7 {
    U7::try_from(v).unwrap()
}

#[test]
fn scalable_value_extremes() {
    let u7_max = ScalableValue::U7(u7(127));
    let u8_max = ScalableValue::U8(255u8);
    let u16_max = ScalableValue::U16(65535u16);
    let u7_min = ScalableValue::U7(u7(0));
    let u8_min = ScalableValue::U8(0u8);
    let u16_min = ScalableValue::U16(0u16);
    assert_eq!(u7_max.as_u7().as_int(), U7::max_value().as_int());
    assert_eq!(u7_max.as_u8(), u8::MAX);
    assert_eq!(u7_max.as_u16(), u16::MAX);
    assert_eq!(u8_max.as_u7().as_int(), U7::max_value().as_int());
    assert_eq!(u8_max.as_u8(), u8::MAX);
    assert_eq!(u8_max.as_u16(), u16::MAX);
    assert_eq!(u16_max.as_u7().as_int(), U7::max_value().as_int());
    assert_eq!(u16_max.as_u8(), u8::MAX);
    assert_eq!(u16_max.as_u16(), u16::MAX);
    assert_eq!(u7_min.as_u7().as_int(), 0);
    assert_eq!(u7_min.as_u8(), u8::MIN);
    assert_eq!(u7_min.as_u16(), u16::MIN);
    assert_eq!(u8_min.as_u7().as_int(), 0);
    assert_eq!(u8_min.as_u8(), u8::MIN);
    assert_eq!(u8_min.as_u16(), u16::MIN);
    assert_eq!(u16_min.as_u7().as_int(), 0);
    assert_eq!(u16_min.as_u8(), u8::MIN);
    assert_eq!(u16_min.as_u16(), u16::MIN);
}

#[test]
fn seven_bit_widening_matches_scale_factors() {
    for n in 0u8..128 {
        let v = ScalableValue::U7(u7(n));
        assert_eq!(v.as_u8(), (n as f32 * 2.007874015748) as u8, "{}", n);
        assert_eq!(v.as_u16(), (n as f32 * 516.02362204724) as u16, "{}", n);
    }
}

#[test]
fn narrowing_scales() {
    assert_eq!(ScalableValue::U16(514 * 3).as_u7().as_int(), 3);
    assert_eq!(ScalableValue::U16(257 * 9).as_u8(), 9);
    assert_eq!(ScalableValue::U8(101).as_u7().as_int(), 50);
    assert_eq!(ScalableValue::U8(2).as_u16(), 514);
}

#[test]
fn scalable_value_comparisons() {
    assert!(ScalableValue::U8(255) == ScalableValue::U16(65535));
    assert!(ScalableValue::U7(u7(127)) == ScalableValue::U8(255));
    assert!(ScalableValue::U8(1) < ScalableValue::U16(300));
    assert!(ScalableValue::U7(u7(1)) != ScalableValue::U8(1));
    assert_eq!(ScalableValue::U8(3).cmp(&ScalableValue::U8(4)), Ordering::Less);
    assert_eq!(ScalableValue::U16(65535).cmp(&ScalableValue::U7(u7(127))), Ordering::Equal);
    let (a, b) = ScalableValue::U7(u7(127)).normalize(&ScalableValue::U8(0));
    assert!(matches!(a, ScalableValue::U8(255)));
    assert!(matches!(b, ScalableValue::U8(0)));
}

#[test]
fn debounce_locks_until_crossed() {
    let mut d = DebounceAnalogState::new();
    assert!(d.receive_physical(ScalableValue::U8(10)));
    assert!(d.send_analog(ScalableValue::U8(100)));
    assert_eq!(d.locked, DebounceAnalogLock::LockedGte);
    assert!(!d.receive_physical(ScalableValue::U8(50)));
    assert!(d.receive_physical(ScalableValue::U8(100)));
    assert_eq!(d.locked, DebounceAnalogLock::Unlocked);
    assert!(d.send_analog(ScalableValue::U8(20)));
    assert_eq!(d.locked, DebounceAnalogLock::LockedLte);
    assert!(!d.receive_physical(ScalableValue::U8(30)));
    assert!(d.receive_physical(ScalableValue::U8(5)));
    assert!(d.send_analog(ScalableValue::U16(5 * 257)));
    assert_eq!(d.locked, DebounceAnalogLock::Unlocked);
}

#[test]
fn analog_to_boolean_reports_changes() {
    let mut a = AnalogToBooleanState::new(ScalableValue::U7(u7(63)));
    assert_eq!(a.receive_analog(ScalableValue::U7(u7(10))), Some(false));
    assert_eq!(a.receive_analog(ScalableValue::U7(u7(20))), None);
    assert_eq!(a.receive_analog(ScalableValue::U7(u7(63))), Some(true));
    assert_eq!(a.receive_analog(ScalableValue::U7(u7(127))), None);
    assert!(AnalogToBooleanState::feedback_value(true) == ScalableValue::U16(65535));
    assert!(AnalogToBooleanState::feedback_value(false) == ScalableValue::U16(0));
    a.record_sent(false);
    assert_eq!(a.receive_analog(ScalableValue::U7(u7(127))), Some(true));
}

#[test]
fn boolean_to_analog_reports_changes() {
    let mut b = BooleanToAnalogState::new();
    assert!(b.receive_bool(true).unwrap() == ScalableValue::U16(65535));
    assert!(b.receive_bool(true).is_none());
    assert!(b.receive_bool(false).unwrap() == ScalableValue::U16(0));
    assert!(BooleanToAnalogState::feedback_state(ScalableValue::U8(128)));
    assert!(!BooleanToAnalogState::feedback_state(ScalableValue::U8(127)));
}

#[test]
fn led_values() {
    assert!(led_brightness(Some(true)).unwrap() == ScalableValue::U16(65535));
    assert!(led_brightness(Some(false)).unwrap() == ScalableValue::U16(0));
    assert!(led_brightness(None).is_none());
    let (r, g, b) = rgb_led(Some(ScalableValue::U8(7))).unwrap();
    assert!(r == ScalableValue::U8(7) && g == ScalableValue::U8(7) && b == ScalableValue::U8(7));
    assert!(rgb_led(None).is_none());
}

#[test]
fn x_touch_ids_round_trip() {
    let fader1 = control_id(XTouchControl::Fader(1));
    assert_eq!(fader1, 0x4663a89c_20f2_4cb8_909e_0bb07232ea02);
    assert_eq!(control_of_id(fader1), Some(XTouchControl::Fader(1)));
    assert_eq!(control_of_id(control_id(XTouchControl::Knob(16))), Some(XTouchControl::Knob(16)));
    assert_eq!(control_of_id(control_id(XTouchControl::RightButton(6))), Some(XTouchControl::RightButton(6)));
    assert_eq!(control_of_id(12345), None);
    let provider = XTouchCompactProvider;
    assert_eq!(provider.id(), 0x569ec2d6_e5b4_4fb8_b27d_c17f41728f6b);
    assert_eq!(provider.name(), "X-Touch Compact");
    assert_eq!(provider.manufacturer(), "Behringer");
    assert_eq!(provider.family(), Some("X-Touch".to_string()));
}

#[test]
fn x_touch_note_events() {
    let (id, event) = create_note_event(true, 1, u7(0)).unwrap();
    assert_eq!(id, control_id(XTouchControl::Knob(1)));
    assert!(matches!(event, ControllerEvent::Knob(ControllerKnobEvent::Push(true))));
    let (id, event) = create_note_event(false, 1, u7(16)).unwrap();
    assert_eq!(id, control_id(XTouchControl::Button(1)));
    assert!(matches!(event, ControllerEvent::Button(ControllerButtonEvent::Push { state: false, velocity: None })));
    let (id, event) = create_note_event(true, 1, u7(40)).unwrap();
    assert_eq!(id, control_id(XTouchControl::Fader(1)));
    assert!(matches!(
        event,
        ControllerEvent::FaderColumn(ControllerFaderColumnEvent::Button(ControllerButtonEvent::Push { state: true, .. }))
    ));
    let (id, _) = create_note_event(true, 1, u7(54)).unwrap();
    assert_eq!(id, control_id(XTouchControl::RightButton(6)));
    assert!(create_note_event(true, 1, u7(55)).is_none());
    assert!(create_note_event(true, 0, u7(20)).is_none());
}

#[test]
fn x_touch_controller_events() {
    let (id, event) = create_controller_event(1, u7(3), u7(100)).unwrap();
    assert_eq!(id, control_id(XTouchControl::Fader(3)));
    match event {
        ControllerEvent::FaderColumn(ControllerFaderColumnEvent::Fader(ControllerFaderEvent::Pos(v))) => {
            assert!(v == ScalableValue::U7(u7(100)))
        },
        _ => panic!("expected a fader position"),
    }
    let (id, event) = create_controller_event(1, u7(105), u7(63)).unwrap();
    assert_eq!(id, control_id(XTouchControl::Fader(5)));
    assert!(matches!(
        event,
        ControllerEvent::FaderColumn(ControllerFaderColumnEvent::Fader(ControllerFaderEvent::Touch(true)))
    ));
    let (_, event) = create_controller_event(1, u7(101), u7(62)).unwrap();
    assert!(matches!(
        event,
        ControllerEvent::FaderColumn(ControllerFaderColumnEvent::Fader(ControllerFaderEvent::Touch(false)))
    ));
    let (id, _) = create_controller_event(1, u7(25), u7(1)).unwrap();
    assert_eq!(id, control_id(XTouchControl::Knob(16)));
    assert!(create_controller_event(1, u7(26), u7(1)).is_none());
    assert!(create_controller_event(2, u7(1), u7(1)).is_none());
}

#[test]
fn x_touch_packets_parse() {
    let (id, _) = handle_packet(&[0x91, 40, 127]).unwrap();
    assert_eq!(id, control_id(XTouchControl::Fader(1)));
    let (id, event) = handle_packet(&[0x81, 16, 0]).unwrap();
    assert_eq!(id, control_id(XTouchControl::Button(1)));
    assert!(matches!(event, ControllerEvent::Button(ControllerButtonEvent::Push { state: false, .. })));
    let (id, _) = handle_packet(&[0xB1, 10, 64]).unwrap();
    assert_eq!(id, control_id(XTouchControl::Knob(1)));
    assert!(handle_packet(&[0xB1, 10]).is_none());
    assert!(handle_packet(&[]).is_none());
    assert!(handle_packet(&[0xC1, 5]).is_none());
    assert!(handle_packet(&[0x90, 40, 127]).is_none());
}

#[test]
fn x_touch_reflects_state() {
    let fader2 = control_id(XTouchControl::Fader(2));
    let packets = reflect_to_board(fader2, Some(ScalableValue::U16(65535)), Some(true));
    assert_eq!(packets, vec![vec![0xB1u8, 2, 127], vec![0x91u8, 41, 127]]);
    let knob3 = control_id(XTouchControl::Knob(3));
    assert_eq!(reflect_to_board(knob3, Some(ScalableValue::U8(100)), Some(true)), vec![vec![0xB1u8, 2, 50]]);
    let knob16 = control_id(XTouchControl::Knob(16));
    assert!(reflect_to_board(knob16, Some(ScalableValue::U8(100)), None).is_empty());
    let button = control_id(XTouchControl::Button(4));
    assert_eq!(reflect_to_board(button, None, Some(false)), vec![vec![0x81u8, 19, 127]]);
    let right = control_id(XTouchControl::RightButton(1));
    assert_eq!(reflect_to_board(right, None, Some(true)), vec![vec![0x91u8, 49, 127]]);
    assert!(reflect_to_board(1, Some(ScalableValue::U8(1)), Some(true)).is_empty());
}
