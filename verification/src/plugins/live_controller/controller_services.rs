//! Services that can be linked to control surfaces, and the events that
//! controls emit.
use vstd::prelude::*;

use crate::plugins::live_controller::scalable_value::ScalableValue;

verus! {

/// An error that occurs while linking a control to a service.
#[derive(Debug, Clone)]
pub enum ControllerLinkError {
    BadFormData,
    BadFormDataWithDetails(String),
    Other(String),
}

/// An error that occurs while restoring a saved link.
#[derive(Debug, Clone)]
pub enum ControllerRestoreError {
    BadSaveData,
    BadSaveDataWithDetails(String),
    Other(String),
}

/// What a control can do. This can affect the heuristics of the action it
/// drives.
#[derive(Debug, Clone, Copy)]
pub enum ControlCapabilities {
    FaderColumn(FaderColumnCapabilities),
    Fader(FaderCapabilities),
    Knob(KnobCapabilities),
    Button(ButtonCapabilities),
}

/// The capabilities of a fader column.
#[derive(Debug, Clone, Copy)]
pub struct FaderColumnCapabilities {
    pub fader: FaderCapabilities,
    pub button: ButtonCapabilities,
}

/// The optional capabilities of a fader.
#[derive(Debug, Clone, Copy)]
pub struct FaderCapabilities {
    pub touch: bool,
}

/// The optional capabilities of a knob.
#[derive(Debug, Clone, Copy)]
pub struct KnobCapabilities {
    pub push: bool,
}

/// The optional capabilities of a button.
#[derive(Debug, Clone, Copy)]
pub struct ButtonCapabilities {
    pub velocity: bool,
}

/// An event emitted from a control; the outer variant tells which kind of
/// control emitted it.
#[derive(Debug, Clone, Copy)]
pub enum ControllerEvent {
    FaderColumn(ControllerFaderColumnEvent),
    Fader(ControllerFaderEvent),
    Knob(ControllerKnobEvent),
    Button(ControllerButtonEvent),
}

/// An event emitted by a fader column: which part of the column emitted it.
#[derive(Debug, Clone, Copy)]
pub enum ControllerFaderColumnEvent {
    Fader(ControllerFaderEvent),
    Button(ControllerButtonEvent),
}

/// An event emitted by a fader.
#[derive(Debug, Clone, Copy)]
pub enum ControllerFaderEvent {
    Pos(ScalableValue),
    Touch(bool),
}

/// An event emitted by a knob.
#[derive(Debug, Clone, Copy)]
pub enum ControllerKnobEvent {
    Pos(ScalableValue),
    Push(bool),
}

/// An event emitted by a button.
#[derive(Debug, Clone, Copy)]
pub enum ControllerButtonEvent {
    Push { state: bool, velocity: Option<ScalableValue> },
}

/// The brightness an LED shows for an on/off state: full or nothing. Nothing
/// is shown when there is no state.
pub fn led_brightness(led: Option<bool>) -> (r: Option<ScalableValue>)
    ensures
        r == match led {
            Some(true) => Some(ScalableValue::U16(65535)),
            Some(false) => Some(ScalableValue::U16(0)),
            None => None::<ScalableValue>,
        },
{
    match led {
        Some(true) => Some(ScalableValue::U16(u16::MAX)),
        Some(false) => Some(ScalableValue::U16(u16::MIN)),
        None => None,
    }
}

/// The color an RGB LED shows for a brightness: white at that brightness.
pub fn rgb_led(brightness: Option<ScalableValue>) -> (r: Option<
    (ScalableValue, ScalableValue, ScalableValue),
>)
    ensures
        r == match brightness {
            Some(b) => Some((b, b, b)),
            None => None::<(ScalableValue, ScalableValue, ScalableValue)>,
        },
{
    match brightness {
        Some(b) => Some((b, b, b)),
        None => None,
    }
}

} // verus!
