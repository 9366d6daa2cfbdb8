//! Presents an on/off control as an analog control.
use vstd::prelude::*;

use crate::plugins::live_controller::scalable_value::{ScalableValue, compared_as};

verus! {

/// The state of an on/off control presented as an analog control.
#[derive(Debug, Clone, Copy)]
pub struct BooleanToAnalogState {
    /// The last on/off state received, if any
    pub last_value: Option<bool>,
}

impl BooleanToAnalogState {
    /// A control with no state yet.
    pub fn new() -> (r: Self)
        ensures
            r.last_value is None,
    {
        BooleanToAnalogState { last_value: None }
    }

    /// Records an on/off value. When it differs from the last one (or there was
    /// none), returns the analog value to pass on: full when on, nothing when
    /// off.
    pub fn receive_bool(&mut self, value: bool) -> (r: Option<ScalableValue>)
        ensures
            final(self).last_value == Some(value),
            r == if old(self).last_value == Some(value) {
                None::<ScalableValue>
            } else if value {
                Some(ScalableValue::U8(255))
            } else {
                Some(ScalableValue::U8(0))
            },
    {
        if self.last_value != Some(value) {
            self.last_value = Some(value);
            if value {
                Some(ScalableValue::U8(255))
            } else {
                Some(ScalableValue::U8(0))
            }
        } else {
            None
        }
    }

    /// The on/off state sent for an analog value: on above half (127 on 8 bits).
    pub fn feedback_state(value: ScalableValue) -> (r: bool)
        ensures
            r == (compared_as(value, ScalableValue::U8(127)).0 > compared_as(
                value,
                ScalableValue::U8(127),
            ).1),
    {
        value > ScalableValue::U8(127)
    }
}

} // verus!
