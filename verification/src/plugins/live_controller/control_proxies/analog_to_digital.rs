//! Presents an analog control as an on/off control, switching at a threshold.
use vstd::prelude::*;

use crate::plugins::live_controller::control_proxies::debounce_analog::at_least;
use crate::plugins::live_controller::scalable_value::ScalableValue;

verus! {

/// The state of an analog control presented as an on/off control.
#[derive(Debug, Clone, Copy)]
pub struct AnalogToBooleanState {
    /// The value at and above which the control is on
    pub threshold: ScalableValue,
    /// The last on/off state passed on or sent, if any
    pub last_value: Option<bool>,
}

impl AnalogToBooleanState {
    /// A control with no state yet.
    pub fn new(threshold: ScalableValue) -> (r: Self)
        ensures
            r.threshold == threshold,
            r.last_value is None,
    {
        AnalogToBooleanState { threshold, last_value: None }
    }

    /// Records an analog value. Returns the on/off state to pass on to the
    /// action when it differs from the last one (or there was none).
    pub fn receive_analog(&mut self, value: ScalableValue) -> (r: Option<bool>)
        ensures
            final(self).threshold == old(self).threshold,
            final(self).last_value == Some(at_least(value, old(self).threshold)),
            r == if old(self).last_value == Some(at_least(value, old(self).threshold)) {
                None::<bool>
            } else {
                Some(at_least(value, old(self).threshold))
            },
    {
        let new_state = value >= self.threshold;
        let r = match self.last_value {
            Some(state) => if state != new_state {
                Some(new_state)
            } else {
                None
            },
            None => Some(new_state),
        };
        self.last_value = Some(new_state);
        r
    }

    /// The analog value sent to show an on/off state: full or nothing.
    pub fn feedback_value(state: bool) -> (r: ScalableValue)
        ensures
            r == if state {
                ScalableValue::U8(255)
            } else {
                ScalableValue::U8(0)
            },
    {
        if state {
            ScalableValue::U8(255)
        } else {
            ScalableValue::U8(0)
        }
    }

    /// Records that an on/off state was sent successfully.
    pub fn record_sent(&mut self, state: bool)
        ensures
            final(self).threshold == old(self).threshold,
            final(self).last_value == Some(state),
    {
        self.last_value = Some(state);
    }
}

} // verus!
