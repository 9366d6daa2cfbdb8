//! The layout of the Behringer X-Touch Compact: which MIDI messages each of
//! its controls sends and receives.
use vstd::prelude::*;

use crate::plugins::live_controller::providers::boards::behringer::x_touch::compact::{
    XTouchControl, control_id, control_name, control_uuid, is_control, name_of_control,
};
use crate::plugins::midi_controllers::MidiBoardMeta;

verus! {

/// The MIDI messages of a control, on the board's channel. Every binding
/// also sends feedback to the board, except a knob's push.
#[derive(Debug, Clone, Copy, PartialEq, Eq, Structural)]
pub enum XTouchBinding {
    /// A fader with a touch sensor, read as pressed above a threshold, and a
    /// flash button
    FaderColumn { fader_cc: u8, touch_cc: u8, touch_threshold: u8, flash_note: u8 },
    /// A knob with a push switch, which sends no feedback
    Knob { knob_cc: u8, push_note: u8 },
    /// A button
    Button { note: u8 },
}

/// One control of the board with its MIDI messages.
#[derive(Debug, Clone, PartialEq, Eq)]
pub struct XTouchLayoutEntry {
    /// The control's id
    pub id: u128,
    /// The control's name, as shown to the user
    pub name: String,
    /// The control
    pub control: XTouchControl,
    /// The MIDI channel of the board
    pub channel: u8,
    /// The control's MIDI messages
    pub binding: XTouchBinding,
}

/// The MIDI messages of each control. Faders 2 to 9 all read controller 2.
pub open spec fn binding_of(c: XTouchControl) -> XTouchBinding {
    match c {
        XTouchControl::Fader(n) => XTouchBinding::FaderColumn {
            fader_cc: if n == 1 {
                1
            } else {
                2
            },
            touch_cc: (100 + n) as u8,
            touch_threshold: 63,
            flash_note: (39 + n) as u8,
        },
        XTouchControl::Knob(n) => XTouchBinding::Knob { knob_cc: (9 + n) as u8, push_note: (n - 1) as u8 },
        XTouchControl::Button(n) => XTouchBinding::Button { note: (15 + n) as u8 },
        XTouchControl::RightButton(n) => XTouchBinding::Button { note: (48 + n) as u8 },
    }
}

/// The control at position `i` of the layout: the 9 faders, the 16 knobs,
/// the 24 buttons, then the 6 buttons of the right column.
pub open spec fn layout_control(i: int) -> XTouchControl {
    if i < 9 {
        XTouchControl::Fader((i + 1) as u8)
    } else if i < 25 {
        XTouchControl::Knob((i - 8) as u8)
    } else if i < 49 {
        XTouchControl::Button((i - 24) as u8)
    } else {
        XTouchControl::RightButton((i - 48) as u8)
    }
}

/// `e` is the layout entry of control `c` on MIDI channel `channel`.
pub open spec fn is_layout_entry(e: XTouchLayoutEntry, c: XTouchControl, channel: u8) -> bool {
    &&& e.id == control_uuid(c)
    &&& e.name@ == control_name(c)
    &&& e.control == c
    &&& e.channel == channel
    &&& e.binding == binding_of(c)
}

/// The board's id among the boards the show knows.
pub open spec fn x_touch_compact_id() -> u128 {
    0x569ec2d6_e5b4_4fb8_b27d_c17f41728f6b
}

/// The Behringer X-Touch Compact.
pub struct XTouchCompact;

impl XTouchCompact {
    /// The board's id among the boards the show knows.
    pub fn id(&self) -> (r: u128)
        ensures
            r == x_touch_compact_id(),
    {
        0x569ec2d6_e5b4_4fb8_b27d_c17f41728f6b
    }

    /// How the board is shown to the user.
    pub fn meta(&self) -> (r: MidiBoardMeta)
        ensures
            r.name@ == "X-Touch Compact"@,
            r.manufacturer@ == "Behringer"@,
            r.family matches Some(f) && f@ == "X-Touch"@,
    {
        MidiBoardMeta {
            name: "X-Touch Compact".to_owned(),
            manufacturer: "Behringer".to_owned(),
            family: Some("X-Touch".to_owned()),
        }
    }
}

/// The binding of control `c`.
fn binding_for(c: XTouchControl) -> (r: XTouchBinding)
    requires
        is_control(c),
    ensures
        r == binding_of(c),
{
    match c {
        XTouchControl::Fader(n) => XTouchBinding::FaderColumn {
            fader_cc: if n == 1 {
                1
            } else {
                2
            },
            touch_cc: 100 + n,
            touch_threshold: 63,
            flash_note: 39 + n,
        },
        XTouchControl::Knob(n) => XTouchBinding::Knob { knob_cc: 9 + n, push_note: n - 1 },
        XTouchControl::Button(n) => XTouchBinding::Button { note: 15 + n },
        XTouchControl::RightButton(n) => XTouchBinding::Button { note: 48 + n },
    }
}

/// The layout of the board on the MIDI channel given in its creation form,
/// of which only the low four bits are kept: one entry per control, in the
/// order of `layout_control`.
pub fn create_x_touch(channel: u8) -> (r: Vec<XTouchLayoutEntry>)
    ensures
        r@.len() == 55,
        forall|i: int| 0 <= i < 55 ==> is_layout_entry(#[trigger] r@[i], layout_control(i), channel % 16),
{
    let channel: u8 = channel % 16;
    let mut r: Vec<XTouchLayoutEntry> = Vec::new();
    let mut i: u8 = 0;
    while i < 55
        invariant
            i <= 55,
            channel < 16,
            r@.len() == i,
            forall|j: int| 0 <= j < i ==> is_layout_entry(#[trigger] r@[j], layout_control(j), channel),
        decreases 55 - i,
    {
        let c = if i < 9 {
            XTouchControl::Fader(i + 1)
        } else if i < 25 {
            XTouchControl::Knob(i - 8)
        } else if i < 49 {
            XTouchControl::Button(i - 24)
        } else {
            XTouchControl::RightButton(i - 48)
        };
        assert(c == layout_control(i as int));
        r.push(
            XTouchLayoutEntry { id: control_id(c), name: name_of_control(c), control: c, channel, binding: binding_for(c) },
        );
        i = i + 1;
    }
    r
}

} // verus!
