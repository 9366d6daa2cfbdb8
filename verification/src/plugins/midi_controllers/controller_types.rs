//! How a board's MIDI messages reach its controls, and its logical MIDI devices.
use vstd::prelude::*;

use crate::plugins::midi_router::live_event::{RawLiveEvent, parse_live_event, parsed_event};
use crate::plugins::midi_router::{
    InputMeta, LogicalInput, LogicalOutput, MidiIndex, MidiMomento, MidiRouterInterface, OutputMeta, momento_device,
};

verus! {

/// An error that could occur while creating a MIDI control.
#[derive(Debug, Clone, Copy, PartialEq, Eq, Structural)]
pub enum MidiCreationError {
    /// "Invalid channel"
    InvalidChannel,
    /// "Invalid ID"
    InvalidId,
}

/// Where a MIDI message from a board goes: to the analog control of its
/// channel and controller number, or to the button of its channel and key.
#[derive(Debug, Clone, Copy, PartialEq, Eq, Structural)]
pub enum MidiRoute {
    /// A controller change: the control's new position (0 to 127)
    Analog { channel: u8, controller: u8, value: u8 },
    /// A note on or off: the button's new state, with its velocity (0 to 127)
    Button { channel: u8, key: u8, pressed: bool, velocity: u8 },
}

/// Where a message goes, if anywhere: only controller changes and notes are
/// routed.
pub open spec fn route_of(event: Option<RawLiveEvent>) -> Option<MidiRoute> {
    match event {
        Some(RawLiveEvent::Controller { channel, controller, value }) => Some(
            MidiRoute::Analog { channel, controller, value },
        ),
        Some(RawLiveEvent::NoteOff { channel, key, vel }) => Some(
            MidiRoute::Button { channel, key, pressed: false, velocity: vel },
        ),
        Some(RawLiveEvent::NoteOn { channel, key, vel }) => Some(
            MidiRoute::Button { channel, key, pressed: true, velocity: vel },
        ),
        _ => None,
    }
}

/// Where a raw MIDI message from a board goes.
pub fn route_midi(msg: &[u8]) -> (r: Option<MidiRoute>)
    ensures
        r == route_of(parsed_event(msg@)),
{
    match parse_live_event(msg) {
        Some(RawLiveEvent::Controller { channel, controller, value }) => Some(
            MidiRoute::Analog { channel, controller, value },
        ),
        Some(RawLiveEvent::NoteOff { channel, key, vel }) => Some(
            MidiRoute::Button { channel, key, pressed: false, velocity: vel },
        ),
        Some(RawLiveEvent::NoteOn { channel, key, vel }) => Some(
            MidiRoute::Button { channel, key, pressed: true, velocity: vel },
        ),
        _ => None,
    }
}

/// What a logical input created from `momento` is linked to.
pub open spec fn input_link(momento: MidiMomento, connected: bool) -> LogicalInput {
    match momento_device(momento, connected) {
        Some(d) => LogicalInput::Linked(d),
        None => LogicalInput::Unlinked,
    }
}

/// What a logical output created from `momento` is linked to.
pub open spec fn output_link(momento: MidiMomento, connected: bool) -> LogicalOutput {
    match momento_device(momento, connected) {
        Some(d) => LogicalOutput::Linked(d),
        None => LogicalOutput::Unlinked,
    }
}

/// A board's MIDI interface: the logical input it reads from the router and,
/// for a board that takes feedback, the logical output it writes to.
pub struct MidiInterfaceController {
    pub input_id: Option<u128>,
    pub output_id: Option<u128>,
}

impl MidiInterfaceController {
    /// Registers a board's logical input in the router and, where
    /// `output_data` is given, its logical output. `input_connected` and the
    /// flag in `output_data` are whether the backend connected to the device
    /// that each momento names.
    pub fn new(
        midi: &mut MidiRouterInterface,
        input_meta: InputMeta,
        input_momento: MidiMomento,
        input_connected: bool,
        output_data: Option<(OutputMeta, MidiMomento, bool)>,
    ) -> (r: Self)
        ensures
            r.input_id matches Some(i) && final(midi).inputs@ == old(midi).inputs@.insert(
                i,
                (input_meta, input_link(input_momento, input_connected)),
            ),
            match output_data {
                None => r.output_id is None && final(midi).outputs == old(midi).outputs,
                Some((meta, momento, connected)) => r.output_id matches Some(o) && final(midi).outputs@
                    == old(midi).outputs@.insert(o, (meta, output_link(momento, connected))),
            },
    {
        let input_id = midi.create_input_with_momento(input_meta, input_momento, input_connected);
        let output_id = match output_data {
            Some((meta, momento, connected)) => Some(midi.create_output_with_momento(meta, momento, connected)),
            None => None,
        };
        MidiInterfaceController { input_id: Some(input_id), output_id }
    }

    /// The logical output that feedback is sent to, if the board has one.
    pub fn get_output_id(&self) -> (r: Option<u128>)
        ensures
            r == self.output_id,
    {
        self.output_id
    }

    /// Removes the board's logical input and output from the router. Returns
    /// the devices whose connections are to be closed: the input's, then the
    /// output's.
    pub fn teardown(&mut self, midi: &mut MidiRouterInterface) -> (r: (Option<MidiIndex>, Option<MidiIndex>))
        ensures
            *final(self) == *old(self),
            final(midi).inputs@ == match old(self).input_id {
                Some(i) => old(midi).inputs@.remove(i),
                None => old(midi).inputs@,
            },
            final(midi).outputs@ == match old(self).output_id {
                Some(o) => old(midi).outputs@.remove(o),
                None => old(midi).outputs@,
            },
            r.0 == match old(self).input_id {
                Some(i) => if old(midi).inputs@.contains_key(i) {
                    match old(midi).inputs@[i].1 {
                        LogicalInput::Linked(d) => Some(d),
                        LogicalInput::Unlinked => None::<MidiIndex>,
                    }
                } else {
                    None::<MidiIndex>
                },
                None => None::<MidiIndex>,
            },
            r.1 == match old(self).output_id {
                Some(o) => if old(midi).outputs@.contains_key(o) {
                    match old(midi).outputs@[o].1 {
                        LogicalOutput::Linked(d) => Some(d),
                        LogicalOutput::Unlinked => None::<MidiIndex>,
                    }
                } else {
                    None::<MidiIndex>
                },
                None => None::<MidiIndex>,
            },
    {
        let input = match self.input_id {
            Some(i) => midi.remove_input(i),
            None => None,
        };
        let output = match self.output_id {
            Some(o) => midi.remove_output(o),
            None => None,
        };
        (input, output)
    }
}

} // verus!