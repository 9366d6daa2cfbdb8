//! Routing of MIDI between logical devices and the devices of the system.
use vstd::prelude::*;

use crate::utils::random_id::{is_random_id, new_random_id};
use crate::utils::smallmap::SmallMap;

pub mod backends;
pub mod live_event;

pub use self::backends::{AvailableMidiDevice, MidiIndex, MidiMomento};

verus! {

/// Describes a logical MIDI input.
#[derive(Debug, Clone)]
pub struct InputMeta {
    pub name: String,
}

/// Describes a logical MIDI output.
#[derive(Debug, Clone)]
pub struct OutputMeta {
    pub name: String,
}

/// An error that occurs when linking logical MIDI devices with external ones.
#[derive(Debug, Clone, PartialEq, Eq)]
pub enum LinkMidiError {
    /// The requested logical channel was not registered
    NotRegistered,
    /// The requested MIDI device doesn't exist
    DeviceNotFound,
    Unknown(String),
}

/// An error that occurs when sending MIDI output.
#[derive(Debug, Clone, PartialEq, Eq)]
pub enum SendOutputError {
    /// The requested logical channel was not registered
    NotRegistered,
    Unknown(String),
}

/// What a logical output is connected to: nothing, or a device of a backend.
#[derive(Debug, Clone, Copy, PartialEq, Eq, Structural)]
pub enum LogicalOutput {
    /// A placeholder for a MIDI channel, which can be linked later
    Unlinked,
    /// Connected to this device
    Linked(MidiIndex),
}

/// What a logical input is connected to: nothing, or a device of a backend.
/// The callback that receives its messages is held by the runtime.
#[derive(Debug, Clone, Copy, PartialEq, Eq, Structural)]
pub enum LogicalInput {
    /// Not connected; messages wait for a link
    Unlinked,
    /// Connected to this device
    Linked(MidiIndex),
}

/// The device that a momento names, once the backend has tried to connect:
/// `connected` is whether it did. A device that could not be connected
/// leaves the channel unlinked.
pub open spec fn momento_device(momento: MidiMomento, connected: bool) -> Option<MidiIndex> {
    match momento {
        MidiMomento::Unlinked => None,
        MidiMomento::CoreMidi(id) => if connected {
            Some(MidiIndex::CoreMidi(id))
        } else {
            None
        },
    }
}

/// The MIDI router: the logical inputs and outputs that controllers use,
/// each with what it is linked to. The connections themselves are held by
/// the runtime; the operations say which ones to open and close.
pub struct MidiRouterInterface {
    pub outputs: SmallMap<u128, (OutputMeta, LogicalOutput)>,
    pub inputs: SmallMap<u128, (InputMeta, LogicalInput)>,
}

impl MidiRouterInterface {
    /// A router without inputs or outputs.
    pub fn new() -> (r: Self)
        ensures
            r.outputs@ == Map::<u128, (OutputMeta, LogicalOutput)>::empty(),
            r.inputs@ == Map::<u128, (InputMeta, LogicalInput)>::empty(),
    {
        MidiRouterInterface { outputs: SmallMap::new(), inputs: SmallMap::new() }
    }

    /// Adds a logical output under a new random id, linked to the device its
    /// momento names if the backend connected to it, and returns the id.
    pub fn create_output_with_momento(&mut self, meta: OutputMeta, momento: MidiMomento, connected: bool) -> (r: u128)
        ensures
            is_random_id(r),
            final(self).outputs@ == old(self).outputs@.insert(
                r,
                (
                    meta,
                    match momento_device(momento, connected) {
                        Some(d) => LogicalOutput::Linked(d),
                        None => LogicalOutput::Unlinked,
                    },
                ),
            ),
            final(self).inputs == old(self).inputs,
    {
        let id = new_random_id();
        let link = match momento {
            MidiMomento::Unlinked => LogicalOutput::Unlinked,
            MidiMomento::CoreMidi(device) => if connected {
                LogicalOutput::Linked(MidiIndex::CoreMidi(device))
            } else {
                LogicalOutput::Unlinked
            },
        };
        self.outputs.insert(id, (meta, link));
        id
    }

    /// Adds an unlinked logical output under a new random id.
    pub fn create_output(&mut self, meta: OutputMeta) -> (r: u128)
        ensures
            is_random_id(r),
            final(self).outputs@ == old(self).outputs@.insert(r, (meta, LogicalOutput::Unlinked)),
            final(self).inputs == old(self).inputs,
    {
        self.create_output_with_momento(meta, MidiMomento::Unlinked, false)
    }

    /// Adds a logical input under a new random id, linked to the device its
    /// momento names if the backend connected to it, and returns the id.
    pub fn create_input_with_momento(&mut self, meta: InputMeta, momento: MidiMomento, connected: bool) -> (r: u128)
        ensures
            is_random_id(r),
            final(self).inputs@ == old(self).inputs@.insert(
                r,
                (
                    meta,
                    match momento_device(momento, connected) {
                        Some(d) => LogicalInput::Linked(d),
                        None => LogicalInput::Unlinked,
                    },
                ),
            ),
            final(self).outputs == old(self).outputs,
    {
        let id = new_random_id();
        let link = match momento {
            MidiMomento::Unlinked => LogicalInput::Unlinked,
            MidiMomento::CoreMidi(device) => if connected {
                LogicalInput::Linked(MidiIndex::CoreMidi(device))
            } else {
                LogicalInput::Unlinked
            },
        };
        self.inputs.insert(id, (meta, link));
        id
    }

    /// Adds an unlinked logical input under a new random id.
    pub fn create_input(&mut self, meta: InputMeta) -> (r: u128)
        ensures
            is_random_id(r),
            final(self).inputs@ == old(self).inputs@.insert(r, (meta, LogicalInput::Unlinked)),
            final(self).outputs == old(self).outputs,
    {
        self.create_input_with_momento(meta, MidiMomento::Unlinked, false)
    }

    /// Links a logical output to `device`. `connect` is what the backend
    /// answered when asked to connect to it (unused when `device` is
    /// `Unlinked`). Returns the result and the device whose connection is to
    /// be closed. The output stays registered, as an unlinked placeholder
    /// where it is linked to `Unlinked` or could not be connected.
    pub fn link_output(
        &mut self,
        output_id: u128,
        device: MidiIndex,
        connect: Result<(), LinkMidiError>,
    ) -> (r: (Result<(), LinkMidiError>, Option<MidiIndex>))
        ensures
            final(self).inputs == old(self).inputs,
            !old(self).outputs@.contains_key(output_id) ==> r.0 == Err::<(), LinkMidiError>(LinkMidiError::NotRegistered)
                && r.1 is None && final(self).outputs@ == old(self).outputs@,
            old(self).outputs@.contains_key(output_id) ==> ({
                let (meta, link) = old(self).outputs@[output_id];
                &&& r.1 == match link {
                    LogicalOutput::Linked(d) => Some(d),
                    LogicalOutput::Unlinked => None::<MidiIndex>,
                }
                &&& match device {
                    MidiIndex::Unlinked => r.0 is Ok && final(self).outputs@ == old(self).outputs@.insert(
                        output_id,
                        (meta, LogicalOutput::Unlinked),
                    ),
                    MidiIndex::CoreMidi(_) => match connect {
                        Ok(()) => r.0 is Ok && final(self).outputs@ == old(self).outputs@.insert(
                            output_id,
                            (meta, LogicalOutput::Linked(device)),
                        ),
                        Err(e) => r.0 == Err::<(), LinkMidiError>(e) && final(self).outputs@ == old(
                            self,
                        ).outputs@.insert(output_id, (meta, LogicalOutput::Unlinked)),
                    },
                }
            }),
    {
        let (meta, link) = match self.outputs.remove(&output_id) {
            None => {
                return (Err(LinkMidiError::NotRegistered), None);
            },
            Some(entry) => entry,
        };
        let previous = match link {
            LogicalOutput::Linked(d) => Some(d),
            LogicalOutput::Unlinked => None,
        };
        match device {
            MidiIndex::Unlinked => {
                self.outputs.insert(output_id, (meta, LogicalOutput::Unlinked));
                (Ok(()), previous)
            },
            MidiIndex::CoreMidi(_) => match connect {
                Ok(()) => {
                    self.outputs.insert(output_id, (meta, LogicalOutput::Linked(device)));
                    (Ok(()), previous)
                },
                Err(e) => {
                    self.outputs.insert(output_id, (meta, LogicalOutput::Unlinked));
                    (Err(e), previous)
                },
            },
        }
    }

    /// Links a logical input to `device`. `connect` is what the backend
    /// answered when asked to connect to it (unused when `device` is
    /// `Unlinked`). Returns the result and the device whose connection is to
    /// be closed; the input stays registered, unlinked where it could not be
    /// linked.
    pub fn link_input(
        &mut self,
        sink_id: u128,
        device: MidiIndex,
        connect: Result<(), LinkMidiError>,
    ) -> (r: (Result<(), LinkMidiError>, Option<MidiIndex>))
        ensures
            final(self).outputs == old(self).outputs,
            !old(self).inputs@.contains_key(sink_id) ==> r.0 == Err::<(), LinkMidiError>(LinkMidiError::NotRegistered)
                && r.1 is None && final(self).inputs@ == old(self).inputs@,
            old(self).inputs@.contains_key(sink_id) ==> ({
                let (meta, link) = old(self).inputs@[sink_id];
                &&& r.1 == match link {
                    LogicalInput::Linked(d) => Some(d),
                    LogicalInput::Unlinked => None::<MidiIndex>,
                }
                &&& match device {
                    MidiIndex::Unlinked => r.0 is Ok && final(self).inputs@ == old(self).inputs@.insert(
                        sink_id,
                        (meta, LogicalInput::Unlinked),
                    ),
                    MidiIndex::CoreMidi(_) => match connect {
                        Ok(()) => r.0 is Ok && final(self).inputs@ == old(self).inputs@.insert(
                            sink_id,
                            (meta, LogicalInput::Linked(device)),
                        ),
                        Err(e) => r.0 == Err::<(), LinkMidiError>(e) && final(self).inputs@ == old(
                            self,
                        ).inputs@.insert(sink_id, (meta, LogicalInput::Unlinked)),
                    },
                }
            }),
    {
        let (meta, link) = match self.inputs.remove(&sink_id) {
            None => {
                return (Err(LinkMidiError::NotRegistered), None);
            },
            Some(entry) => entry,
        };
        let previous = match link {
            LogicalInput::Linked(d) => Some(d),
            LogicalInput::Unlinked => None,
        };
        match device {
            MidiIndex::Unlinked => {
                self.inputs.insert(sink_id, (meta, LogicalInput::Unlinked));
                (Ok(()), previous)
            },
            MidiIndex::CoreMidi(_) => match connect {
                Ok(()) => {
                    self.inputs.insert(sink_id, (meta, LogicalInput::Linked(device)));
                    (Ok(()), previous)
                },
                Err(e) => {
                    self.inputs.insert(sink_id, (meta, LogicalInput::Unlinked));
                    (Err(e), previous)
                },
            },
        }
    }

    /// The outcome of sending a packet through a logical output: `sent` is
    /// what the device answered, which matters only for a linked output; an
    /// unlinked output swallows the packet.
    pub fn send_output(&self, output_id: u128, sent: Result<(), String>) -> (r: Result<(), SendOutputError>)
        ensures
            !self.outputs@.contains_key(output_id) ==> r == Err::<(), SendOutputError>(SendOutputError::NotRegistered),
            self.outputs@.contains_key(output_id) ==> match self.outputs@[output_id].1 {
                LogicalOutput::Unlinked => r is Ok,
                LogicalOutput::Linked(_) => match sent {
                    Ok(()) => r is Ok,
                    Err(msg) => r == Err::<(), SendOutputError>(SendOutputError::Unknown(msg)),
                },
            },
    {
        match self.outputs.get(&output_id) {
            Some(output) => match output.1 {
                LogicalOutput::Linked(_) => match sent {
                    Ok(()) => Ok(()),
                    Err(msg) => Err(SendOutputError::Unknown(msg)),
                },
                LogicalOutput::Unlinked => Ok(()),
            },
            None => Err(SendOutputError::NotRegistered),
        }
    }

    /// Removes a logical output. Returns the device whose connection is to be
    /// closed, if it was linked.
    pub fn remove_output(&mut self, output_id: u128) -> (r: Option<MidiIndex>)
        ensures
            final(self).outputs@ == old(self).outputs@.remove(output_id),
            final(self).inputs == old(self).inputs,
            r == (if old(self).outputs@.contains_key(output_id) {
                match old(self).outputs@[output_id].1 {
                    LogicalOutput::Linked(d) => Some(d),
                    LogicalOutput::Unlinked => None::<MidiIndex>,
                }
            } else {
                None::<MidiIndex>
            }),
    {
        match self.outputs.remove(&output_id) {
            Some((_, LogicalOutput::Linked(d))) => Some(d),
            _ => None,
        }
    }

    /// Removes a logical input. Returns the device whose connection is to be
    /// unlinked, if it was linked.
    pub fn remove_input(&mut self, sink_id: u128) -> (r: Option<MidiIndex>)
        ensures
            final(self).inputs@ == old(self).inputs@.remove(sink_id),
            final(self).outputs == old(self).outputs,
            r == (if old(self).inputs@.contains_key(sink_id) {
                match old(self).inputs@[sink_id].1 {
                    LogicalInput::Linked(d) => Some(d),
                    LogicalInput::Unlinked => None::<MidiIndex>,
                }
            } else {
                None::<MidiIndex>
            }),
    {
        match self.inputs.remove(&sink_id) {
            Some((_, LogicalInput::Linked(d))) => Some(d),
            _ => None,
        }
    }
}

} // verus!