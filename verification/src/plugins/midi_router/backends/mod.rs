//! Backends that connect logical MIDI devices to the system's devices.
use vstd::prelude::*;

pub mod coremidi_backend;

verus! {

/// Criteria or an ID used to find a MIDI device again when a show is loaded.
#[derive(Debug, Clone, Copy, PartialEq, Eq, Structural)]
pub enum MidiMomento {
    Unlinked,
    CoreMidi(u32),
}

/// An ID that retrieves a MIDI device from a backend. It is not stable across
/// restarts and should not be saved.
#[derive(Debug, Clone, Copy, PartialEq, Eq, Structural)]
pub enum MidiIndex {
    Unlinked,
    CoreMidi(u32),
}

/// A MIDI device available on the system.
#[derive(Debug, Clone)]
pub struct AvailableMidiDevice {
    pub name: String,
    pub id: MidiIndex,
}

/// A connection from a source device to a logical input.
pub trait SourceLink {
    /// Whether the source device is attached to the system
    fn is_connected(&self) -> bool;

    /// Unlinks the source from the logical input
    fn unlink(self);
}

/// A connection from a logical output to a destination device.
pub trait DestLink {
    /// Sends a MIDI packet to the destination
    fn send_midi(&mut self, data: &[u8]) -> Result<(), String>;

    /// Disconnects from the destination; no more packets can be sent
    fn disconnect(self);
}

} // verus!