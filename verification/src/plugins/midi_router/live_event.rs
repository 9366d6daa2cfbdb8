//! Reading and writing live MIDI messages, through the `midly` crate.
use midly::live::LiveEvent;
use midly::num::{u4, u7};
use midly::MidiMessage;
use vstd::prelude::*;

verus! {

/// A live MIDI message as read from its raw bytes: the channel voice messages
/// that controllers use, with their channel and data bytes.
#[derive(Debug, Clone, Copy, PartialEq, Eq, Structural)]
pub enum RawLiveEvent {
    NoteOff { channel: u8, key: u8, vel: u8 },
    NoteOn { channel: u8, key: u8, vel: u8 },
    Controller { channel: u8, controller: u8, value: u8 },
    /// Another channel voice message (aftertouch, program change, pitch bend)
    OtherMidi { channel: u8 },
    /// A system common or system realtime message
    System,
}

/// The number of data bytes at the start of `data` (all below 0x80).
pub open spec fn data_prefix_len(data: Seq<u8>) -> nat
    decreases data.len(),
{
    if data.len() == 0 || data[0] >= 0x80 {
        0
    } else {
        1 + data_prefix_len(data.drop_first())
    }
}

/// The message that `raw` holds, or `None` where it holds none: no status
/// byte, a channel message short of data bytes (1 for program change and
/// channel aftertouch, 2 otherwise), a data byte as status, or 0xF7.
pub open spec fn parsed_event(raw: Seq<u8>) -> Option<RawLiveEvent> {
    if raw.len() == 0 {
        None
    } else {
        let status = raw[0];
        let data = raw.drop_first();
        let kind = status / 16;
        let channel = (status % 16) as u8;
        if 0x80 <= status <= 0xEF {
            let needed: nat = if kind == 0xC || kind == 0xD {
                1
            } else {
                2
            };
            if data_prefix_len(data) < needed {
                None
            } else if kind == 0x8 {
                Some(RawLiveEvent::NoteOff { channel, key: data[0], vel: data[1] })
            } else if kind == 0x9 {
                Some(RawLiveEvent::NoteOn { channel, key: data[0], vel: data[1] })
            } else if kind == 0xB {
                Some(RawLiveEvent::Controller { channel, controller: data[0], value: data[1] })
            } else {
                Some(RawLiveEvent::OtherMidi { channel })
            }
        } else if (0xF0 <= status <= 0xF6) || 0xF8 <= status {
            Some(RawLiveEvent::System)
        } else {
            None
        }
    }
}

/// Reads a complete live message with `midly::live::LiveEvent::parse`: a
/// status byte followed by the data bytes below 0x80 that follow it. Claims
/// that the result is `parsed_event` of the bytes.
#[verifier::external_body]
pub(crate) fn parse_live_event(raw: &[u8]) -> (r: Option<RawLiveEvent>)
    ensures
        r == parsed_event(raw@),
{
    match LiveEvent::parse(raw) {
        Ok(LiveEvent::Midi { channel: c, message }) => Some(match message {
            MidiMessage::NoteOff { key, vel } => RawLiveEvent::NoteOff { channel: c.into(), key: key.into(), vel: vel.into() },
            MidiMessage::NoteOn { key, vel } => RawLiveEvent::NoteOn { channel: c.into(), key: key.into(), vel: vel.into() },
            MidiMessage::Controller { controller: k, value: v } => RawLiveEvent::Controller { channel: c.into(), controller: k.into(), value: v.into() },
            _ => RawLiveEvent::OtherMidi { channel: c.into() },
        }),
        Ok(_) => Some(RawLiveEvent::System),
        Err(_) => None,
    }
}

/// The kind of a channel voice message that is written.
#[derive(Debug, Clone, Copy, PartialEq, Eq, Structural)]
pub enum VoiceKind {
    NoteOff,
    NoteOn,
    Controller,
}

/// The status nibble of a message kind.
pub open spec fn status_nibble(kind: VoiceKind) -> u8 {
    match kind {
        VoiceKind::NoteOff => 0x8,
        VoiceKind::NoteOn => 0x9,
        VoiceKind::Controller => 0xB,
    }
}

/// Writes a channel voice message with `midly::live::LiveEvent::write_std`.
/// Claims the standard encoding: the status byte (kind in the high nibble,
/// channel in the low one) followed by the two data bytes.
#[verifier::external_body]
pub(crate) fn write_voice_message(kind: VoiceKind, channel: u8, a: u8, b: u8) -> (r: Vec<u8>)
    requires
        channel < 16,
        a < 128,
        b < 128,
    ensures
        r@ == seq![(status_nibble(kind) * 16 + channel) as u8, a, b],
{
    let (c, a, b) = (u4::from_int_lossy(channel), u7::from_int_lossy(a), u7::from_int_lossy(b));
    let message = match kind {
        VoiceKind::NoteOff => MidiMessage::NoteOff { key: a, vel: b },
        VoiceKind::NoteOn => MidiMessage::NoteOn { key: a, vel: b },
        VoiceKind::Controller => MidiMessage::Controller { controller: a, value: b },
    };
    let mut out: Vec<u8> = Vec::new();
    let _ = LiveEvent::Midi { channel: c, message }.write_std(&mut out);
    out
}

} // verus!
