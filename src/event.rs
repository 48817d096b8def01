//! Output events and their MIDI wire encoding.
use crate::ids::EndpointId;
use vstd::arithmetic::div_mod::{
    lemma_div_multiples_vanish_fancy, lemma_fundamental_div_mod, lemma_mod_multiples_vanish,
};
use vstd::prelude::*;

verus! {

/// What an output event carries.
#[derive(Clone, Copy, Debug, PartialEq, Eq, Structural)]
pub enum OutputEventType {
    MidiNoteOn { channel: u8, note: u8, velocity: u8 },
    MidiNoteOff { channel: u8, note: u8 },
    MidiControlChange { channel: u8, controller: u8, value: u8 },
    MidiProgramChange { channel: u8, program: u8 },
    /// `value` runs from -8192 to 8191, zero at the centre.
    MidiPitchBend { channel: u8, value: i16 },
    MidiAftertouch { channel: u8, pressure: u8 },
    MidiPolyAftertouch { channel: u8, note: u8, pressure: u8 },
    /// A buffer of audio held elsewhere, by handle.
    AudioBuffer { buffer: u64, channels: u8, frames: usize },
    /// A plugin parameter; the value is the bit pattern of a 32-bit float.
    VstParameter { parameter_id: u32, value_bits: u32 },
    SyncPulse,
    EndOfTrack,
}

/// An event for output endpoints: for one endpoint, or for every endpoint that
/// accepts its kind where `target` is `None`.
#[derive(Clone, Copy, Debug, PartialEq, Eq, Structural)]
pub struct OutputEvent {
    pub event_type: OutputEventType,
    pub target: Option<EndpointId>,
}

/// Whether the event is one of the MIDI kinds.
pub open spec fn is_midi_kind(e: OutputEventType) -> bool {
    match e {
        OutputEventType::MidiNoteOn { .. } => true,
        OutputEventType::MidiNoteOff { .. } => true,
        OutputEventType::MidiControlChange { .. } => true,
        OutputEventType::MidiProgramChange { .. } => true,
        OutputEventType::MidiPitchBend { .. } => true,
        OutputEventType::MidiAftertouch { .. } => true,
        OutputEventType::MidiPolyAftertouch { .. } => true,
        _ => false,
    }
}

impl OutputEvent {
    pub fn new(event_type: OutputEventType, target: Option<EndpointId>) -> (r: OutputEvent)
        ensures
            r.event_type == event_type,
            r.target == target,
    {
        OutputEvent { event_type, target }
    }

    pub fn midi_note_on(channel: u8, note: u8, velocity: u8, target: Option<EndpointId>) -> (r:
        OutputEvent)
        ensures
            r.event_type == (OutputEventType::MidiNoteOn { channel, note, velocity }),
            r.target == target,
    {
        OutputEvent::new(OutputEventType::MidiNoteOn { channel, note, velocity }, target)
    }

    pub fn midi_note_off(channel: u8, note: u8, target: Option<EndpointId>) -> (r: OutputEvent)
        ensures
            r.event_type == (OutputEventType::MidiNoteOff { channel, note }),
            r.target == target,
    {
        OutputEvent::new(OutputEventType::MidiNoteOff { channel, note }, target)
    }

    pub fn midi_cc(channel: u8, controller: u8, value: u8, target: Option<EndpointId>) -> (r:
        OutputEvent)
        ensures
            r.event_type == (OutputEventType::MidiControlChange { channel, controller, value }),
            r.target == target,
    {
        OutputEvent::new(OutputEventType::MidiControlChange { channel, controller, value }, target)
    }

    pub fn midi_pitch_bend(channel: u8, value: i16, target: Option<EndpointId>) -> (r: OutputEvent)
        ensures
            r.event_type == (OutputEventType::MidiPitchBend { channel, value }),
            r.target == target,
    {
        OutputEvent::new(OutputEventType::MidiPitchBend { channel, value }, target)
    }

    /// Whether the event is one of the MIDI kinds.
    pub fn is_midi(&self) -> (r: bool)
        ensures
            r == is_midi_kind(self.event_type),
    {
        match self.event_type {
            OutputEventType::MidiNoteOn { .. } => true,
            OutputEventType::MidiNoteOff { .. } => true,
            OutputEventType::MidiControlChange { .. } => true,
            OutputEventType::MidiProgramChange { .. } => true,
            OutputEventType::MidiPitchBend { .. } => true,
            OutputEventType::MidiAftertouch { .. } => true,
            OutputEventType::MidiPolyAftertouch { .. } => true,
            _ => false,
        }
    }

    /// Whether the event is an audio buffer.
    pub fn is_audio(&self) -> (r: bool)
        ensures
            r == self.event_type is AudioBuffer,
    {
        match self.event_type {
            OutputEventType::AudioBuffer { .. } => true,
            _ => false,
        }
    }

    /// Whether the event is a plugin parameter.
    pub fn is_vst(&self) -> (r: bool)
        ensures
            r == self.event_type is VstParameter,
    {
        match self.event_type {
            OutputEventType::VstParameter { .. } => true,
            _ => false,
        }
    }
}

/// A MIDI message: a status byte and one or two data bytes.
#[derive(Clone, Copy, Debug, PartialEq, Eq, Structural)]
pub struct MidiMessage {
    pub status: u8,
    pub data1: u8,
    pub data2: Option<u8>,
}

impl MidiMessage {
    /// The bytes on the wire.
    pub open spec fn bytes_spec(&self) -> Seq<u8> {
        match self.data2 {
            Some(d) => seq![self.status, self.data1, d],
            None => seq![self.status, self.data1],
        }
    }

    /// The bytes on the wire.
    pub fn to_bytes(&self) -> (r: Vec<u8>)
        ensures
            r@ == self.bytes_spec(),
    {
        let mut v: Vec<u8> = Vec::new();
        v.push(self.status);
        v.push(self.data1);
        match self.data2 {
            Some(d) => {
                v.push(d);
            },
            None => {},
        }
        assert(v@ =~= self.bytes_spec());
        v
    }
}

/// The status byte of a channel message: the kind in the high nibble, the
/// channel (taken modulo 16) in the low nibble.
pub open spec fn status_byte(kind: int, channel: u8) -> u8 {
    (kind + channel % 16) as u8
}

/// The 14-bit pitch-bend value: the signed value moved up by 8192.
pub open spec fn bend_value(value: i16) -> int {
    value + 8192
}

/// The MIDI message for an event, or `None` for a kind MIDI does not carry.
pub open spec fn midi_message_spec(e: OutputEventType) -> Option<MidiMessage> {
    match e {
        OutputEventType::MidiNoteOn { channel, note, velocity } => Some(
            MidiMessage { status: status_byte(0x90, channel), data1: note, data2: Some(velocity) },
        ),
        OutputEventType::MidiNoteOff { channel, note } => Some(
            MidiMessage { status: status_byte(0x80, channel), data1: note, data2: Some(0) },
        ),
        OutputEventType::MidiControlChange { channel, controller, value } => Some(
            MidiMessage { status: status_byte(0xB0, channel), data1: controller, data2: Some(value) },
        ),
        OutputEventType::MidiProgramChange { channel, program } => Some(
            MidiMessage { status: status_byte(0xC0, channel), data1: program, data2: None },
        ),
        OutputEventType::MidiPitchBend { channel, value } => Some(
            MidiMessage {
                status: status_byte(0xE0, channel),
                data1: (bend_value(value) % 128) as u8,
                data2: Some(((bend_value(value) / 128) % 128) as u8),
            },
        ),
        OutputEventType::MidiAftertouch { channel, pressure } => Some(
            MidiMessage { status: status_byte(0xD0, channel), data1: pressure, data2: None },
        ),
        OutputEventType::MidiPolyAftertouch { channel, note, pressure } => Some(
            MidiMessage { status: status_byte(0xA0, channel), data1: note, data2: Some(pressure) },
        ),
        _ => None,
    }
}

fn status(kind: u8, channel: u8) -> (r: u8)
    requires
        kind % 16 == 0,
        kind <= 0xF0,
    ensures
        r == status_byte(kind as int, channel),
{
    kind + channel % 16
}

/// The two 7-bit halves (low, then high) of the pitch-bend value.
fn bend_bytes(value: i16) -> (r: (u8, u8))
    ensures
        r.0 == (bend_value(value) % 128) as u8,
        r.1 == ((bend_value(value) / 128) % 128) as u8,
{
    // shifted by 65536 = 512 * 128 so that the value is never negative
    let shifted: u32 = (value as i32 + 8192 + 65536) as u32;
    proof {
        let x = bend_value(value);
        lemma_mod_multiples_vanish(512, x, 128);
        assert(shifted == 128 * 512 + x);
        lemma_fundamental_div_mod(x, 128);
        assert(128 * 512 + x == 128 * (512 + x / 128) + x % 128);
        lemma_div_multiples_vanish_fancy(512 + x / 128, x % 128, 128);
        lemma_mod_multiples_vanish(4, x / 128, 128);
        assert(512 + x / 128 == 128 * 4 + x / 128);
    }
    ((shifted % 128) as u8, ((shifted / 128) % 128) as u8)
}

/// Encodes an event as a MIDI message; `None` for a kind MIDI does not carry.
pub fn midi_message(e: &OutputEventType) -> (r: Option<MidiMessage>)
    ensures
        r == midi_message_spec(*e),
{
    match *e {
        OutputEventType::MidiNoteOn { channel, note, velocity } => Some(
            MidiMessage { status: status(0x90, channel), data1: note, data2: Some(velocity) },
        ),
        OutputEventType::MidiNoteOff { channel, note } => Some(
            MidiMessage { status: status(0x80, channel), data1: note, data2: Some(0) },
        ),
        OutputEventType::MidiControlChange { channel, controller, value } => Some(
            MidiMessage { status: status(0xB0, channel), data1: controller, data2: Some(value) },
        ),
        OutputEventType::MidiProgramChange { channel, program } => Some(
            MidiMessage { status: status(0xC0, channel), data1: program, data2: None },
        ),
        OutputEventType::MidiPitchBend { channel, value } => {
            let (lsb, msb) = bend_bytes(value);
            Some(MidiMessage { status: status(0xE0, channel), data1: lsb, data2: Some(msb) })
        },
        OutputEventType::MidiAftertouch { channel, pressure } => Some(
            MidiMessage { status: status(0xD0, channel), data1: pressure, data2: None },
        ),
        OutputEventType::MidiPolyAftertouch { channel, note, pressure } => Some(
            MidiMessage { status: status(0xA0, channel), data1: note, data2: Some(pressure) },
        ),
        _ => None,
    }
}

} // verus!
