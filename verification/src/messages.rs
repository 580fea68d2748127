//! The message classifier and the event emitter.
//!
//! A wire message is 1 to 3 bytes: a status byte whose high nibble is the
//! message kind and whose low nibble is the channel, followed by up to two
//! data bytes.  `classify` decodes a raw message into a structured
//! [`MidiMessage`]; `encode` serializes a structured message back into its
//! wire shape.  Unrecognized kinds are not an error: they fall through to
//! [`MidiMessage::Other`] and are carried verbatim.

use vstd::prelude::*;

verus! {

/// High nibble of a note-off status byte.
pub const NOTE_OFF_KIND: u8 = 8;
/// High nibble of a note-on status byte.
pub const NOTE_ON_KIND: u8 = 9;
/// High nibble of a program-change status byte.
pub const PROGRAM_CHANGE_KIND: u8 = 12;
/// High nibble of a pitch-bend status byte.
pub const PITCH_BEND_KIND: u8 = 14;

/// A structured MIDI message, as produced by [`classify`].
#[derive(Debug, PartialEq, Eq)]
pub enum MidiMessage {
    NoteOn { channel: u8, note: u8, velocity: u8 },
    NoteOff { channel: u8, note: u8, velocity: u8 },
    ProgramChange { channel: u8, program: u8 },
    PitchBend { channel: u8, lsb: u8, msb: u8 },
    /// Any other kind, carried verbatim as its raw bytes.
    Other { bytes: Vec<u8> },
}

/// The one per-message error the core raises: a message whose length does not
/// fit its kind.  Such a message is dropped; it never reaches the allocator.
#[derive(Clone, Copy, Debug, PartialEq, Eq, Structural)]
pub enum RouteError {
    MalformedMessage,
}

/// The message kind: the high nibble of a status byte.
pub open spec fn kind_of(status: u8) -> u8 {
    status / 16
}

/// The source channel: the low nibble of a status byte.
pub open spec fn channel_of(status: u8) -> u8 {
    status % 16
}

/// A status byte assembled from a kind and a channel nibble.
pub open spec fn status_byte(kind: u8, channel: u8) -> u8
    recommends
        kind < 16,
        channel < 16,
{
    (kind * 16 + channel) as u8
}

/// Whether this kind is one the classifier gives structure to.
pub open spec fn known_kind(kind: u8) -> bool {
    ||| kind == NOTE_ON_KIND
    ||| kind == NOTE_OFF_KIND
    ||| kind == PROGRAM_CHANGE_KIND
    ||| kind == PITCH_BEND_KIND
}

/// A raw message whose length fits its kind: three bytes for note events and
/// pitch bend, two for program change, one to three for everything else.
pub open spec fn well_formed_wire(b: Seq<u8>) -> bool {
    &&& 1 <= b.len() <= 3
    &&& (kind_of(b[0]) == NOTE_ON_KIND || kind_of(b[0]) == NOTE_OFF_KIND || kind_of(b[0])
        == PITCH_BEND_KIND) ==> b.len() == 3
    &&& kind_of(b[0]) == PROGRAM_CHANGE_KIND ==> b.len() == 2
}

/// The decoding relation: `m` is the structured reading of the raw bytes `b`.
/// Given `b`, it determines every field of `m`.
pub open spec fn classifies_to(b: Seq<u8>, m: MidiMessage) -> bool {
    &&& b.len() >= 1
    &&& match m {
        MidiMessage::NoteOn { channel, note, velocity } => {
            &&& b.len() == 3
            &&& kind_of(b[0]) == NOTE_ON_KIND
            &&& channel == channel_of(b[0])
            &&& note == b[1]
            &&& velocity == b[2]
        },
        MidiMessage::NoteOff { channel, note, velocity } => {
            &&& b.len() == 3
            &&& kind_of(b[0]) == NOTE_OFF_KIND
            &&& channel == channel_of(b[0])
            &&& note == b[1]
            &&& velocity == b[2]
        },
        MidiMessage::ProgramChange { channel, program } => {
            &&& b.len() == 2
            &&& kind_of(b[0]) == PROGRAM_CHANGE_KIND
            &&& channel == channel_of(b[0])
            &&& program == b[1]
        },
        MidiMessage::PitchBend { channel, lsb, msb } => {
            &&& b.len() == 3
            &&& kind_of(b[0]) == PITCH_BEND_KIND
            &&& channel == channel_of(b[0])
            &&& lsb == b[1]
            &&& msb == b[2]
        },
        MidiMessage::Other { bytes } => {
            &&& bytes@ == b
            &&& b.len() <= 3
            &&& !known_kind(kind_of(b[0]))
        },
    }
}

/// The wire bytes of a structured message.
pub open spec fn spec_encode(m: MidiMessage) -> Seq<u8> {
    match m {
        MidiMessage::NoteOn { channel, note, velocity } => seq![
            status_byte(NOTE_ON_KIND, channel),
            note,
            velocity,
        ],
        MidiMessage::NoteOff { channel, note, velocity } => seq![
            status_byte(NOTE_OFF_KIND, channel),
            note,
            velocity,
        ],
        MidiMessage::ProgramChange { channel, program } => seq![
            status_byte(PROGRAM_CHANGE_KIND, channel),
            program,
        ],
        MidiMessage::PitchBend { channel, lsb, msb } => seq![
            status_byte(PITCH_BEND_KIND, channel),
            lsb,
            msb,
        ],
        MidiMessage::Other { bytes } => bytes@,
    }
}

/// A message the emitter can frame: channel nibble in range, and an `Other`
/// payload that really is the wire form of an unrecognized kind.
pub open spec fn message_valid(m: MidiMessage) -> bool {
    match m {
        MidiMessage::NoteOn { channel, .. } => channel < 16,
        MidiMessage::NoteOff { channel, .. } => channel < 16,
        MidiMessage::ProgramChange { channel, .. } => channel < 16,
        MidiMessage::PitchBend { channel, .. } => channel < 16,
        MidiMessage::Other { bytes } => well_formed_wire(bytes@) && !known_kind(
            kind_of(bytes@[0]),
        ),
    }
}

/// Splitting a status byte built from nibbles gives the nibbles back.
pub proof fn lemma_status_byte_parts(kind: u8, channel: u8)
    requires
        kind < 16,
        channel < 16,
    ensures
        kind_of(status_byte(kind, channel)) == kind,
        channel_of(status_byte(kind, channel)) == channel,
{
    assert((kind * 16 + channel) / 16 == kind && (kind * 16 + channel) % 16 == channel)
        by (nonlinear_arith)
        requires
            kind < 16,
            channel < 16,
    ;
}

/// Rebuilding a status byte from its nibbles gives the byte back.
pub proof fn lemma_status_byte_id(status: u8)
    ensures
        status_byte(kind_of(status), channel_of(status)) == status,
        kind_of(status) < 16,
        channel_of(status) < 16,
{
    assert((status / 16) * 16 + status % 16 == status && status / 16 < 16 && status % 16 < 16)
        by (nonlinear_arith);
}

/// Decoding is inverted exactly by encoding: the structured reading of a
/// well-formed raw message serializes back to the very same bytes.
pub proof fn lemma_classify_encode_id(b: Seq<u8>, m: MidiMessage)
    requires
        well_formed_wire(b),
        classifies_to(b, m),
    ensures
        spec_encode(m) == b,
        message_valid(m),
{
    lemma_status_byte_id(b[0]);
    match m {
        MidiMessage::NoteOn { channel, note, velocity } => {
            assert(spec_encode(m) =~= b);
        },
        MidiMessage::NoteOff { channel, note, velocity } => {
            assert(spec_encode(m) =~= b);
        },
        MidiMessage::ProgramChange { channel, program } => {
            assert(spec_encode(m) =~= b);
        },
        MidiMessage::PitchBend { channel, lsb, msb } => {
            assert(spec_encode(m) =~= b);
        },
        MidiMessage::Other { bytes } => {
        },
    }
}

/// Encoding is inverted exactly by classification: a valid message serializes
/// to a well-formed raw message that reads back as itself.
pub proof fn lemma_encode_classify_id(m: MidiMessage)
    requires
        message_valid(m),
    ensures
        well_formed_wire(spec_encode(m)),
        classifies_to(spec_encode(m), m),
{
    match m {
        MidiMessage::NoteOn { channel, note, velocity } => {
            lemma_status_byte_parts(NOTE_ON_KIND, channel);
        },
        MidiMessage::NoteOff { channel, note, velocity } => {
            lemma_status_byte_parts(NOTE_OFF_KIND, channel);
        },
        MidiMessage::ProgramChange { channel, program } => {
            lemma_status_byte_parts(PROGRAM_CHANGE_KIND, channel);
        },
        MidiMessage::PitchBend { channel, lsb, msb } => {
            lemma_status_byte_parts(PITCH_BEND_KIND, channel);
        },
        MidiMessage::Other { bytes } => {
        },
    }
}

/// Decode a raw 1-3 byte message into its structured form.
///
/// Succeeds exactly on well-formed raw messages; a message whose length does
/// not fit its kind is rejected.  Unrecognized kinds are carried verbatim.
pub fn classify(bytes: &Vec<u8>) -> (r: Result<MidiMessage, RouteError>)
    ensures
        r is Ok <==> well_formed_wire(bytes@),
        r matches Ok(m) ==> classifies_to(bytes@, m),
{
    if bytes.len() == 0 || bytes.len() > 3 {
        return Err(RouteError::MalformedMessage);
    }
    let status = bytes[0];
    let kind = status / 16;
    let channel = status % 16;
    if kind == NOTE_ON_KIND {
        if bytes.len() != 3 {
            Err(RouteError::MalformedMessage)
        } else {
            Ok(MidiMessage::NoteOn { channel, note: bytes[1], velocity: bytes[2] })
        }
    } else if kind == NOTE_OFF_KIND {
        if bytes.len() != 3 {
            Err(RouteError::MalformedMessage)
        } else {
            Ok(MidiMessage::NoteOff { channel, note: bytes[1], velocity: bytes[2] })
        }
    } else if kind == PROGRAM_CHANGE_KIND {
        if bytes.len() != 2 {
            Err(RouteError::MalformedMessage)
        } else {
            Ok(MidiMessage::ProgramChange { channel, program: bytes[1] })
        }
    } else if kind == PITCH_BEND_KIND {
        if bytes.len() != 3 {
            Err(RouteError::MalformedMessage)
        } else {
            Ok(MidiMessage::PitchBend { channel, lsb: bytes[1], msb: bytes[2] })
        }
    } else {
        let mut copy: Vec<u8> = Vec::new();
        let mut i: usize = 0;
        while i < bytes.len()
            invariant
                i <= bytes@.len(),
                copy@ == bytes@.subrange(0, i as int),
            decreases bytes@.len() - i,
        {
            copy.push(bytes[i]);
            assert(copy@ =~= bytes@.subrange(0, i + 1));
            i = i + 1;
        }
        assert(copy@ =~= bytes@);
        Ok(MidiMessage::Other { bytes: copy })
    }
}

/// Serialize a structured message back into its wire bytes, preserving byte
/// order and message length exactly as the kind dictates.
pub fn encode(m: &MidiMessage) -> (r: Vec<u8>)
    requires
        message_valid(*m),
    ensures
        r@ == spec_encode(*m),
{
    match m {
        MidiMessage::NoteOn { channel, note, velocity } => {
            let status: u8 = NOTE_ON_KIND * 16 + *channel;
            let mut r: Vec<u8> = Vec::new();
            r.push(status);
            r.push(*note);
            r.push(*velocity);
            assert(r@ =~= spec_encode(*m));
            r
        },
        MidiMessage::NoteOff { channel, note, velocity } => {
            let status: u8 = NOTE_OFF_KIND * 16 + *channel;
            let mut r: Vec<u8> = Vec::new();
            r.push(status);
            r.push(*note);
            r.push(*velocity);
            assert(r@ =~= spec_encode(*m));
            r
        },
        MidiMessage::ProgramChange { channel, program } => {
            let status: u8 = PROGRAM_CHANGE_KIND * 16 + *channel;
            let mut r: Vec<u8> = Vec::new();
            r.push(status);
            r.push(*program);
            assert(r@ =~= spec_encode(*m));
            r
        },
        MidiMessage::PitchBend { channel, lsb, msb } => {
            let status: u8 = PITCH_BEND_KIND * 16 + *channel;
            let mut r: Vec<u8> = Vec::new();
            r.push(status);
            r.push(*lsb);
            r.push(*msb);
            assert(r@ =~= spec_encode(*m));
            r
        },
        MidiMessage::Other { bytes } => {
            let mut r: Vec<u8> = Vec::new();
            let mut i: usize = 0;
            while i < bytes.len()
                invariant
                    i <= bytes@.len(),
                    r@ == bytes@.subrange(0, i as int),
                decreases bytes@.len() - i,
            {
                r.push(bytes[i]);
                assert(r@ =~= bytes@.subrange(0, i + 1));
                i = i + 1;
            }
            assert(r@ =~= bytes@);
            r
        },
    }
}

} // verus!
