//! The channel-wide relay.
//!
//! Messages that are not per-note never touch the allocator.  With broadcast
//! enabled, a channel-wide message (program change, pitch bend) is re-emitted
//! once on every output channel of the pool, data bytes preserved — including
//! the channel that numerically coincides with the source; that coincidence
//! is deliberately not special-cased.  With broadcast disabled, or for any
//! other kind, the message is forwarded unmodified on its original channel.

use vstd::prelude::*;
use crate::allocator::MAX_POOL_SIZE;
use crate::messages::MidiMessage;

verus! {

/// Whether a message applies to a whole channel rather than a single note.
pub open spec fn is_channel_wide(m: MidiMessage) -> bool {
    ||| m matches MidiMessage::ProgramChange { .. }
    ||| m matches MidiMessage::PitchBend { .. }
}

/// The same message redirected to channel `c` (identity on messages that are
/// not channel-wide).
pub open spec fn with_channel(m: MidiMessage, c: u8) -> MidiMessage {
    match m {
        MidiMessage::ProgramChange { channel, program } => MidiMessage::ProgramChange {
            channel: c,
            program,
        },
        MidiMessage::PitchBend { channel, lsb, msb } => MidiMessage::PitchBend {
            channel: c,
            lsb,
            msb,
        },
        _ => m,
    }
}

/// Decide the fate of a message that is not a note event: one copy per pool
/// channel when broadcast applies, otherwise the message itself, untouched.
pub fn route_non_note(m: MidiMessage, broadcast: bool, pool_size: u8) -> (out: Vec<MidiMessage>)
    requires
        1 <= pool_size <= MAX_POOL_SIZE,
        !(m matches MidiMessage::NoteOn { .. }),
        !(m matches MidiMessage::NoteOff { .. }),
    ensures
        broadcast && is_channel_wide(m) ==> {
            &&& out@.len() == pool_size
            &&& forall|i: int| 0 <= i < out@.len() ==> out@[i] == with_channel(m, i as u8)
        },
        !(broadcast && is_channel_wide(m)) ==> out@ == seq![m],
{
    if broadcast {
        match &m {
            MidiMessage::ProgramChange { channel: _, program } => {
                let data = *program;
                let mut out: Vec<MidiMessage> = Vec::new();
                let mut i: u8 = 0;
                while i < pool_size
                    invariant
                        i <= pool_size,
                        out@.len() == i,
                        m matches MidiMessage::ProgramChange { channel: _, program: p } && p
                            == data,
                        forall|j: int| 0 <= j < i ==> out@[j] == with_channel(m, j as u8),
                    decreases pool_size - i,
                {
                    out.push(MidiMessage::ProgramChange { channel: i, program: data });
                    i = i + 1;
                }
                return out;
            },
            MidiMessage::PitchBend { channel: _, lsb, msb } => {
                let low = *lsb;
                let high = *msb;
                let mut out: Vec<MidiMessage> = Vec::new();
                let mut i: u8 = 0;
                while i < pool_size
                    invariant
                        i <= pool_size,
                        out@.len() == i,
                        m matches MidiMessage::PitchBend { channel: _, lsb: l, msb: h } && l == low
                            && h == high,
                        forall|j: int| 0 <= j < i ==> out@[j] == with_channel(m, j as u8),
                    decreases pool_size - i,
                {
                    out.push(MidiMessage::PitchBend { channel: i, lsb: low, msb: high });
                    i = i + 1;
                }
                return out;
            },
            _ => {},
        }
    }
    let mut out: Vec<MidiMessage> = Vec::new();
    out.push(m);
    assert(out@ =~= seq![m]);
    out
}

} // verus!
