//! Replay semantics for whole runs of note events: the round-trip law.
//!
//! A [`NoteCommand`] script is run through the allocator's transition
//! functions, and the emitted messages are replayed against each output
//! channel.  The law proved here: along any script that never exceeds the
//! pool's capacity, the replay of every channel is legal — a note-on is only
//! ever emitted on a channel whose previously emitted note event, if any,
//! freed it, and a note-off only on a channel last claimed — and the
//! channel's occupancy after the run is exactly what the emitted history
//! says.  In particular no channel is ever emitted as occupied twice without
//! an intervening free, and on a run that ends with every note released,
//! every emitted note-on has a matching later note-off on the same channel.

use vstd::prelude::*;
use crate::allocator::{
    AllocatorView, lemma_capacity_leaves_free_channel, lemma_lowest_free_props, spec_note_off,
    spec_note_on,
};
use crate::messages::MidiMessage;

verus! {

/// One note event of a run, as the allocator sees it.
pub ghost enum NoteCommand {
    On { channel: u8, note: u8, velocity: u8 },
    Off { note: u8, velocity: u8 },
}

/// One allocator transition.
pub open spec fn spec_step(pre: AllocatorView, cmd: NoteCommand) -> (
    AllocatorView,
    Seq<MidiMessage>,
) {
    match cmd {
        NoteCommand::On { channel, note, velocity } => spec_note_on(pre, channel, note, velocity),
        NoteCommand::Off { note, velocity } => spec_note_off(pre, note, velocity),
    }
}

/// The whole run: the final state, and every emitted message in order.
pub open spec fn run_notes(pre: AllocatorView, script: Seq<NoteCommand>) -> (
    AllocatorView,
    Seq<MidiMessage>,
)
    decreases script.len(),
{
    if script.len() == 0 {
        (pre, Seq::<MidiMessage>::empty())
    } else {
        let first = spec_step(pre, script[0]);
        let rest = run_notes(first.0, script.skip(1));
        (rest.0, first.1 + rest.1)
    }
}

/// A command the pool has room for: any note-off, a retrigger, or a fresh
/// note-on while fewer than `pool_size` notes are tracked.
pub open spec fn command_within(pre: AllocatorView, cmd: NoteCommand) -> bool {
    match cmd {
        NoteCommand::On { channel, note, velocity } => channel < 16 && (pre.is_active(note)
            || pre.active_notes().len() < pre.pool_size),
        NoteCommand::Off { .. } => true,
    }
}

/// A script that never exceeds the pool's capacity at any step.
pub open spec fn within_capacity(pre: AllocatorView, script: Seq<NoteCommand>) -> bool
    decreases script.len(),
{
    script.len() == 0 || (command_within(pre, script[0]) && within_capacity(
        spec_step(pre, script[0]).0,
        script.skip(1),
    ))
}

/// Replay the note events of `outs` against channel `c`, starting from
/// occupancy `init`: a note-on claims the channel (illegal if already
/// claimed), a note-off frees it (illegal if already free), every other
/// message is ignored.  `None` marks an illegal history.
pub open spec fn replay_channel(init: bool, outs: Seq<MidiMessage>, c: u8) -> Option<bool>
    decreases outs.len(),
{
    if outs.len() == 0 {
        Some(init)
    } else {
        match outs[0] {
            MidiMessage::NoteOn { channel, .. } => {
                if channel == c {
                    if init {
                        None
                    } else {
                        replay_channel(true, outs.skip(1), c)
                    }
                } else {
                    replay_channel(init, outs.skip(1), c)
                }
            },
            MidiMessage::NoteOff { channel, .. } => {
                if channel == c {
                    if init {
                        replay_channel(false, outs.skip(1), c)
                    } else {
                        None
                    }
                } else {
                    replay_channel(init, outs.skip(1), c)
                }
            },
            _ => replay_channel(init, outs.skip(1), c),
        }
    }
}

/// Replaying a concatenation is replaying the parts in turn, and an illegal
/// prefix stays illegal.
proof fn lemma_replay_concat(init: bool, a: Seq<MidiMessage>, b: Seq<MidiMessage>, c: u8)
    ensures
        replay_channel(init, a + b, c) == (match replay_channel(init, a, c) {
            Some(mid) => replay_channel(mid, b, c),
            None => None::<bool>,
        }),
    decreases a.len(),
{
    if a.len() == 0 {
        assert(a + b =~= b);
    } else {
        assert((a + b)[0] == a[0]);
        assert((a + b).skip(1) =~= a.skip(1) + b);
        match a[0] {
            MidiMessage::NoteOn { channel, .. } => {
                if channel == c {
                    if !init {
                        lemma_replay_concat(true, a.skip(1), b, c);
                    }
                } else {
                    lemma_replay_concat(init, a.skip(1), b, c);
                }
            },
            MidiMessage::NoteOff { channel, .. } => {
                if channel == c {
                    if init {
                        lemma_replay_concat(false, a.skip(1), b, c);
                    }
                } else {
                    lemma_replay_concat(init, a.skip(1), b, c);
                }
            },
            _ => {
                lemma_replay_concat(init, a.skip(1), b, c);
            },
        }
    }
}

/// Replaying a single message moves the occupancy by exactly that message.
proof fn lemma_replay_one(init: bool, m: MidiMessage, c: u8)
    ensures
        replay_channel(init, seq![m], c) == (match m {
            MidiMessage::NoteOn { channel, .. } => {
                if channel == c {
                    if init {
                        None
                    } else {
                        Some(true)
                    }
                } else {
                    Some(init)
                }
            },
            MidiMessage::NoteOff { channel, .. } => {
                if channel == c {
                    if init {
                        Some(false)
                    } else {
                        None
                    }
                } else {
                    Some(init)
                }
            },
            _ => Some(init),
        }),
{
    let s = seq![m];
    assert(s.skip(1) =~= Seq::<MidiMessage>::empty());
    assert(replay_channel(true, s.skip(1), c) == Some(true));
    assert(replay_channel(false, s.skip(1), c) == Some(false));
    assert(replay_channel(init, s.skip(1), c) == Some(init));
}

/// One step within capacity never steals a voice, keeps the state well
/// formed, and emits a history that legally moves each channel from its old
/// occupancy to its new one.
proof fn lemma_step_replay(pre: AllocatorView, cmd: NoteCommand)
    requires
        pre.wf(),
        command_within(pre, cmd),
        pre.clock < u64::MAX,
    ensures
        ({
            let (post, out) = spec_step(pre, cmd);
            &&& post.wf()
            &&& post.pool_size == pre.pool_size
            &&& post.channels.len() == pre.channels.len()
            &&& post.clock <= pre.clock + 1
            &&& forall|c: u8|
                (c as int) < pre.channels.len() ==> replay_channel(
                    (#[trigger] pre.channels[c as int]) is Some,
                    out,
                    c,
                ) == Some(post.channels[c as int] is Some)
        }),
{
    let (post, out) = spec_step(pre, cmd);
    match cmd {
        NoteCommand::On { channel, note, velocity } => {
            if pre.notes[note as int] is Some {
                let t = pre.notes[note as int]->Some_0;
                assert(pre.channels[t.assigned_channel as int] is Some);
                assert(post.wf());
                assert forall|c: u8| (c as int) < pre.channels.len() implies replay_channel(
                    pre.channels[c as int] is Some,
                    out,
                    c,
                ) == Some(post.channels[c as int] is Some) by {}
            } else {
                lemma_capacity_leaves_free_channel(pre);
                let free = pre.lowest_free()->Some_0;
                lemma_lowest_free_props(pre.channels, 0);
                assert(pre.channels[free] is None);
                assert(post.wf());
                let m = MidiMessage::NoteOn { channel: free as u8, note, velocity };
                assert(out == seq![m]);
                assert forall|c: u8| (c as int) < pre.channels.len() implies replay_channel(
                    pre.channels[c as int] is Some,
                    out,
                    c,
                ) == Some(post.channels[c as int] is Some) by {
                    lemma_replay_one(pre.channels[c as int] is Some, m, c);
                    assert(free as u8 == c <==> free == c as int);
                }
            }
        },
        NoteCommand::Off { note, velocity } => {
            if pre.notes[note as int] is Some {
                let t = pre.notes[note as int]->Some_0;
                assert(pre.channels[t.assigned_channel as int] is Some);
                assert(post.wf());
                let m = MidiMessage::NoteOff { channel: t.assigned_channel, note, velocity };
                assert(out == seq![m]);
                assert forall|c: u8| (c as int) < pre.channels.len() implies replay_channel(
                    pre.channels[c as int] is Some,
                    out,
                    c,
                ) == Some(post.channels[c as int] is Some) by {
                    lemma_replay_one(pre.channels[c as int] is Some, m, c);
                }
            } else {
                assert forall|c: u8| (c as int) < pre.channels.len() implies replay_channel(
                    pre.channels[c as int] is Some,
                    out,
                    c,
                ) == Some(post.channels[c as int] is Some) by {}
            }
        },
    }
}

/// The round-trip law.  Along any script of note events that never exceeds
/// the pool's capacity, every channel's emitted history is legal and tracks
/// its occupancy exactly: each emitted note-on claims a channel that the
/// emitted history shows free, each emitted note-off frees a channel the
/// history shows claimed, so no channel is ever emitted as occupied twice
/// without an intervening free.  On a run that starts idle and ends with
/// every note released, the replay of each channel therefore returns to
/// `Some(false)`: every note-on was matched by a later note-off on the same
/// assigned channel.
pub proof fn lemma_round_trip(pre: AllocatorView, script: Seq<NoteCommand>)
    requires
        pre.wf(),
        within_capacity(pre, script),
        pre.clock + script.len() <= u64::MAX,
    ensures
        ({
            let (post, outs) = run_notes(pre, script);
            &&& post.wf()
            &&& post.pool_size == pre.pool_size
            &&& post.channels.len() == pre.channels.len()
            &&& forall|c: u8|
                (c as int) < pre.channels.len() ==> replay_channel(
                    (#[trigger] pre.channels[c as int]) is Some,
                    outs,
                    c,
                ) == Some(post.channels[c as int] is Some)
        }),
    decreases script.len(),
{
    if script.len() > 0 {
        let (mid, out1) = spec_step(pre, script[0]);
        lemma_step_replay(pre, script[0]);
        lemma_round_trip(mid, script.skip(1));
        let (post, rest) = run_notes(mid, script.skip(1));
        assert forall|c: u8| (c as int) < pre.channels.len() implies replay_channel(
            pre.channels[c as int] is Some,
            run_notes(pre, script).1,
            c,
        ) == Some(post.channels[c as int] is Some) by {
            lemma_replay_concat(pre.channels[c as int] is Some, out1, rest, c);
        }
    }
}

} // verus!
