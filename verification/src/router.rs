//! The event router: one step per incoming raw message.
//!
//! [`Router::process`] classifies a raw message, lets the voice allocator
//! decide note events and the relay decide everything else, and serializes
//! the decisions back into wire messages, in the order the decisions were
//! made.  Its contract restates the whole pipeline over plain byte
//! sequences: what each kind of input produces on the output, and how the
//! allocator state moves.

use vstd::prelude::*;
use crate::allocator::{
    AllocatorView, MAX_POOL_SIZE, Tone, Voice, VoiceAllocator, lemma_lowest_free_props,
    lemma_oldest_from_props,
};
use crate::messages::{
    MidiMessage, NOTE_OFF_KIND, NOTE_ON_KIND, PITCH_BEND_KIND, PROGRAM_CHANGE_KIND, RouteError,
    channel_of, classify, encode, kind_of, lemma_classify_encode_id, lemma_status_byte_id,
    message_valid, spec_encode, status_byte, well_formed_wire,
};
use crate::relay::{route_non_note, with_channel};

verus! {

/// The mathematical model of a [`Router`].
pub ghost struct RouterView {
    pub allocator: AllocatorView,
    pub broadcast: bool,
}

/// The wire bytes of a note-on the router emits.
pub open spec fn note_on_bytes(channel: u8, note: u8, velocity: u8) -> Seq<u8> {
    seq![status_byte(NOTE_ON_KIND, channel), note, velocity]
}

/// The wire bytes of a note-off the router emits.
pub open spec fn note_off_bytes(channel: u8, note: u8, velocity: u8) -> Seq<u8> {
    seq![status_byte(NOTE_OFF_KIND, channel), note, velocity]
}

/// Whether a status-byte kind names a channel-wide message.
pub open spec fn channel_wide_kind(kind: u8) -> bool {
    kind == PROGRAM_CHANGE_KIND || kind == PITCH_BEND_KIND
}

/// What one note-on does to the allocator and to the wire output.
///
/// A tracked note is retriggered silently; an untracked note claims the
/// lowest free channel and emits one note-on there; with the pool exhausted
/// it instead steals the oldest channel, the synthetic note-off for the
/// evicted note standing strictly before the new note-on.
pub open spec fn note_on_routing(
    pre: AllocatorView,
    post: AllocatorView,
    channel: u8,
    note: u8,
    velocity: u8,
    outs: Seq<Vec<u8>>,
) -> bool {
    &&& post.pool_size == pre.pool_size
    &&& post.clock == pre.clock + 1
    &&& (pre.notes[note as int] matches Some(t) ==> {
        let t2 = Tone {
            original_channel: t.original_channel,
            assigned_channel: t.assigned_channel,
            started_at: pre.clock,
        };
        &&& outs.len() == 0
        &&& post.notes == pre.notes.update(note as int, Some(t2))
        &&& post.channels == pre.channels.update(
            t.assigned_channel as int,
            Some(Voice { note_index: note, tone: t2 }),
        )
    })
    &&& (!pre.is_active(note) ==> (pre.lowest_free() matches Some(c) ==> {
        let t = Tone { original_channel: channel, assigned_channel: c as u8, started_at: pre.clock };
        &&& outs.len() == 1
        &&& outs[0]@ == note_on_bytes(c as u8, note, velocity)
        &&& post.notes == pre.notes.update(note as int, Some(t))
        &&& post.channels == pre.channels.update(c, Some(Voice { note_index: note, tone: t }))
    }))
    &&& (!pre.is_active(note) && pre.lowest_free() is None ==> {
        let e = pre.oldest_occupied();
        pre.channels[e] matches Some(ev) && {
            let t = Tone {
                original_channel: channel,
                assigned_channel: e as u8,
                started_at: pre.clock,
            };
            &&& outs.len() == 2
            &&& outs[0]@ == note_off_bytes(e as u8, ev.note_index, velocity)
            &&& outs[1]@ == note_on_bytes(e as u8, note, velocity)
            &&& post.notes == pre.notes.update(ev.note_index as int, None).update(
                note as int,
                Some(t),
            )
            &&& post.channels == pre.channels.update(e, Some(Voice { note_index: note, tone: t }))
        }
    })
}

/// What one note-off does: a tracked note frees exactly its channel and one
/// note-off goes out there; an untracked note changes and emits nothing.
pub open spec fn note_off_routing(
    pre: AllocatorView,
    post: AllocatorView,
    note: u8,
    velocity: u8,
    outs: Seq<Vec<u8>>,
) -> bool {
    &&& post.pool_size == pre.pool_size
    &&& post.clock == pre.clock
    &&& (pre.notes[note as int] matches Some(t) ==> {
        &&& outs.len() == 1
        &&& outs[0]@ == note_off_bytes(t.assigned_channel, note, velocity)
        &&& post.notes == pre.notes.update(note as int, None)
        &&& post.channels == pre.channels.update(t.assigned_channel as int, None)
    })
    &&& (!pre.is_active(note) ==> outs.len() == 0 && post == pre)
}

/// What a message that is not a note event produces: with broadcast on, one
/// copy per pool channel, the status channel nibble rewritten and the data
/// bytes kept; otherwise the input bytes unchanged.
pub open spec fn non_note_routing(
    broadcast: bool,
    pool_size: u8,
    b: Seq<u8>,
    outs: Seq<Vec<u8>>,
) -> bool {
    &&& (broadcast && channel_wide_kind(kind_of(b[0])) ==> {
        &&& outs.len() == pool_size
        &&& forall|i: int|
            0 <= i < outs.len() ==> (#[trigger] outs[i])@ == b.update(
                0,
                status_byte(kind_of(b[0]), i as u8),
            )
    })
    &&& (!(broadcast && channel_wide_kind(kind_of(b[0]))) ==> outs.len() == 1 && outs[0]@ == b)
}

/// The router: the voice allocator plus the broadcast configuration flag.
pub struct Router {
    allocator: VoiceAllocator,
    broadcast: bool,
}

impl View for Router {
    type V = RouterView;

    closed spec fn view(&self) -> RouterView {
        RouterView { allocator: self.allocator@, broadcast: self.broadcast }
    }
}

/// Serialize each decided message, in order.
fn encode_all(msgs: &Vec<MidiMessage>) -> (r: Vec<Vec<u8>>)
    requires
        forall|i: int| 0 <= i < msgs@.len() ==> message_valid(#[trigger] msgs@[i]),
    ensures
        r@.len() == msgs@.len(),
        forall|i: int| 0 <= i < msgs@.len() ==> (#[trigger] r@[i])@ == spec_encode(msgs@[i]),
{
    let mut r: Vec<Vec<u8>> = Vec::new();
    let mut i: usize = 0;
    while i < msgs.len()
        invariant
            i <= msgs@.len(),
            r@.len() == i,
            forall|j: int| 0 <= j < msgs@.len() ==> message_valid(#[trigger] msgs@[j]),
            forall|j: int| 0 <= j < i ==> (#[trigger] r@[j])@ == spec_encode(msgs@[j]),
        decreases msgs@.len() - i,
    {
        r.push(encode(&msgs[i]));
        i = i + 1;
    }
    r
}

impl Router {
    /// A router over a fresh allocator.
    pub fn new(pool_size: u8, broadcast_channel_wide_events: bool) -> (r: Self)
        requires
            1 <= pool_size <= MAX_POOL_SIZE,
        ensures
            r@.allocator.wf(),
            r@.allocator.pool_size == pool_size,
            r@.allocator.clock == 0,
            r@.broadcast == broadcast_channel_wide_events,
            forall|n: int| 0 <= n < r@.allocator.notes.len() ==> r@.allocator.notes[n] is None,
            forall|c: int|
                0 <= c < r@.allocator.channels.len() ==> r@.allocator.channels[c] is None,
    {
        Router {
            allocator: VoiceAllocator::new(pool_size),
            broadcast: broadcast_channel_wide_events,
        }
    }

    pub fn broadcast_enabled(&self) -> (r: bool)
        ensures
            r == self@.broadcast,
    {
        self.broadcast
    }

    pub fn pool_size(&self) -> (r: u8)
        ensures
            r == self@.allocator.pool_size,
    {
        self.allocator.pool_size()
    }

    /// Whether another event can still be stamped: the logical clock has not
    /// run out (it never will in practice, but the machine limit is real).
    pub fn can_accept(&self) -> (r: bool)
        ensures
            r == (self@.allocator.clock < u64::MAX),
    {
        self.allocator.clock_value() < u64::MAX
    }

    /// A read-only look at the allocator, for observation and diagnostics.
    pub fn voice_allocator(&self) -> (r: &VoiceAllocator)
        ensures
            r@ == self@.allocator,
    {
        &self.allocator
    }

    /// Route one raw message, returning the wire messages to send, in order.
    ///
    /// Fails exactly on a message whose length does not fit its kind; such a
    /// message leaves the state untouched, so processing continues with the
    /// next event.
    pub fn process(&mut self, bytes: &Vec<u8>) -> (r: Result<Vec<Vec<u8>>, RouteError>)
        requires
            old(self)@.allocator.wf(),
            old(self)@.allocator.clock < u64::MAX,
        ensures
            final(self)@.allocator.wf(),
            final(self)@.broadcast == old(self)@.broadcast,
            final(self)@.allocator.pool_size == old(self)@.allocator.pool_size,
            r is Ok <==> well_formed_wire(bytes@),
            r is Err ==> final(self)@ == old(self)@,
            (r matches Ok(outs) ==> {
                let b = bytes@;
                let k = kind_of(b[0]);
                &&& (k == NOTE_ON_KIND ==> note_on_routing(
                    old(self)@.allocator,
                    final(self)@.allocator,
                    channel_of(b[0]),
                    b[1],
                    b[2],
                    outs@,
                ))
                &&& (k == NOTE_OFF_KIND ==> note_off_routing(
                    old(self)@.allocator,
                    final(self)@.allocator,
                    b[1],
                    b[2],
                    outs@,
                ))
                &&& (!(k == NOTE_ON_KIND || k == NOTE_OFF_KIND) ==> {
                    &&& final(self)@.allocator == old(self)@.allocator
                    &&& non_note_routing(
                        old(self)@.broadcast,
                        old(self)@.allocator.pool_size,
                        b,
                        outs@,
                    )
                })
            }),
    {
        let m = match classify(bytes) {
            Ok(m) => m,
            Err(e) => {
                return Err(e);
            },
        };
        proof {
            lemma_status_byte_id(bytes@[0]);
        }
        match m {
            MidiMessage::NoteOn { channel, note, velocity } => {
                proof {
                    lemma_lowest_free_props(self@.allocator.channels, 0);
                    if self@.allocator.lowest_free() is None {
                        lemma_oldest_from_props(self@.allocator.channels, 1, 0);
                    }
                }
                let logical = self.allocator.note_on(channel, note, velocity);
                Ok(encode_all(&logical))
            },
            MidiMessage::NoteOff { channel: _, note, velocity } => {
                let logical = self.allocator.note_off(note, velocity);
                Ok(encode_all(&logical))
            },
            other => {
                proof {
                    lemma_classify_encode_id(bytes@, other);
                }
                let pool_size = self.allocator.pool_size();
                let logical = route_non_note(other, self.broadcast, pool_size);
                let ghost b = bytes@;
                let ghost k = kind_of(b[0]);
                proof {
                    if self.broadcast && channel_wide_kind(k) {
                        assert forall|i: int| 0 <= i < logical@.len() implies message_valid(
                            #[trigger] logical@[i],
                        ) by {
                            assert(logical@[i] == with_channel(other, i as u8));
                        }
                        assert forall|i: int| 0 <= i < logical@.len() implies spec_encode(
                            logical@[i],
                        ) == b.update(0, status_byte(k, i as u8)) by {
                            assert(logical@[i] == with_channel(other, i as u8));
                            assert(spec_encode(with_channel(other, i as u8)) =~= b.update(
                                0,
                                status_byte(k, i as u8),
                            ));
                        }
                    } else {
                        assert(logical@ == seq![other]);
                    }
                }
                Ok(encode_all(&logical))
            },
        }
    }
}

} // verus!
