//! The voice allocator: the core state machine.
//!
//! The allocator owns two tables that mirror each other.  The note table maps
//! each MIDI note number to the [`Tone`] currently sounding for it, if any;
//! the channel table holds, for each output channel of the pool, the note
//! occupying it.  The well-formedness predicate [`AllocatorView::wf`] states
//! the bidirectional consistency between them: every tracked note occupies
//! exactly its assigned channel, and every occupied channel is held by
//! exactly the note recorded in it.
//!
//! A note-on for an untracked note claims the lowest-indexed free channel;
//! when the pool is exhausted, the occupied channel whose tone has the
//! smallest `started_at` is stolen (ties broken by the lowest channel index —
//! a deliberate, deterministic choice), and a synthetic note-off for the
//! evicted note is emitted strictly before the new note-on.  A note-on for an
//! already-tracked note is a retrigger: it only refreshes the recency stamp.
//! A note-off frees exactly the channel of its note; a note-off for an
//! untracked note (typically one evicted earlier) changes nothing and emits
//! nothing.
//!
//! Recency is a monotonic logical counter, not wall-clock time: only the
//! ordering of assignments matters for the tie-break.

use vstd::prelude::*;
use vstd::set_lib::{lemma_int_range, lemma_len_subset, lemma_map_size, set_int_range};
use vstd::relations::injective_on;
use crate::messages::MidiMessage;

verus! {

/// One entry per possible MIDI note number.
pub const NOTE_TABLE_SIZE: usize = 256;

/// The channel pool can use at most the sixteen channels a status byte can name.
pub const MAX_POOL_SIZE: u8 = 16;

/// The default pool size.
pub const DEFAULT_POOL_SIZE: u8 = 3;

/// One currently-sounding note.
#[derive(Clone, Copy, Debug, PartialEq, Eq, Structural)]
pub struct Tone {
    /// The input channel the note arrived on (0-15).
    pub original_channel: u8,
    /// The output channel it currently occupies.
    pub assigned_channel: u8,
    /// Logical counter value at (re-)assignment; breaks ties among
    /// simultaneously-active tones.
    pub started_at: u64,
}

/// A channel-table slot: the note occupying the channel, with its tone.
#[derive(Clone, Copy, Debug, PartialEq, Eq, Structural)]
pub struct Voice {
    pub note_index: u8,
    pub tone: Tone,
}

/// The mathematical model of a [`VoiceAllocator`].
pub ghost struct AllocatorView {
    /// Note table: entry `n` is the tone sounding for note `n`, if any.
    pub notes: Seq<Option<Tone>>,
    /// Channel table: entry `c` is the voice occupying output channel `c`, if any.
    pub channels: Seq<Option<Voice>>,
    pub pool_size: u8,
    /// The next recency stamp to hand out.
    pub clock: u64,
}

/// The recency stamp of the voice on channel `c` (0 if the slot is free; only
/// meaningful where all channels are occupied).
pub open spec fn slot_started(channels: Seq<Option<Voice>>, c: int) -> u64 {
    match channels[c] {
        Some(v) => v.tone.started_at,
        None => 0,
    }
}

/// The lowest index at or after `i` whose channel slot is free.
pub open spec fn lowest_free_from(channels: Seq<Option<Voice>>, i: int) -> Option<int>
    decreases channels.len() - i,
{
    if i < 0 || i >= channels.len() {
        None
    } else if channels[i] is None {
        Some(i)
    } else {
        lowest_free_from(channels, i + 1)
    }
}

/// The index of the slot with the smallest recency stamp, scanning from `i`
/// with `best` the winner so far; only the first slot attaining the minimum
/// replaces `best`, so the lowest index wins ties.
pub open spec fn oldest_from(channels: Seq<Option<Voice>>, i: int, best: int) -> int
    decreases channels.len() - i,
{
    if i < 0 || i >= channels.len() {
        best
    } else if slot_started(channels, i) < slot_started(channels, best) {
        oldest_from(channels, i + 1, i)
    } else {
        oldest_from(channels, i + 1, best)
    }
}

impl AllocatorView {
    /// Bidirectional consistency of the two tables, and bounds on every field.
    pub open spec fn wf(self) -> bool {
        &&& self.notes.len() == NOTE_TABLE_SIZE
        &&& 1 <= self.pool_size <= MAX_POOL_SIZE
        &&& self.channels.len() == self.pool_size
        &&& forall|n: int|
            0 <= n < self.notes.len() ==> ((#[trigger] self.notes[n]) matches Some(t) ==> {
                &&& t.original_channel < 16
                &&& t.assigned_channel < self.pool_size
                &&& t.started_at < self.clock
                &&& self.channels[t.assigned_channel as int] == Some(
                    Voice { note_index: n as u8, tone: t },
                )
            })
        &&& forall|c: int|
            0 <= c < self.channels.len() ==> ((#[trigger] self.channels[c]) matches Some(v) ==> {
                &&& v.tone.assigned_channel == c
                &&& self.notes[v.note_index as int] == Some(v.tone)
            })
    }

    /// Whether a tone is currently tracked for `note`.
    pub open spec fn is_active(self, note: u8) -> bool {
        self.notes[note as int] is Some
    }

    /// The lowest-indexed free channel, if any.
    pub open spec fn lowest_free(self) -> Option<int> {
        lowest_free_from(self.channels, 0)
    }

    /// The channel stolen under pool exhaustion: smallest recency stamp,
    /// lowest index among ties.
    pub open spec fn oldest_occupied(self) -> int {
        oldest_from(self.channels, 1, 0)
    }

    pub open spec fn all_occupied(self) -> bool {
        forall|c: int| 0 <= c < self.channels.len() ==> self.channels[c] is Some
    }

    /// The set of note numbers with a tracked tone.
    pub open spec fn active_notes(self) -> Set<int> {
        Set::new(|n: int| 0 <= n < self.notes.len() && self.notes[n] is Some)
    }

    /// The set of occupied output channels.
    pub open spec fn occupied_channels(self) -> Set<int> {
        Set::new(|c: int| 0 <= c < self.channels.len() && self.channels[c] is Some)
    }

    /// The channel assigned to a note (-1 where none is tracked).
    pub open spec fn assignment(self) -> spec_fn(int) -> int {
        |n: int|
            match self.notes[n] {
                Some(t) => t.assigned_channel as int,
                None => -1,
            }
    }
}

/// The note-on transition as a function of the model: the post-state and the
/// messages emitted, in order.  [`VoiceAllocator::note_on`] is proved to
/// implement exactly this function.
pub open spec fn spec_note_on(
    pre: AllocatorView,
    channel: u8,
    note: u8,
    velocity: u8,
) -> (AllocatorView, Seq<MidiMessage>)
    recommends
        pre.wf(),
        pre.clock < u64::MAX,
{
    if pre.notes[note as int] is Some {
        let t = pre.notes[note as int]->Some_0;
        let t2 = Tone {
            original_channel: t.original_channel,
            assigned_channel: t.assigned_channel,
            started_at: pre.clock,
        };
        (
            AllocatorView {
                notes: pre.notes.update(note as int, Some(t2)),
                channels: pre.channels.update(
                    t.assigned_channel as int,
                    Some(Voice { note_index: note, tone: t2 }),
                ),
                pool_size: pre.pool_size,
                clock: (pre.clock + 1) as u64,
            },
            Seq::<MidiMessage>::empty(),
        )
    } else if pre.lowest_free() is Some {
        let c = pre.lowest_free()->Some_0;
        let t = Tone { original_channel: channel, assigned_channel: c as u8, started_at: pre.clock };
        (
            AllocatorView {
                notes: pre.notes.update(note as int, Some(t)),
                channels: pre.channels.update(c, Some(Voice { note_index: note, tone: t })),
                pool_size: pre.pool_size,
                clock: (pre.clock + 1) as u64,
            },
            seq![MidiMessage::NoteOn { channel: c as u8, note, velocity }],
        )
    } else {
        let e = pre.oldest_occupied();
        let ev = pre.channels[e]->Some_0;
        let t = Tone { original_channel: channel, assigned_channel: e as u8, started_at: pre.clock };
        (
            AllocatorView {
                notes: pre.notes.update(ev.note_index as int, None).update(note as int, Some(t)),
                channels: pre.channels.update(e, Some(Voice { note_index: note, tone: t })),
                pool_size: pre.pool_size,
                clock: (pre.clock + 1) as u64,
            },
            seq![
                MidiMessage::NoteOff { channel: e as u8, note: ev.note_index, velocity },
                MidiMessage::NoteOn { channel: e as u8, note, velocity },
            ],
        )
    }
}

/// The note-off transition as a function of the model.
/// [`VoiceAllocator::note_off`] is proved to implement exactly this function.
pub open spec fn spec_note_off(pre: AllocatorView, note: u8, velocity: u8) -> (
    AllocatorView,
    Seq<MidiMessage>,
)
    recommends
        pre.wf(),
{
    if pre.notes[note as int] is Some {
        let t = pre.notes[note as int]->Some_0;
        (
            AllocatorView {
                notes: pre.notes.update(note as int, None),
                channels: pre.channels.update(t.assigned_channel as int, None),
                pool_size: pre.pool_size,
                clock: pre.clock,
            },
            seq![MidiMessage::NoteOff { channel: t.assigned_channel, note, velocity }],
        )
    } else {
        (pre, Seq::<MidiMessage>::empty())
    }
}

/// The tracked notes and the occupied channels are in exact bijection: the
/// assignment map sends the active notes one-to-one onto the occupied
/// channels, so the two tables always agree in size.
pub proof fn lemma_note_channel_bijection(v: AllocatorView)
    requires
        v.wf(),
    ensures
        v.active_notes().finite(),
        v.occupied_channels().finite(),
        injective_on(v.assignment(), v.active_notes()),
        v.active_notes().map(v.assignment()) == v.occupied_channels(),
        v.active_notes().len() == v.occupied_channels().len(),
{
    let notes = v.active_notes();
    let channels = v.occupied_channels();
    let f = v.assignment();
    lemma_int_range(0, v.notes.len() as int);
    lemma_len_subset(notes, set_int_range(0, v.notes.len() as int));
    lemma_int_range(0, v.channels.len() as int);
    lemma_len_subset(channels, set_int_range(0, v.channels.len() as int));
    assert forall|n1: int, n2: int|
        notes.contains(n1) && notes.contains(n2) && #[trigger] f(n1) == #[trigger] f(n2)
    implies n1 == n2 by {
        let t1 = v.notes[n1]->Some_0;
        let t2 = v.notes[n2]->Some_0;
        assert(v.channels[t1.assigned_channel as int] == Some(
            Voice { note_index: n1 as u8, tone: t1 },
        ));
        assert(v.channels[t2.assigned_channel as int] == Some(
            Voice { note_index: n2 as u8, tone: t2 },
        ));
    }
    assert forall|c: int| channels.contains(c) implies notes.map(f).contains(c) by {
        let voice = v.channels[c]->Some_0;
        let n = voice.note_index as int;
        assert(v.notes[n] == Some(voice.tone));
        assert(notes.contains(n) && f(n) == c);
    }
    assert forall|c: int| notes.map(f).contains(c) implies channels.contains(c) by {
        let n = choose|n: int| notes.contains(n) && f(n) == c;
        let t = v.notes[n]->Some_0;
        assert(v.channels[t.assigned_channel as int] == Some(
            Voice { note_index: n as u8, tone: t },
        ));
    }
    assert(notes.map(f) =~= channels);
    lemma_map_size(notes, channels, f);
}

/// The polyphony ceiling: the pool size is never exceeded — at most
/// `pool_size` distinct notes are tracked, hence sound downstream, at once.
pub proof fn lemma_polyphony_ceiling(v: AllocatorView)
    requires
        v.wf(),
    ensures
        v.active_notes().finite(),
        v.active_notes().len() <= v.pool_size,
{
    lemma_note_channel_bijection(v);
    lemma_int_range(0, v.channels.len() as int);
    lemma_len_subset(v.occupied_channels(), set_int_range(0, v.channels.len() as int));
}

/// What the free-channel scan finds: the lowest free index, every slot below
/// it occupied; or, when it finds nothing, every slot occupied.
pub proof fn lemma_lowest_free_props(channels: Seq<Option<Voice>>, i: int)
    requires
        0 <= i <= channels.len(),
    ensures
        (lowest_free_from(channels, i) matches Some(c) ==> {
            &&& i <= c < channels.len()
            &&& channels[c] is None
            &&& forall|j: int| i <= j < c ==> channels[j] is Some
        }),
        lowest_free_from(channels, i) is None ==> forall|j: int|
            i <= j < channels.len() ==> channels[j] is Some,
    decreases channels.len() - i,
{
    if i < channels.len() && !(channels[i] is None) {
        lemma_lowest_free_props(channels, i + 1);
    }
}

/// What the eviction scan returns: an index in range whose recency stamp is
/// minimal over `best` and the unscanned tail, strictly better than `best`
/// when it moved, and strictly better than everything scanned before it.
pub proof fn lemma_oldest_from_props(channels: Seq<Option<Voice>>, i: int, best: int)
    requires
        0 <= best < i <= channels.len(),
    ensures
        ({
            let r = oldest_from(channels, i, best);
            &&& 0 <= r < channels.len()
            &&& (r == best || i <= r)
            &&& slot_started(channels, r) <= slot_started(channels, best)
            &&& forall|j: int|
                i <= j < channels.len() ==> slot_started(channels, r) <= slot_started(channels, j)
            &&& (r != best ==> slot_started(channels, r) < slot_started(channels, best))
            &&& forall|j: int| i <= j < r ==> slot_started(channels, j) > slot_started(channels, r)
        }),
    decreases channels.len() - i,
{
    if i < channels.len() {
        if slot_started(channels, i) < slot_started(channels, best) {
            lemma_oldest_from_props(channels, i + 1, i);
        } else {
            lemma_oldest_from_props(channels, i + 1, best);
        }
    }
}

/// The eviction tie-break: among occupied channels, the chosen one holds the
/// tone with the smallest recency stamp, and among channels tied for the
/// smallest stamp the lowest index is chosen.
pub proof fn lemma_eviction_picks_oldest(v: AllocatorView)
    requires
        v.wf(),
        v.all_occupied(),
    ensures
        ({
            let e = v.oldest_occupied();
            &&& 0 <= e < v.channels.len()
            &&& forall|c: int|
                0 <= c < v.channels.len() ==> slot_started(v.channels, e) <= slot_started(
                    v.channels,
                    c,
                )
            &&& forall|c: int|
                0 <= c < v.channels.len() && slot_started(v.channels, c) == slot_started(
                    v.channels,
                    e,
                ) ==> e <= c
        }),
{
    let e = v.oldest_occupied();
    lemma_oldest_from_props(v.channels, 1, 0);
    assert forall|c: int|
        0 <= c < v.channels.len() && slot_started(v.channels, c) == slot_started(v.channels, e)
    implies e <= c by {
        if c < e {
            if c == 0 {
                assert(e != 0);
                assert(slot_started(v.channels, e) < slot_started(v.channels, 0));
            } else {
                assert(slot_started(v.channels, c) > slot_started(v.channels, e));
            }
        }
    }
}

/// While the pool is not full, a free channel exists, so a fresh note-on
/// never needs to steal: along any run of note-on/note-off pairs that stays
/// under the ceiling, every note-on claims a channel that was free and its
/// later note-off releases that same channel.
pub proof fn lemma_capacity_leaves_free_channel(v: AllocatorView)
    requires
        v.wf(),
        v.active_notes().len() < v.pool_size,
    ensures
        (v.lowest_free() matches Some(c) && {
            &&& 0 <= c < v.channels.len()
            &&& v.channels[c] is None
        }),
{
    lemma_lowest_free_props(v.channels, 0);
    if v.lowest_free() is None {
        assert(v.occupied_channels() =~= set_int_range(0, v.channels.len() as int));
        lemma_int_range(0, v.channels.len() as int);
        lemma_note_channel_bijection(v);
    }
}

/// The voice allocator.  Both tables are owned and mutated exclusively here,
/// within a single thread of control; every transition is synchronous and at
/// worst one scan of the channel pool.
pub struct VoiceAllocator {
    notes: Vec<Option<Tone>>,
    channels: Vec<Option<Voice>>,
    pool_size: u8,
    clock: u64,
}

impl View for VoiceAllocator {
    type V = AllocatorView;

    closed spec fn view(&self) -> AllocatorView {
        AllocatorView {
            notes: self.notes@,
            channels: self.channels@,
            pool_size: self.pool_size,
            clock: self.clock,
        }
    }
}

impl VoiceAllocator {
    /// A fresh allocator: every note untracked, every channel free.
    pub fn new(pool_size: u8) -> (r: Self)
        requires
            1 <= pool_size <= MAX_POOL_SIZE,
        ensures
            r@.wf(),
            r@.pool_size == pool_size,
            r@.clock == 0,
            forall|n: int| 0 <= n < r@.notes.len() ==> r@.notes[n] is None,
            forall|c: int| 0 <= c < r@.channels.len() ==> r@.channels[c] is None,
    {
        let mut notes: Vec<Option<Tone>> = Vec::new();
        let mut i: usize = 0;
        while i < NOTE_TABLE_SIZE
            invariant
                i <= NOTE_TABLE_SIZE,
                notes@.len() == i,
                forall|n: int| 0 <= n < i ==> notes@[n] is None,
            decreases NOTE_TABLE_SIZE - i,
        {
            notes.push(None);
            i = i + 1;
        }
        let mut channels: Vec<Option<Voice>> = Vec::new();
        let mut c: usize = 0;
        while c < pool_size as usize
            invariant
                c <= pool_size as usize,
                channels@.len() == c,
                forall|j: int| 0 <= j < c ==> channels@[j] is None,
            decreases pool_size as usize - c,
        {
            channels.push(None);
            c = c + 1;
        }
        VoiceAllocator { notes, channels, pool_size, clock: 0 }
    }

    pub fn pool_size(&self) -> (r: u8)
        ensures
            r == self@.pool_size,
    {
        self.pool_size
    }

    /// The next recency stamp the allocator would hand out.
    pub fn clock_value(&self) -> (r: u64)
        ensures
            r == self@.clock,
    {
        self.clock
    }

    /// The tone currently tracked for `note`, if any.
    pub fn tone_for(&self, note: u8) -> (r: Option<Tone>)
        requires
            self@.wf(),
        ensures
            r == self@.notes[note as int],
    {
        self.notes[note as usize]
    }

    /// The voice occupying output channel `channel`, if any.
    pub fn voice_on(&self, channel: u8) -> (r: Option<Voice>)
        requires
            self@.wf(),
            channel < self@.pool_size,
        ensures
            r == self@.channels[channel as int],
    {
        self.channels[channel as usize]
    }

    /// The lowest-indexed free channel, or `None` when the pool is exhausted.
    fn find_free_channel(&self) -> (r: Option<u8>)
        requires
            self@.wf(),
        ensures
            (r matches Some(c) ==> self@.lowest_free() == Some(c as int)),
            r is None ==> self@.lowest_free() is None,
    {
        let mut c: usize = 0;
        while c < self.channels.len()
            invariant
                self@.wf(),
                c <= self@.channels.len(),
                lowest_free_from(self@.channels, 0) == lowest_free_from(self@.channels, c as int),
            decreases self@.channels.len() - c,
        {
            if self.channels[c].is_none() {
                return Some(c as u8);
            }
            c = c + 1;
        }
        None
    }

    /// The channel to steal: smallest recency stamp, lowest index on a tie.
    fn find_oldest_channel(&self) -> (r: u8)
        requires
            self@.wf(),
            self@.all_occupied(),
        ensures
            r as int == self@.oldest_occupied(),
            r < self@.pool_size,
    {
        let mut best: usize = 0;
        let mut c: usize = 1;
        while c < self.channels.len()
            invariant
                self@.wf(),
                self@.all_occupied(),
                self@.channels.len() >= 1,
                0 <= best < c <= self@.channels.len(),
                oldest_from(self@.channels, 1, 0) == oldest_from(
                    self@.channels,
                    c as int,
                    best as int,
                ),
            decreases self@.channels.len() - c,
        {
            let candidate = self.channels[c].unwrap();
            let incumbent = self.channels[best].unwrap();
            if candidate.tone.started_at < incumbent.tone.started_at {
                best = c;
            }
            c = c + 1;
        }
        proof {
            lemma_oldest_from_props(self@.channels, 1, 0);
        }
        best as u8
    }

    /// Handle a note-on.
    ///
    /// A note already tracked is retriggered: only its recency stamp changes,
    /// its channel assignment stays, and nothing is emitted.  An untracked
    /// note claims the lowest free channel; with the pool exhausted it steals
    /// the channel of the oldest tone instead, and the synthetic note-off for
    /// the evicted note stands in the output strictly before the new note-on.
    /// The synthetic note-off carries the incoming velocity.
    pub fn note_on(&mut self, channel: u8, note: u8, velocity: u8) -> (out: Vec<MidiMessage>)
        requires
            old(self)@.wf(),
            channel < 16,
            old(self)@.clock < u64::MAX,
        ensures
            final(self)@.wf(),
            final(self)@.pool_size == old(self)@.pool_size,
            final(self)@.clock == old(self)@.clock + 1,
            (final(self)@, out@) == spec_note_on(old(self)@, channel, note, velocity),
            (old(self)@.notes[note as int] matches Some(t) ==> {
                let t2 = Tone {
                    original_channel: t.original_channel,
                    assigned_channel: t.assigned_channel,
                    started_at: old(self)@.clock,
                };
                &&& out@ == Seq::<MidiMessage>::empty()
                &&& final(self)@.notes == old(self)@.notes.update(note as int, Some(t2))
                &&& final(self)@.channels == old(self)@.channels.update(
                    t.assigned_channel as int,
                    Some(Voice { note_index: note, tone: t2 }),
                )
            }),
            (!old(self)@.is_active(note) ==> (old(self)@.lowest_free() matches Some(c) ==> {
                let t = Tone {
                    original_channel: channel,
                    assigned_channel: c as u8,
                    started_at: old(self)@.clock,
                };
                &&& out@ == seq![MidiMessage::NoteOn { channel: c as u8, note, velocity }]
                &&& final(self)@.notes == old(self)@.notes.update(note as int, Some(t))
                &&& final(self)@.channels == old(self)@.channels.update(
                    c,
                    Some(Voice { note_index: note, tone: t }),
                )
            })),
            (!old(self)@.is_active(note) && old(self)@.lowest_free() is None ==> {
                let e = old(self)@.oldest_occupied();
                old(self)@.channels[e] matches Some(ev) && {
                    let t = Tone {
                        original_channel: channel,
                        assigned_channel: e as u8,
                        started_at: old(self)@.clock,
                    };
                    &&& out@ == seq![
                        MidiMessage::NoteOff { channel: e as u8, note: ev.note_index, velocity },
                        MidiMessage::NoteOn { channel: e as u8, note, velocity },
                    ]
                    &&& final(self)@.notes == old(self)@.notes.update(
                        ev.note_index as int,
                        None,
                    ).update(note as int, Some(t))
                    &&& final(self)@.channels == old(self)@.channels.update(
                        e,
                        Some(Voice { note_index: note, tone: t }),
                    )
                }
            }),
    {
        let mut out: Vec<MidiMessage> = Vec::new();
        let stamp = self.clock;
        match self.notes[note as usize] {
            Some(t) => {
                let t2 = Tone {
                    original_channel: t.original_channel,
                    assigned_channel: t.assigned_channel,
                    started_at: stamp,
                };
                self.notes.set(note as usize, Some(t2));
                self.channels.set(
                    t.assigned_channel as usize,
                    Some(Voice { note_index: note, tone: t2 }),
                );
            },
            None => {
                let target: u8 = match self.find_free_channel() {
                    Some(c) => {
                        proof {
                            lemma_lowest_free_props(self@.channels, 0);
                        }
                        c
                    },
                    None => {
                        proof {
                            lemma_lowest_free_props(self@.channels, 0);
                        }
                        let e = self.find_oldest_channel();
                        let evicted = self.channels[e as usize].unwrap();
                        out.push(
                            MidiMessage::NoteOff {
                                channel: e,
                                note: evicted.note_index,
                                velocity,
                            },
                        );
                        self.notes.set(evicted.note_index as usize, None);
                        e
                    },
                };
                let t = Tone {
                    original_channel: channel,
                    assigned_channel: target,
                    started_at: stamp,
                };
                self.notes.set(note as usize, Some(t));
                self.channels.set(target as usize, Some(Voice { note_index: note, tone: t }));
                out.push(MidiMessage::NoteOn { channel: target, note, velocity });
            },
        }
        self.clock = stamp + 1;
        out
    }

    /// Handle a note-off.
    ///
    /// A tracked note frees exactly its own channel and clears exactly its
    /// own table entry, and the note-off goes out on the assigned channel;
    /// other tracked notes are untouched.  For an untracked note — typically
    /// one evicted earlier under pool exhaustion — nothing is emitted and the
    /// state is left entirely unchanged.
    pub fn note_off(&mut self, note: u8, velocity: u8) -> (out: Vec<MidiMessage>)
        requires
            old(self)@.wf(),
        ensures
            final(self)@.wf(),
            final(self)@.pool_size == old(self)@.pool_size,
            final(self)@.clock == old(self)@.clock,
            (final(self)@, out@) == spec_note_off(old(self)@, note, velocity),
            (old(self)@.notes[note as int] matches Some(t) ==> {
                &&& out@ == seq![
                    MidiMessage::NoteOff { channel: t.assigned_channel, note, velocity },
                ]
                &&& final(self)@.notes == old(self)@.notes.update(note as int, None)
                &&& final(self)@.channels == old(self)@.channels.update(
                    t.assigned_channel as int,
                    None,
                )
            }),
            !old(self)@.is_active(note) ==> {
                &&& out@ == Seq::<MidiMessage>::empty()
                &&& final(self)@ == old(self)@
            },
    {
        let mut out: Vec<MidiMessage> = Vec::new();
        match self.notes[note as usize] {
            Some(t) => {
                self.notes.set(note as usize, None);
                self.channels.set(t.assigned_channel as usize, None);
                out.push(MidiMessage::NoteOff { channel: t.assigned_channel, note, velocity });
            },
            None => {},
        }
        out
    }
}

} // verus!
