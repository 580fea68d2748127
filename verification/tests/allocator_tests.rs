use midi_splitter::allocator::VoiceAllocator;
use midi_splitter::messages::MidiMessage;

#[test]
fn fresh_note_takes_lowest_free_channel() {
    let mut a = VoiceAllocator::new(3);
    let out = a.note_on(0, 60, 100);
    assert_eq!(out, vec![MidiMessage::NoteOn { channel: 0, note: 60, velocity: 100 }]);
    let out = a.note_on(0, 61, 100);
    assert_eq!(out, vec![MidiMessage::NoteOn { channel: 1, note: 61, velocity: 100 }]);
    // freeing channel 0 makes it the lowest free one again
    a.note_off(60, 0);
    let out = a.note_on(0, 62, 100);
    assert_eq!(out, vec![MidiMessage::NoteOn { channel: 0, note: 62, velocity: 100 }]);
}

#[test]
fn tone_remembers_the_input_channel() {
    let mut a = VoiceAllocator::new(3);
    a.note_on(5, 60, 100);
    a.note_on(9, 61, 100);
    let t = a.tone_for(60).unwrap();
    assert_eq!(t.original_channel, 5);
    assert_eq!(t.assigned_channel, 0);
    assert_eq!(t.started_at, 0);
    let t = a.tone_for(61).unwrap();
    assert_eq!(t.original_channel, 9);
    assert_eq!(t.assigned_channel, 1);
    assert_eq!(t.started_at, 1);
}

#[test]
fn tables_stay_in_bijection() {
    let mut a = VoiceAllocator::new(3);
    a.note_on(0, 60, 100);
    a.note_on(1, 61, 100);
    a.note_off(60, 0);
    // exactly one tracked note, exactly one occupied channel, and they agree
    let active: Vec<u8> = (0..=255u8).filter(|&n| a.tone_for(n).is_some()).collect();
    let occupied: Vec<u8> = (0..3u8).filter(|&c| a.voice_on(c).is_some()).collect();
    assert_eq!(active, vec![61]);
    assert_eq!(occupied, vec![1]);
    assert_eq!(a.voice_on(1).unwrap().note_index, 61);
    assert_eq!(a.tone_for(61).unwrap().assigned_channel, 1);
}

#[test]
fn pool_size_is_never_exceeded() {
    let mut a = VoiceAllocator::new(2);
    for note in 60..70u8 {
        a.note_on(0, note, 100);
        let active = (0..=255u8).filter(|&n| a.tone_for(n).is_some()).count();
        let occupied = (0..2u8).filter(|&c| a.voice_on(c).is_some()).count();
        assert!(active <= 2);
        assert_eq!(active, occupied);
    }
}

#[test]
fn retrigger_is_silent_and_keeps_the_channel() {
    let mut a = VoiceAllocator::new(3);
    a.note_on(0, 60, 100);
    a.note_on(0, 61, 100);
    let before = a.tone_for(60).unwrap();
    assert_eq!(before.started_at, 0);
    let out = a.note_on(0, 60, 90);
    // nothing re-emitted, same channel, only the recency stamp moved
    assert_eq!(out, vec![]);
    let after = a.tone_for(60).unwrap();
    assert_eq!(after.assigned_channel, before.assigned_channel);
    assert_eq!(after.original_channel, before.original_channel);
    assert_eq!(after.started_at, 2);
}

#[test]
fn eviction_emits_note_off_before_note_on() {
    let mut a = VoiceAllocator::new(2);
    a.note_on(0, 60, 100);
    a.note_on(0, 61, 100);
    let out = a.note_on(0, 62, 102);
    assert_eq!(out, vec![
        MidiMessage::NoteOff { channel: 0, note: 60, velocity: 102 },
        MidiMessage::NoteOn { channel: 0, note: 62, velocity: 102 },
    ]);
}

#[test]
fn eviction_picks_the_oldest_tone() {
    // pool of 2: A at t=0 on channel 0, B at t=1 on channel 1, then C with the
    // pool full: A is evicted, C takes channel 0, B stays on channel 1
    let mut a = VoiceAllocator::new(2);
    a.note_on(0, 60, 100); // A
    a.note_on(0, 61, 100); // B
    let out = a.note_on(0, 62, 100); // C
    assert_eq!(out[0], MidiMessage::NoteOff { channel: 0, note: 60, velocity: 100 });
    assert_eq!(out[1], MidiMessage::NoteOn { channel: 0, note: 62, velocity: 100 });
    assert_eq!(a.tone_for(62).unwrap().assigned_channel, 0);
    assert_eq!(a.tone_for(61).unwrap().assigned_channel, 1);
    assert!(a.tone_for(60).is_none());
}

#[test]
fn retrigger_refreshes_the_eviction_order() {
    // retriggering the oldest note makes the other one oldest
    let mut a = VoiceAllocator::new(2);
    a.note_on(0, 60, 100);
    a.note_on(0, 61, 100);
    a.note_on(0, 60, 100); // retrigger: 61 is now the oldest
    let out = a.note_on(0, 62, 100);
    assert_eq!(out[0], MidiMessage::NoteOff { channel: 1, note: 61, velocity: 100 });
    assert_eq!(out[1], MidiMessage::NoteOn { channel: 1, note: 62, velocity: 100 });
}

#[test]
fn eviction_scans_every_channel_for_the_oldest() {
    // after a release re-uses channel 1, the stamps are no longer ordered by
    // channel index; the scan must still find the oldest on channel 0
    let mut a = VoiceAllocator::new(2);
    a.note_on(0, 60, 100); // t=0, ch 0
    a.note_on(0, 61, 100); // t=1, ch 1
    a.note_off(61, 0);
    a.note_on(0, 63, 100); // t=2, ch 1
    let out = a.note_on(0, 64, 100); // oldest is ch 0 (t=0)
    assert_eq!(out[0], MidiMessage::NoteOff { channel: 0, note: 60, velocity: 100 });
}

#[test]
fn note_off_frees_exactly_its_own_channel() {
    let mut a = VoiceAllocator::new(3);
    a.note_on(0, 60, 100);
    a.note_on(1, 61, 100);
    a.note_on(2, 62, 100);
    let out = a.note_off(61, 5);
    assert_eq!(out, vec![MidiMessage::NoteOff { channel: 1, note: 61, velocity: 5 }]);
    assert!(a.voice_on(1).is_none());
    assert_eq!(a.tone_for(60).unwrap().assigned_channel, 0);
    assert_eq!(a.tone_for(62).unwrap().assigned_channel, 2);
    assert_eq!(a.voice_on(0).unwrap().note_index, 60);
    assert_eq!(a.voice_on(2).unwrap().note_index, 62);
}

#[test]
fn note_off_for_untracked_note_changes_nothing() {
    let mut a = VoiceAllocator::new(3);
    a.note_on(0, 60, 100);
    let clock = a.clock_value();
    let out = a.note_off(99, 0);
    assert_eq!(out, vec![]);
    assert_eq!(a.clock_value(), clock);
    assert_eq!(a.tone_for(60).unwrap().assigned_channel, 0);
    assert!(a.voice_on(1).is_none());
    assert!(a.voice_on(2).is_none());
}

#[test]
fn note_off_after_eviction_changes_nothing() {
    // the evicted note's entry is removed entirely: its later note-off finds
    // no tracked entry and emits nothing
    let mut a = VoiceAllocator::new(2);
    a.note_on(0, 60, 100);
    a.note_on(0, 61, 100);
    a.note_on(0, 62, 100); // evicts 60
    let out = a.note_off(60, 0);
    assert_eq!(out, vec![]);
    assert_eq!(a.tone_for(62).unwrap().assigned_channel, 0);
}

#[test]
fn round_trip_under_the_ceiling_matches_on_and_off() {
    // a run of note-on/note-off pairs that never exceeds the pool: every
    // note-on goes out on a channel that was free, and the matching note-off
    // releases that very channel, with no channel claimed twice in between
    let mut a = VoiceAllocator::new(2);
    let script: Vec<(bool, u8)> = vec![
        (true, 60), (true, 61), (false, 60), (true, 62), (false, 61), (false, 62),
        (true, 70), (false, 70),
    ];
    let mut sounding: Vec<Option<u8>> = vec![None, None];
    let mut assigned: Vec<(u8, u8)> = Vec::new();
    for (on, note) in script {
        if on {
            let out = a.note_on(0, note, 100);
            assert_eq!(out.len(), 1);
            match out[0] {
                MidiMessage::NoteOn { channel, note: n, velocity: _ } => {
                    assert_eq!(n, note);
                    // the claimed channel was free
                    assert!(sounding[channel as usize].is_none());
                    sounding[channel as usize] = Some(note);
                    assigned.push((note, channel));
                }
                ref other => panic!("unexpected output {:?}", other),
            }
        } else {
            let out = a.note_off(note, 0);
            assert_eq!(out.len(), 1);
            match out[0] {
                MidiMessage::NoteOff { channel, note: n, velocity: _ } => {
                    assert_eq!(n, note);
                    // the note-off frees the very channel its note-on claimed
                    let (_, expected) = assigned.iter().rev().find(|(m, _)| *m == note).unwrap();
                    assert_eq!(channel, *expected);
                    assert_eq!(sounding[channel as usize], Some(note));
                    sounding[channel as usize] = None;
                }
                ref other => panic!("unexpected output {:?}", other),
            }
        }
    }
    assert!(sounding.iter().all(|s| s.is_none()));
}
