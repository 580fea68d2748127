use midi_splitter::messages::{MidiMessage, RouteError};
use midi_splitter::relay::route_non_note;
use midi_splitter::router::Router;

#[test]
fn note_on_is_reassigned_and_reframed() {
    let mut r = Router::new(3, true);
    let out = r.process(&vec![0x95, 60, 100]).unwrap();
    assert_eq!(out, vec![vec![0x90, 60, 100]]);
    let out = r.process(&vec![0x97, 61, 101]).unwrap();
    assert_eq!(out, vec![vec![0x91, 61, 101]]);
}

#[test]
fn note_off_goes_out_on_the_assigned_channel() {
    let mut r = Router::new(3, true);
    r.process(&vec![0x95, 60, 100]).unwrap();
    r.process(&vec![0x95, 61, 100]).unwrap();
    let out = r.process(&vec![0x85, 61, 7]).unwrap();
    assert_eq!(out, vec![vec![0x81, 61, 7]]);
}

#[test]
fn note_off_for_unknown_note_emits_nothing() {
    let mut r = Router::new(3, true);
    let out = r.process(&vec![0x85, 61, 7]).unwrap();
    assert_eq!(out, Vec::<Vec<u8>>::new());
}

#[test]
fn eviction_over_the_wire_is_note_off_then_note_on() {
    let mut r = Router::new(3, true);
    r.process(&vec![0x90, 60, 100]).unwrap();
    r.process(&vec![0x91, 61, 100]).unwrap();
    r.process(&vec![0x92, 62, 100]).unwrap();
    let out = r.process(&vec![0x93, 63, 99]).unwrap();
    assert_eq!(out, vec![vec![0x80, 60, 99], vec![0x90, 63, 99]]);
}

#[test]
fn program_change_broadcasts_to_every_pool_channel() {
    let mut r = Router::new(3, true);
    let out = r.process(&vec![0xC5, 12]).unwrap();
    assert_eq!(out, vec![vec![0xC0, 12], vec![0xC1, 12], vec![0xC2, 12]]);
}

#[test]
fn program_change_passes_through_with_broadcast_off() {
    let mut r = Router::new(3, false);
    let out = r.process(&vec![0xC5, 12]).unwrap();
    assert_eq!(out, vec![vec![0xC5, 12]]);
}

#[test]
fn pitch_bend_broadcasts_with_data_preserved() {
    let mut r = Router::new(3, true);
    let out = r.process(&vec![0xE5, 1, 64]).unwrap();
    assert_eq!(out, vec![vec![0xE0, 1, 64], vec![0xE1, 1, 64], vec![0xE2, 1, 64]]);
}

#[test]
fn other_kinds_pass_through_even_with_broadcast_on() {
    let mut r = Router::new(3, true);
    let out = r.process(&vec![0xB0, 7, 100]).unwrap();
    assert_eq!(out, vec![vec![0xB0, 7, 100]]);
    let out = r.process(&vec![0xF8]).unwrap();
    assert_eq!(out, vec![vec![0xF8]]);
}

#[test]
fn malformed_message_is_dropped_and_routing_continues() {
    let mut r = Router::new(3, true);
    assert_eq!(r.process(&vec![0x90, 60]), Err(RouteError::MalformedMessage));
    // the failed message left no trace: the next note still takes channel 0
    let out = r.process(&vec![0x90, 60, 100]).unwrap();
    assert_eq!(out, vec![vec![0x90, 60, 100]]);
}

#[test]
fn relay_respects_the_pool_size() {
    let out = route_non_note(MidiMessage::ProgramChange { channel: 9, program: 4 }, true, 5);
    assert_eq!(out.len(), 5);
    for (i, m) in out.iter().enumerate() {
        assert_eq!(*m, MidiMessage::ProgramChange { channel: i as u8, program: 4 });
    }
}

#[test]
fn configuration_is_observable() {
    let r = Router::new(4, false);
    assert_eq!(r.pool_size(), 4);
    assert!(!r.broadcast_enabled());
    assert!(r.can_accept());
    assert_eq!(r.voice_allocator().pool_size(), 4);
}
