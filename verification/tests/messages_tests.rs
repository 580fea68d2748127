use midi_splitter::messages::{classify, encode, MidiMessage, RouteError};

#[test]
fn classify_note_on() {
    let r = classify(&vec![0x95, 60, 100]);
    assert_eq!(r, Ok(MidiMessage::NoteOn { channel: 5, note: 60, velocity: 100 }));
}

#[test]
fn classify_note_off() {
    let r = classify(&vec![0x83, 61, 0]);
    assert_eq!(r, Ok(MidiMessage::NoteOff { channel: 3, note: 61, velocity: 0 }));
}

#[test]
fn classify_program_change() {
    let r = classify(&vec![0xC5, 12]);
    assert_eq!(r, Ok(MidiMessage::ProgramChange { channel: 5, program: 12 }));
}

#[test]
fn classify_pitch_bend() {
    let r = classify(&vec![0xE2, 1, 64]);
    assert_eq!(r, Ok(MidiMessage::PitchBend { channel: 2, lsb: 1, msb: 64 }));
}

#[test]
fn classify_other_kind_verbatim() {
    // control change: not a kind the router gives structure to
    let r = classify(&vec![0xB0, 7, 100]);
    assert_eq!(r, Ok(MidiMessage::Other { bytes: vec![0xB0, 7, 100] }));
    // one-byte realtime message
    let r = classify(&vec![0xF8]);
    assert_eq!(r, Ok(MidiMessage::Other { bytes: vec![0xF8] }));
}

#[test]
fn classify_rejects_wrong_length_for_kind() {
    assert_eq!(classify(&vec![]), Err(RouteError::MalformedMessage));
    assert_eq!(classify(&vec![0x90, 60]), Err(RouteError::MalformedMessage));
    assert_eq!(classify(&vec![0x80, 60]), Err(RouteError::MalformedMessage));
    assert_eq!(classify(&vec![0xC0]), Err(RouteError::MalformedMessage));
    assert_eq!(classify(&vec![0xC0, 1, 2]), Err(RouteError::MalformedMessage));
    assert_eq!(classify(&vec![0xE0, 1]), Err(RouteError::MalformedMessage));
    assert_eq!(classify(&vec![0xB0, 1, 2, 3]), Err(RouteError::MalformedMessage));
}

#[test]
fn encode_exact_bytes() {
    assert_eq!(encode(&MidiMessage::NoteOn { channel: 2, note: 60, velocity: 100 }), vec![0x92, 60, 100]);
    assert_eq!(encode(&MidiMessage::NoteOff { channel: 0, note: 127, velocity: 1 }), vec![0x80, 127, 1]);
    assert_eq!(encode(&MidiMessage::ProgramChange { channel: 15, program: 12 }), vec![0xCF, 12]);
    assert_eq!(encode(&MidiMessage::PitchBend { channel: 1, lsb: 3, msb: 64 }), vec![0xE1, 3, 64]);
}

#[test]
fn encode_inverts_classify() {
    for raw in [vec![0x95, 60, 100], vec![0x83, 61, 0], vec![0xC5, 12], vec![0xE2, 1, 64], vec![0xB0, 7, 100], vec![0xF8]] {
        let m = classify(&raw).unwrap();
        assert_eq!(encode(&m), raw);
    }
}
