use midiplay::midi::{
    build_events, find_next_off_delta, parse, MidiError, Parser, RawEvent, RawEventKind,
};
use midiplay::sequence::{Dynamic, Event};
use midiplay::timing::{convert_ticks, Timing};

fn note_on(delta: u32, key: u8, vel: u8) -> RawEvent {
    RawEvent { delta, kind: RawEventKind::NoteOn { key, vel } }
}

fn note_off(delta: u32, key: u8, vel: u8) -> RawEvent {
    RawEvent { delta, kind: RawEventKind::NoteOff { key, vel } }
}

fn tempo(delta: u32, tempo_us: u32) -> RawEvent {
    RawEvent { delta, kind: RawEventKind::TempoChange { tempo_us } }
}

fn metrical_480() -> Timing {
    Timing::Metrical { ppq: 480 }
}

#[test]
fn build_simple_note() {
    // Metrical(480), constant tempo, 100 player ticks per beat, one note of
    // 240 raw ticks: exactly one explicit note of 50 ticks, no leading wait.
    let track = vec![note_on(0, 60, 70), note_off(240, 60, 0)];
    let events = build_events(&track, &metrical_480(), 500_000, 100);
    assert_eq!(
        events,
        vec![Event::PlayNoteTicks { key: 60, dynamic: Dynamic::Medium, ticks: 50 }]
    );
}

#[test]
fn build_with_leading_rest() {
    // The same with a leading rest of 480 raw ticks: a wait of one full
    // beat (100 ticks) comes first.
    let track = vec![note_on(480, 60, 70), note_off(240, 60, 0)];
    let events = build_events(&track, &metrical_480(), 500_000, 100);
    assert_eq!(
        events,
        vec![
            Event::Wait { ticks: 100 },
            Event::PlayNoteTicks { key: 60, dynamic: Dynamic::Medium, ticks: 50 },
        ]
    );
}

#[test]
fn build_never_emits_zero_waits_or_zero_durations() {
    // A rest too short to round to one player tick emits no wait, and a
    // note of zero raw length becomes an open-ended note.
    let track = vec![
        note_on(1, 60, 70),
        note_off(0, 60, 0),
        note_on(1, 62, 70),
        note_off(240, 62, 0),
    ];
    let events = build_events(&track, &metrical_480(), 500_000, 100);
    for e in &events {
        match e {
            Event::Wait { ticks } => assert!(*ticks > 0),
            Event::PlayNoteTicks { ticks, .. } => assert!(*ticks > 0),
            _ => {}
        }
    }
    assert_eq!(events[0], Event::PlayNote { key: 60, dynamic: Dynamic::Medium });
}

#[test]
fn build_honours_tempo_changes_under_timecode() {
    // Under timecode the conversion depends on the tempo in force; a tempo
    // marker must change conversions after it. 25 fps, 40 subframes:
    // 1000 raw ticks per second. At 500_000 us per beat the raw rate is
    // 500 raw ticks per beat; 500 raw ticks at 100 player ticks per beat
    // give 100 ticks. After halving the tempo to 250_000, 500 raw ticks
    // span two beats: 200 ticks.
    let timing = Timing::Timecode { fps: 25, subframes: 40 };
    let track = vec![
        note_on(0, 60, 70),
        note_off(500, 60, 0),
        tempo(0, 250_000),
        note_on(0, 62, 70),
        note_off(500, 62, 0),
    ];
    let events = build_events(&track, &timing, 500_000, 100);
    // The 500 raw ticks of the first note's off flush as a wait at the
    // second note-on, converted at the tempo then in force.
    assert_eq!(
        events,
        vec![
            Event::PlayNoteTicks { key: 60, dynamic: Dynamic::Medium, ticks: 100 },
            Event::Wait { ticks: 200 },
            Event::PlayNoteTicks { key: 62, dynamic: Dynamic::Medium, ticks: 200 },
        ]
    );
}

#[test]
fn resolver_stops_at_first_terminator() {
    let track = vec![
        note_on(0, 60, 70),
        note_on(10, 62, 70),
        note_off(20, 60, 0),
        note_off(5, 62, 0),
    ];
    // For key 60: 10 + 20 = 30; for key 62 (starting at index 1): 20 + 5.
    assert_eq!(find_next_off_delta(&track, 0, 60), 30);
    assert_eq!(find_next_off_delta(&track, 1, 62), 25);
}

#[test]
fn resolver_treats_zero_velocity_note_on_as_off() {
    let track = vec![note_on(0, 60, 70), note_on(15, 60, 0)];
    assert_eq!(find_next_off_delta(&track, 0, 60), 15);
}

#[test]
fn resolver_returns_zero_without_terminator() {
    let track = vec![note_on(0, 60, 70), note_off(100, 61, 0)];
    assert_eq!(find_next_off_delta(&track, 0, 60), 0);
}

#[test]
fn convert_rounds_to_nearest() {
    // 240 raw ticks at 480 per beat and 100 player ticks per beat: 50.
    assert_eq!(convert_ticks(240, &metrical_480(), 500_000, 100), 50);
    // 7 raw ticks of 480 per beat at 100: 7 * 100 / 480 = 1.458... -> 1.
    assert_eq!(convert_ticks(7, &metrical_480(), 500_000, 100), 1);
    // 12 raw ticks: 2.5 rounds up to 3.
    assert_eq!(convert_ticks(12, &metrical_480(), 500_000, 100), 3);
    // Timecode: 25 fps * 40 subframes * 500_000 us = 500 raw per beat.
    let tc = Timing::Timecode { fps: 25, subframes: 40 };
    assert_eq!(convert_ticks(500, &tc, 500_000, 100), 100);
    assert_eq!(convert_ticks(0, &tc, 500_000, 100), 0);
}

#[test]
fn convert_is_monotonic_on_samples() {
    let mut prev: u32 = 0;
    for raw in 0..2000u64 {
        let t = convert_ticks(raw, &metrical_480(), 500_000, 7);
        assert!(t >= prev);
        prev = t;
    }
}

fn simple_smf() -> Vec<u8> {
    // A one-track metrical file, 480 ticks per beat: NoteOn(60, 70) at
    // delta 0, NoteOff(60) after 240 raw ticks, end of track.
    let mut data: Vec<u8> = Vec::new();
    data.extend_from_slice(b"MThd");
    data.extend_from_slice(&[0, 0, 0, 6]); // header length
    data.extend_from_slice(&[0, 0]); // format 0
    data.extend_from_slice(&[0, 1]); // one track
    data.extend_from_slice(&[0x01, 0xE0]); // metrical, 480
    data.extend_from_slice(b"MTrk");
    data.extend_from_slice(&[0, 0, 0, 13]); // track length
    data.extend_from_slice(&[0x00, 0x90, 60, 70]); // NoteOn
    data.extend_from_slice(&[0x81, 0x70, 0x80, 60, 0]); // delta 240, NoteOff
    data.extend_from_slice(&[0x00, 0xFF, 0x2F, 0x00]); // end of track
    data
}

#[test]
fn parse_seq_builds_from_real_bytes() {
    let parser = Parser::default().with_ticks_per_beat(100);
    let seq = parser.parse_seq(&simple_smf(), 0).unwrap();
    assert_eq!(seq.ticks_per_beat(), 100);
    assert_eq!(
        seq.events,
        vec![Event::PlayNoteTicks { key: 60, dynamic: Dynamic::Medium, ticks: 50 }]
    );
}

#[test]
fn parse_seq_reads_timecode_headers() {
    // A timecode header: 25 frames per second (stored negated), 40
    // subframes, so 1000 raw ticks per second; at the default tempo of
    // half a second per beat, 500 raw ticks make one beat.
    let mut data: Vec<u8> = Vec::new();
    data.extend_from_slice(b"MThd");
    data.extend_from_slice(&[0, 0, 0, 6]);
    data.extend_from_slice(&[0, 0]);
    data.extend_from_slice(&[0, 1]);
    data.extend_from_slice(&[0xE7, 40]); // -25 fps, 40 subframes
    data.extend_from_slice(b"MTrk");
    data.extend_from_slice(&[0, 0, 0, 13]);
    data.extend_from_slice(&[0x00, 0x90, 60, 70]);
    data.extend_from_slice(&[0x83, 0x74, 0x80, 60, 0]); // delta 500, NoteOff
    data.extend_from_slice(&[0x00, 0xFF, 0x2F, 0x00]);
    let parser = Parser::default().with_ticks_per_beat(100);
    let seq = parser.parse_seq(&data, 0).unwrap();
    assert_eq!(
        seq.events,
        vec![Event::PlayNoteTicks { key: 60, dynamic: Dynamic::Medium, ticks: 100 }]
    );
}

#[test]
fn parse_seq_reports_missing_track() {
    let parser = Parser::default();
    assert!(matches!(parser.parse_seq(&simple_smf(), 5), Err(MidiError::MissingTrack)));
}

#[test]
fn parse_seq_reports_malformed_bytes() {
    let parser = Parser::default();
    assert!(matches!(parser.parse_seq(b"not a midi file", 0), Err(MidiError::ParseError)));
}

#[test]
fn parse_seq_of_noteless_track_is_empty() {
    // A track with no notes builds an empty sequence: the condition the
    // caller reports as `EmptySequence` before playing.
    let mut data: Vec<u8> = Vec::new();
    data.extend_from_slice(b"MThd");
    data.extend_from_slice(&[0, 0, 0, 6]);
    data.extend_from_slice(&[0, 0]);
    data.extend_from_slice(&[0, 1]);
    data.extend_from_slice(&[0x01, 0xE0]);
    data.extend_from_slice(b"MTrk");
    data.extend_from_slice(&[0, 0, 0, 4]);
    data.extend_from_slice(&[0x00, 0xFF, 0x2F, 0x00]);
    let seq = Parser::default().parse_seq(&data, 0).unwrap();
    assert!(seq.events.is_empty());
}

#[test]
fn parser_defaults() {
    let p = Parser::default();
    assert_eq!(p.tempo_us, 500_000);
    assert_eq!(p.ticks_per_beat, 12);
    let p2 = p.with_ticks_per_beat(24);
    assert_eq!(p2.ticks_per_beat, 24);
    assert_eq!(p2.tempo_us, 500_000);
    assert_eq!(p.ticks_from_delta(240, &metrical_480()), 6);
}

fn two_track_smf() -> Vec<u8> {
    // A two-track metrical file whose second track holds one note of 240
    // raw ticks (half a beat at 480 per beat).
    let mut data: Vec<u8> = Vec::new();
    data.extend_from_slice(b"MThd");
    data.extend_from_slice(&[0, 0, 0, 6]);
    data.extend_from_slice(&[0, 1]); // format 1
    data.extend_from_slice(&[0, 2]); // two tracks
    data.extend_from_slice(&[0x01, 0xE0]); // metrical, 480
    data.extend_from_slice(b"MTrk");
    data.extend_from_slice(&[0, 0, 0, 4]);
    data.extend_from_slice(&[0x00, 0xFF, 0x2F, 0x00]);
    data.extend_from_slice(b"MTrk");
    data.extend_from_slice(&[0, 0, 0, 13]);
    data.extend_from_slice(&[0x00, 0x90, 60, 70]);
    data.extend_from_slice(&[0x81, 0x70, 0x80, 60, 0]);
    data.extend_from_slice(&[0x00, 0xFF, 0x2F, 0x00]);
    data
}

#[test]
fn parse_reads_notes_of_track_one() {
    let midi = parse(&two_track_smf()).unwrap();
    let notes = midi.notes();
    assert_eq!(notes.len(), 1);
    assert_eq!(notes[0].note, 60);
    assert_eq!(notes[0].vel, 70);
    // 240 raw ticks of 480 per beat: exactly half a beat.
    assert_eq!(notes[0].beats, midiplay::notes::Beats::fraction(1, 2));
}

#[test]
fn parse_reports_missing_second_track() {
    assert!(matches!(parse(&simple_smf()), Err(MidiError::MissingTrack)));
}
