use midiplay::notes::{Beats, Note};
use midiplay::player::{
    find_port, humanize_velocity, MidiCmd, Playback, Player, PlayerError,
};
use midiplay::sequence::{events_all_wf, Dynamic, Event};

fn connected_player() -> Player {
    let mut p = Player::new("test client");
    let names = vec![String::from("loopMIDI Port")];
    p.connect(&names, "loopMIDI Port").unwrap();
    p
}

#[test]
fn new_player_defaults() {
    let p = Player::new("test client");
    assert_eq!(p.tempo(), 120);
    assert_eq!(p.ticks_played(), 0);
    // 60 s / 120 bpm / 12 ticks per beat = 41.666... ms, rounded up.
    assert_eq!(p.tick_dur(), 41_667);
}

#[test]
fn set_tempo_recomputes_tick_duration() {
    let mut p = Player::new("test client");
    p.set_tempo(60);
    assert_eq!(p.tick_dur(), 83_333); // 60 s / 60 bpm / 12 = 83.333 ms
    p.set_ticks_per_beat(100);
    assert_eq!(p.tick_dur(), 10_000); // 60 s / 60 bpm / 100 = 10 ms
}

#[test]
fn event_requires_connection() {
    let mut p = Player::new("test client");
    let r = p.event_with_jitter(&Event::Wait { ticks: 1 }, 0, 0);
    assert_eq!(r.unwrap_err(), PlayerError::NotConnected);
}

#[test]
fn connect_matches_exact_name() {
    let mut p = Player::new("test client");
    let names = vec![
        String::from("Another"),
        String::from("loopMIDI Port"),
    ];
    assert_eq!(p.connect(&names, "loopMIDI Port").unwrap(), 1);
    let mut q = Player::new("test client");
    assert_eq!(q.connect(&names, "missing").unwrap_err(), PlayerError::NoPortFound);
}

#[test]
fn find_port_returns_first_match() {
    let names = vec![
        String::from("a"),
        String::from("b"),
        String::from("b"),
    ];
    assert_eq!(find_port(&names, "b"), Some(1));
    assert_eq!(find_port(&names, "c"), None);
}

#[test]
fn play_note_emits_note_on_with_representative_velocity() {
    let mut p = connected_player();
    let r = p
        .event_with_jitter(
            &Event::PlayNoteTicks { key: 64, dynamic: Dynamic::Medium, ticks: 10 },
            0,
            0,
        )
        .unwrap();
    assert_eq!(r.cmds, vec![MidiCmd::NoteOn { key: 64, vel: 64 }]);
    assert_eq!(r.sleep_us, 0);
}

#[test]
fn expired_note_is_evicted_by_the_sweep() {
    // A note of 10 ticks followed by a wait of 20 ticks with no stop in
    // between: the post-handle sweep must clear key 64 and emit its
    // note-off.
    let mut p = connected_player();
    p.event_with_jitter(
        &Event::PlayNoteTicks { key: 64, dynamic: Dynamic::Medium, ticks: 10 },
        0,
        0,
    )
    .unwrap();
    let r = p.event_with_jitter(&Event::Wait { ticks: 20 }, 0, 0).unwrap();
    assert_eq!(p.ticks_played(), 20);
    assert_eq!(r.cmds, vec![MidiCmd::NoteOff { key: 64 }]);
    // The slot is clear: another wait sweeps nothing.
    let r2 = p.event_with_jitter(&Event::Wait { ticks: 1 }, 0, 0).unwrap();
    assert_eq!(r2.cmds, vec![]);
}

#[test]
fn open_ended_note_rings_for_at_most_four_beats() {
    let mut p = connected_player();
    p.event_with_jitter(&Event::PlayNote { key: 60, dynamic: Dynamic::Loud }, 0, 0).unwrap();
    // 12 ticks per beat: the ring deadline is 48 ticks out.
    let r = p.event_with_jitter(&Event::Wait { ticks: 48 }, 0, 0).unwrap();
    assert_eq!(r.cmds, vec![]);
    let r = p.event_with_jitter(&Event::Wait { ticks: 1 }, 0, 0).unwrap();
    assert_eq!(r.cmds, vec![MidiCmd::NoteOff { key: 60 }]);
}

#[test]
fn stop_note_clears_and_emits_note_off() {
    let mut p = connected_player();
    p.event_with_jitter(
        &Event::PlayNoteTicks { key: 70, dynamic: Dynamic::Soft, ticks: 5 },
        0,
        0,
    )
    .unwrap();
    let r = p.event_with_jitter(&Event::StopNote { key: 70 }, 0, 0).unwrap();
    assert_eq!(r.cmds, vec![MidiCmd::NoteOff { key: 70 }]);
    // The stop already cleared the slot: the deadline no longer fires.
    let r = p.event_with_jitter(&Event::Wait { ticks: 10 }, 0, 0).unwrap();
    assert_eq!(r.cmds, vec![]);
}

#[test]
fn velocity_humanization_saturates() {
    assert_eq!(humanize_velocity(64, 0), 64);
    assert_eq!(humanize_velocity(64, 10), 74);
    assert_eq!(humanize_velocity(64, -10), 54);
    assert_eq!(humanize_velocity(64, i32::MAX), 127);
    assert_eq!(humanize_velocity(64, i32::MIN), 0);
    assert_eq!(humanize_velocity(0, -1), 0);
    assert_eq!(humanize_velocity(127, 1), 127);
}

#[test]
fn jittered_note_velocity_stays_in_range() {
    for jitter in [i32::MIN, -100, -6, 0, 6, 100, i32::MAX] {
        let mut p = connected_player();
        let r = p
            .event_with_jitter(
                &Event::PlayNoteTicks { key: 64, dynamic: Dynamic::VeryLoud, ticks: 1 },
                jitter,
                0,
            )
            .unwrap();
        match r.cmds[0] {
            MidiCmd::NoteOn { vel, .. } => assert!(vel <= 127),
            _ => panic!("expected a note-on"),
        }
    }
}

#[test]
fn wait_sleeps_and_carries_timeshift() {
    let mut p = connected_player();
    p.set_tempo(60);
    p.set_ticks_per_beat(100); // 10 ms per tick
    // First wait: 10 ticks, jitter +5 ms: sleeps 105 ms.
    let r = p.event_with_jitter(&Event::Wait { ticks: 10 }, 0, 5).unwrap();
    assert_eq!(r.sleep_us, 105_000);
    // The next wait cancels the +5 ms: 100 - 5 = 95 ms at zero jitter.
    let r = p.event_with_jitter(&Event::Wait { ticks: 10 }, 0, 0).unwrap();
    assert_eq!(r.sleep_us, 95_000);
    assert_eq!(p.ticks_played(), 20);
}

#[test]
fn wait_never_sleeps_negative() {
    let mut p = connected_player();
    p.set_tempo(60);
    p.set_ticks_per_beat(100);
    let r = p.event_with_jitter(&Event::Wait { ticks: 1 }, 0, -1000).unwrap();
    assert_eq!(r.sleep_us, 0);
}

#[test]
fn retrigger_overwrites_deadline() {
    let mut p = connected_player();
    p.event_with_jitter(
        &Event::PlayNoteTicks { key: 64, dynamic: Dynamic::Medium, ticks: 5 },
        0,
        0,
    )
    .unwrap();
    // Retrigger with a longer duration before the first expires.
    p.event_with_jitter(
        &Event::PlayNoteTicks { key: 64, dynamic: Dynamic::Medium, ticks: 50 },
        0,
        0,
    )
    .unwrap();
    let r = p.event_with_jitter(&Event::Wait { ticks: 10 }, 0, 0).unwrap();
    assert_eq!(r.cmds, vec![]);
    let r = p.event_with_jitter(&Event::Wait { ticks: 41 }, 0, 0).unwrap();
    assert_eq!(r.cmds, vec![MidiCmd::NoteOff { key: 64 }]);
}

#[test]
fn cancellation_stops_the_playback_loop() {
    let events = vec![
        Event::PlayNoteTicks { key: 60, dynamic: Dynamic::Medium, ticks: 2 },
        Event::Wait { ticks: 4 },
        Event::PlayNoteTicks { key: 62, dynamic: Dynamic::Medium, ticks: 2 },
    ];
    assert!(events_all_wf(&events));
    let mut pb = Playback::new(connected_player(), events);
    // The first step plays the first note: one note-on for key 60 at the
    // medium velocity, shifted by at most the default jitter half-width.
    let a = pb.step(false).unwrap();
    assert_eq!(a.cmds.len(), 1);
    match a.cmds[0] {
        MidiCmd::NoteOn { key, vel } => {
            assert_eq!(key, 60);
            assert!(58 <= vel && vel <= 70);
        }
        _ => panic!("expected a note-on"),
    }
    assert_eq!(a.sleep_us, 0);
    // The flag set: no further event is handled, nothing more is issued,
    // and the session does not advance.
    assert!(pb.step(true).is_none());
    assert!(pb.step(true).is_none());
    assert_eq!(pb.player.ticks_played(), 0);
    // Cleared again, the loop resumes where it stopped: the wait advances
    // the counter, sleeps, and its sweep force-stops the expired note.
    let a = pb.step(false).unwrap();
    assert_eq!(a.cmds, vec![MidiCmd::NoteOff { key: 60 }]);
    assert!(a.sleep_us > 0);
    assert_eq!(pb.player.ticks_played(), 4);
    let a = pb.step(false).unwrap();
    assert_eq!(a.cmds.len(), 1);
    assert!(matches!(a.cmds[0], MidiCmd::NoteOn { key: 62, .. }));
    assert!(pb.step(false).is_none());
}

#[test]
fn wire_bytes_of_commands() {
    assert_eq!(MidiCmd::NoteOn { key: 60, vel: 70 }.to_bytes(), [0x90, 60, 70]);
    assert_eq!(MidiCmd::NoteOff { key: 60 }.to_bytes(), [0x80, 60, 0]);
}

#[test]
fn play_gives_on_sleep_off() {
    let p = connected_player(); // 120 bpm
    let note = Note::new(60).vel(90).beats(Beats::whole(2));
    let (on, dur, off) = p.play(&note).unwrap();
    assert_eq!(on, MidiCmd::NoteOn { key: 60, vel: 90 });
    // Two beats at 120 bpm: one second.
    assert_eq!(dur, 1_000_000);
    assert_eq!(off, MidiCmd::NoteOff { key: 60 });
}

#[test]
fn play_requires_connection() {
    let p = Player::new("test client");
    let note = Note::default();
    assert!(p.play(&note).is_err());
}

#[test]
fn randomized_event_stays_in_jitter_window() {
    let mut p = connected_player();
    for _ in 0..50 {
        let r = p
            .event(&Event::PlayNoteTicks { key: 64, dynamic: Dynamic::Medium, ticks: 1 })
            .unwrap();
        match r.cmds[0] {
            MidiCmd::NoteOn { vel, .. } => {
                // Default velocity range 12: medium 64 shifted by at most 6.
                assert!(58 <= vel && vel <= 70);
            },
            _ => panic!("expected a note-on"),
        }
        p.event(&Event::Wait { ticks: 2 }).unwrap();
    }
}

#[test]
fn dynamic_buckets_and_neighbours() {
    assert_eq!(Dynamic::from(0u8), Dynamic::VerySoft);
    assert_eq!(Dynamic::from(24u8), Dynamic::VerySoft);
    assert_eq!(Dynamic::from(25u8), Dynamic::Soft);
    assert_eq!(Dynamic::from(49u8), Dynamic::Soft);
    assert_eq!(Dynamic::from(50u8), Dynamic::Medium);
    assert_eq!(Dynamic::from(76u8), Dynamic::Medium);
    assert_eq!(Dynamic::from(77u8), Dynamic::Loud);
    assert_eq!(Dynamic::from(101u8), Dynamic::Loud);
    assert_eq!(Dynamic::from(102u8), Dynamic::VeryLoud);
    assert_eq!(Dynamic::from(127u8), Dynamic::VeryLoud);
    assert_eq!(Dynamic::VerySoft.vel(), 16);
    assert_eq!(Dynamic::Soft.as_int(), 40);
    assert_eq!(Dynamic::Medium.as_int(), 64);
    assert_eq!(Dynamic::Loud.as_int(), 88);
    assert_eq!(Dynamic::VeryLoud.as_int(), 112);
    assert_eq!(Dynamic::Medium.up(), Dynamic::Loud);
    assert_eq!(Dynamic::VeryLoud.up(), Dynamic::VeryLoud);
    assert_eq!(Dynamic::Medium.down(), Dynamic::Soft);
    assert_eq!(Dynamic::VerySoft.down(), Dynamic::VerySoft);
    assert_eq!(Dynamic::default(), Dynamic::Medium);
}
