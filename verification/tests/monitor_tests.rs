use midiplay::monitor::UIPlayer;
use midiplay::player::Player;
use midiplay::sequence::{Dynamic, Event};

fn connected_ui_player() -> UIPlayer {
    let mut p = Player::new("test client");
    let names = vec![String::from("out")];
    p.connect(&names, "out").unwrap();
    UIPlayer::new(p)
}

#[test]
fn mirror_lights_and_darkens_key_slots() {
    let mut ui = connected_ui_player();
    ui.event(&Event::PlayNoteTicks { key: 60, dynamic: Dynamic::Loud, ticks: 10 })
        .unwrap();
    assert_eq!(ui.notes_on[60], (88, 0, 10));
    assert_eq!(ui.ticks_played(), 0);
    // After the span has passed the slot goes dark but keeps its span.
    ui.event(&Event::Wait { ticks: 20 }).unwrap();
    assert_eq!(ui.ticks_played(), 20);
    assert_eq!(ui.notes_on[60], (0, 0, 10));
}

#[test]
fn mirror_records_history() {
    let mut ui = connected_ui_player();
    ui.event(&Event::PlayNoteTicks { key: 61, dynamic: Dynamic::Medium, ticks: 4 })
        .unwrap();
    assert_eq!(ui.note_history.len(), 1);
    let entry = ui.note_history[0];
    assert_eq!(entry.key, 61);
    assert_eq!(entry.vel, 64);
    assert_eq!(entry.start, 0);
    assert_eq!(entry.end, 4);
    assert_eq!(entry.oct, 3); // key 61 sits in octave 3
    assert_eq!(entry.oct_k, 1);
    assert_eq!(entry.offset, 0); // a black key shares its white key's slot
    // Waits and stops add no history.
    ui.event(&Event::Wait { ticks: 1 }).unwrap();
    ui.event(&Event::StopNote { key: 61 }).unwrap();
    assert_eq!(ui.note_history.len(), 1);
}

#[test]
fn mirror_history_is_bounded() {
    let mut ui = connected_ui_player();
    for i in 0..200u32 {
        let key = (i % 12) as u8;
        ui.event(&Event::PlayNoteTicks { key, dynamic: Dynamic::Soft, ticks: 1 })
            .unwrap();
    }
    assert_eq!(ui.note_history.len(), 128);
    // The oldest entries left first: the front is entry 200 - 128.
    assert_eq!(ui.note_history[0].key, (72 % 12) as u8);
}

#[test]
fn mirror_passes_the_players_actions_through() {
    let mut ui = connected_ui_player();
    // The note's own note-on comes back, at the medium velocity shifted
    // by at most the default jitter half-width, with no sleep.
    let a = ui
        .event(&Event::PlayNoteTicks { key: 64, dynamic: Dynamic::Medium, ticks: 3 })
        .unwrap();
    assert_eq!(a.cmds.len(), 1);
    match a.cmds[0] {
        midiplay::player::MidiCmd::NoteOn { key, vel } => {
            assert_eq!(key, 64);
            assert!(58 <= vel && vel <= 70);
        }
        _ => panic!("expected a note-on"),
    }
    assert_eq!(a.sleep_us, 0);
    // The wait's sweep note-off comes back too, and the wait sleeps.
    let a = ui.event(&Event::Wait { ticks: 10 }).unwrap();
    assert_eq!(
        a.cmds,
        vec![midiplay::player::MidiCmd::NoteOff { key: 64 }]
    );
    assert!(a.sleep_us > 0);
}

#[test]
fn mirror_tick_dur_follows_the_player() {
    let ui = connected_ui_player();
    assert_eq!(ui.tick_dur(), 41_667);
}
