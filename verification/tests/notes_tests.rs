use midiplay::notes::{note_from_str, Beats, Note, NoteMod};

#[test]
fn test_note_from_str() {
    // parses notes
    assert_eq!(note_from_str("c3").unwrap().note, 60);
    // parses # as sharp
    assert_eq!(note_from_str("c#3").unwrap().note, 61);
    // parses ^ as sharp
    assert_eq!(note_from_str("c^3").unwrap().note, 61);
    // parses s as sharp
    assert_eq!(note_from_str("cs3").unwrap().note, 61);
    // parses S as sharp
    assert_eq!(note_from_str("cS3").unwrap().note, 61);
    // parses b as flat
    assert_eq!(note_from_str("cb3").unwrap().note, 59);
    // parses v as flat
    assert_eq!(note_from_str("cv3").unwrap().note, 59);
    // parses f as flat
    assert_eq!(note_from_str("cf3").unwrap().note, 59);
    // parses F as flat
    assert_eq!(note_from_str("cF3").unwrap().note, 59);
    // octave -2 .. octave 8
    assert_eq!(note_from_str("c-2").unwrap().note, 0);
    assert_eq!(note_from_str("c-1").unwrap().note, 12);
    assert_eq!(note_from_str("c0").unwrap().note, 24);
    assert_eq!(note_from_str("c1").unwrap().note, 36);
    assert_eq!(note_from_str("c2").unwrap().note, 48);
    assert_eq!(note_from_str("c3").unwrap().note, 60);
    assert_eq!(note_from_str("c4").unwrap().note, 72);
    assert_eq!(note_from_str("c5").unwrap().note, 84);
    assert_eq!(note_from_str("c6").unwrap().note, 96);
    assert_eq!(note_from_str("c7").unwrap().note, 108);
    assert_eq!(note_from_str("c8").unwrap().note, 120);
    // doesn't allow octaves > 8
    assert!(note_from_str("c9").is_none());
    // doesn't allow octaves < -2
    assert!(note_from_str("c-3").is_none());
    // doesn't allow notes higher than g8
    assert_eq!(note_from_str("g8").unwrap().note, 127);
    assert!(note_from_str("a8").is_none());
    // doesn't allow notes lower than c-2
    assert_eq!(note_from_str("c-2").unwrap().note, 0);
    assert!(note_from_str("b-3").is_none());
    // parses optional velocity
    assert_eq!(note_from_str("c1v100").unwrap().vel, 100);
    // parses optional int beats
    assert_eq!(note_from_str("c1b16").unwrap().beats, Beats::whole(16));
    // parses decimal beats
    assert_eq!(note_from_str("c1b2.5").unwrap().beats, Beats::fraction(5, 2));
    // parses fractional beats
    assert_eq!(note_from_str("c1b1/2").unwrap().beats, Beats::fraction(1, 2));
    // parses velocity and beats
    let n = note_from_str("c1v123b1.5").unwrap();
    assert_eq!(n.vel, 123);
    assert_eq!(n.beats, Beats::fraction(3, 2));
    // parses beats and velocity
    let n = note_from_str("c1b22v45").unwrap();
    assert_eq!(n.beats, Beats::whole(22));
    assert_eq!(n.vel, 45);
}

#[test]
fn note_defaults_and_builders() {
    let n = Note::default();
    assert_eq!(n.note, 60);
    assert_eq!(n.vel, 64);
    assert_eq!(n.beats, Beats::whole(0));
    let n = Note::new(42).vel(90).beats(Beats::fraction(3, 4));
    assert_eq!(n.clone().get_note(), 42);
    assert_eq!(n.clone().get_vel(), 90);
    assert_eq!(n.get_beats(), Beats::fraction(3, 4));
}

#[test]
fn beats_equality_is_exact_rational() {
    assert_eq!(Beats::fraction(25, 10), Beats::fraction(5, 2));
    assert_eq!(Beats::whole(16), Beats::fraction(32, 2));
    assert_ne!(Beats::fraction(1, 3), Beats::fraction(333, 1000));
}

#[test]
fn note_garbage_suffix_is_ignored() {
    // An ill-formed modifier ends the modifier run; the note still parses.
    let n = note_from_str("c3v300").unwrap();
    assert_eq!(n.note, 60);
    assert_eq!(n.vel, 64);
    let n = note_from_str("c3xyz").unwrap();
    assert_eq!(n.note, 60);
}

#[test]
fn note_rejects_malformed_names() {
    assert!(note_from_str("").is_none());
    assert!(note_from_str("h3").is_none());
    assert!(note_from_str("c").is_none());
    assert!(note_from_str("c#").is_none());
}

#[test]
fn apply_mods_last_one_wins() {
    let mut n = Note::default();
    let mods = vec![
        NoteMod::Velocity(10),
        NoteMod::Beats(Beats::whole(2)),
        NoteMod::Velocity(99),
    ];
    midiplay::notes::apply_mods(&mut n, &mods);
    assert_eq!(n.vel, 99);
    assert_eq!(n.beats, Beats::whole(2));
}
