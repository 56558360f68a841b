use midiplay::duration::{beats_to_ticks, Dur};
use midiplay::theory::{
    key_offset, Degree, Key, Mode, RelativeSemitone, RelativeSemitones, Scale, Sign,
};

#[test]
fn sign_relative_semitones() {
    assert_eq!(Sign::DoubleFlat.rel(), -2);
    assert_eq!(Sign::Flat.rel(), -1);
    assert_eq!(Sign::Natural.rel(), 0);
    assert_eq!(Sign::Sharp.rel(), 1);
    assert_eq!(Sign::DoubleSharp.rel(), 2);
    assert_eq!(Sign::from(None), Sign::Natural);
    assert_eq!(Sign::from(Some(Sign::Flat)), Sign::Flat);
}

#[test]
fn degree_numbers_and_signs() {
    assert_eq!(Degree::I.num(), 1);
    assert_eq!(Degree::Vii.num(), 7);
    assert_eq!(Degree::Num(3).num(), 3);
    assert!(Degree::V.sign().is_none());
    let d = Degree::Iv.with_sign(Sign::Sharp);
    assert_eq!(d.num(), 4);
    assert_eq!(d.sign(), Some(Sign::Sharp));
}

#[test]
fn mode_semitone_shapes() {
    let ionian = Mode::Ionian.semitones();
    assert_eq!(ionian.iter(), vec![0, 2, 4, 5, 7, 9, 11]);
    let natural = Mode::Natural.semitones();
    assert_eq!(natural.iter(), vec![0, 2, 3, 5, 7, 8, 10]);
    let RelativeSemitones::Seven(x) = Mode::Ionian.semitones();
    assert_eq!(x[4], 7);
}

#[test]
fn scale_semitones_lifted_an_octave() {
    // C major: root semitone 0, lifted an octave to 12.
    let scale = Scale::new(Key::C(None), Mode::Ionian);
    let s = scale.semitones();
    assert_eq!(&s[0..7], &[12, 14, 16, 17, 19, 21, 23]);
    assert!(s[7..].iter().all(|&x| x == u8::MAX));
    // A flat minor: root 8 - 1 = 7, lifted to 19.
    let scale = Scale::new(Key::A(Some(Sign::Flat)), Mode::Natural);
    let s = scale.semitones();
    assert_eq!(&s[0..7], &[19, 21, 22, 24, 26, 27, 29]);
    // A raw MIDI root is taken as it is.
    let scale = Scale::new(Key::Midi(60), Mode::Ionian);
    let s = scale.semitones();
    assert_eq!(s[0], 72);
}

#[test]
fn key_offsets_within_an_octave() {
    // White keys advance one slot each; black keys share the slot of the
    // white key below them.
    let offsets: Vec<i32> = (0u8..12).map(key_offset).collect();
    assert_eq!(offsets, vec![0, 0, 1, 1, 2, 3, 3, 4, 4, 5, 5, 6]);
    assert_eq!(key_offset(60), 0);
    assert_eq!(key_offset(61), 0);
}

#[test]
fn relative_semitone_holds_its_value() {
    let r = RelativeSemitone::new(7);
    assert_eq!(r.get(), 7);
}

#[test]
fn durations_scale_beats_to_ticks() {
    assert_eq!(beats_to_ticks(3), 300);
    assert_eq!(Dur::ticks(42).as_int(), 42);
    assert_eq!(Dur::beats(2).as_int(), 200);
    assert_eq!(Dur::ticks(3).mul(Dur::ticks(4)).as_int(), 12);
    assert_eq!(Dur::from(7u32).as_int(), 7);
}
