//! From raw MIDI file bytes to an ordered sequence of abstract events: a
//! single pass over one track, resolving each note's raw-tick duration and
//! rescaling raw ticks to player ticks at the most recently seen tempo.

use vstd::prelude::*;
use crate::sequence::{Dynamic, Event};
use crate::timing::{convert_spec, convert_ticks, Timing};

verus! {

/// What can go wrong between file bytes and a playable sequence.
#[derive(Clone, Copy, PartialEq, Eq, Structural, Debug, Hash)]
pub enum MidiError {
    /// The bytes are not a well-formed MIDI file, or the file declares a
    /// timing with a zero division, or a track too large to index.
    ParseError,
    /// The requested track index is out of range.
    MissingTrack,
    /// The built sequence holds no events, so there is nothing to play.
    EmptySequence,
}

/// One track event as this library reads it: a delta time in raw file ticks
/// and the part of the event the builder cares about.
#[derive(Clone, Copy, PartialEq, Eq, Structural, Debug)]
pub enum RawEventKind {
    NoteOn { key: u8, vel: u8 },
    NoteOff { key: u8, vel: u8 },
    TempoChange { tempo_us: u32 },
    Other,
}

#[derive(Clone, Copy, PartialEq, Eq, Structural, Debug)]
pub struct RawEvent {
    pub delta: u32,
    pub kind: RawEventKind,
}

impl RawEvent {
    /// The field widths a standard MIDI file guarantees: 28-bit delta
    /// times, 7-bit keys and velocities, 24-bit tempo values.
    pub open spec fn wf(self) -> bool {
        &&& self.delta < 0x10000000
        &&& match self.kind {
            RawEventKind::NoteOn { key, vel } => key <= 127 && vel <= 127,
            RawEventKind::NoteOff { key, vel } => key <= 127 && vel <= 127,
            RawEventKind::TempoChange { tempo_us } => tempo_us < 0x1000000,
            RawEventKind::Other => true,
        }
    }
}

/// What `midly::Smf::parse` yields for given bytes: `None` where the bytes
/// are not a well-formed MIDI file, else the header timing and the tracks,
/// each track a sequence of raw events. The result depends on the bytes
/// alone.
pub uninterp spec fn midi_file(data: Seq<u8>) -> Option<(Timing, Seq<Seq<RawEvent>>)>;

/// The tracks held by a parsed `midly::Smf` value.
pub uninterp spec fn smf_tracks(smf: midly::Smf) -> Seq<Seq<RawEvent>>;

/// The header timing held by a parsed `midly::Smf` value.
pub uninterp spec fn smf_timing_of(smf: midly::Smf) -> Timing;

/// Declares `midly::Smf`, the parsed MIDI file, so that values of it can
/// pass through verified code; what it holds is reached only through the
/// trusted readers below.
#[verifier::external_type_specification]
#[verifier::external_body]
pub struct ExSmf<'a>(midly::Smf<'a>);

/// Relies on `midly::Smf::parse`: parses the bytes of a standard MIDI file
/// into a header and tracks of delta-timed events, or fails on malformed
/// bytes.
#[verifier::external_body]
fn parse_smf<'a>(data: &'a [u8]) -> (r: Option<midly::Smf<'a>>)
    ensures
        r is Some <==> midi_file(data@) is Some,
        r matches Some(smf) ==> Some((smf_timing_of(smf), smf_tracks(smf))) == midi_file(data@),
{
    midly::Smf::parse(data).ok()
}

/// Relies on the `header.timing` field of `midly::Smf`: the file's tick
/// division, metrical (a 15-bit ticks-per-beat) or SMPTE timecode (frames
/// per second and subframes per frame).
#[verifier::external_body]
fn smf_timing(smf: &midly::Smf) -> (t: Timing)
    ensures
        t == smf_timing_of(*smf),
{
    match smf.header.timing {
        midly::Timing::Metrical(x) => Timing::Metrical { ppq: x.as_int() },
        midly::Timing::Timecode(f, s) => Timing::Timecode { fps: f.as_int(), subframes: s },
    }
}

/// Relies on the `tracks` field of `midly::Smf`, a vector of tracks.
#[verifier::external_body]
fn smf_num_tracks(smf: &midly::Smf) -> (n: usize)
    ensures
        n == smf_tracks(*smf).len(),
{
    smf.tracks.len()
}

/// Relies on the `tracks` field of `midly::Smf`: the length of one track.
#[verifier::external_body]
fn smf_track_len(smf: &midly::Smf, t: usize) -> (n: usize)
    requires
        t < smf_tracks(*smf).len(),
    ensures
        n == smf_tracks(*smf)[t as int].len(),
{
    smf.tracks[t].len()
}

/// Relies on the fields of `midly::TrackEvent`: a 28-bit delta time and an
/// event kind whose keys and velocities are 7-bit and whose tempo values
/// are 24-bit (microseconds per beat).
#[verifier::external_body]
fn smf_event_at(smf: &midly::Smf, t: usize, i: usize) -> (e: RawEvent)
    requires
        t < smf_tracks(*smf).len(),
        i < smf_tracks(*smf)[t as int].len(),
    ensures
        e == smf_tracks(*smf)[t as int][i as int],
        e.wf(),
{
    let ev = &smf.tracks[t][i];
    let kind = match ev.kind {
        midly::TrackEventKind::Midi { message: midly::MidiMessage::NoteOn { key, vel }, .. } =>
            RawEventKind::NoteOn { key: key.as_int(), vel: vel.as_int() },
        midly::TrackEventKind::Midi { message: midly::MidiMessage::NoteOff { key, vel }, .. } =>
            RawEventKind::NoteOff { key: key.as_int(), vel: vel.as_int() },
        midly::TrackEventKind::Meta(midly::MetaMessage::Tempo(us)) =>
            RawEventKind::TempoChange { tempo_us: us.as_int() },
        _ => RawEventKind::Other,
    };
    RawEvent { delta: ev.delta.as_int(), kind }
}

/// Whether an event ends a sounding note on `key`: a note-off for the key,
/// or a note-on for the key with velocity zero. Channels are ignored; see
/// the note on `find_next_off_delta`.
pub open spec fn is_terminator(e: RawEvent, key: u8) -> bool {
    match e.kind {
        RawEventKind::NoteOff { key: k, .. } => k == key,
        RawEventKind::NoteOn { key: k, vel } => k == key && vel == 0,
        _ => false,
    }
}

/// Whether some event at or after position `i` terminates `key`.
pub open spec fn has_terminator(events: Seq<RawEvent>, i: int, key: u8) -> bool
    decreases events.len() - i,
{
    if i < 0 || i >= events.len() {
        false
    } else {
        is_terminator(events[i], key) || has_terminator(events, i + 1, key)
    }
}

/// The delta-tick sum from position `i` up to and including the first
/// terminator for `key` (the whole remaining sum where none exists).
pub open spec fn delta_sum_to_terminator(events: Seq<RawEvent>, i: int, key: u8) -> int
    decreases events.len() - i,
{
    if i < 0 || i >= events.len() {
        0
    } else if is_terminator(events[i], key) {
        events[i].delta as int
    } else {
        events[i].delta + delta_sum_to_terminator(events, i + 1, key)
    }
}

/// The raw-tick distance from the event at `start` to the terminator of
/// `key`, or 0 where no terminator follows (an unterminated note is treated
/// as instant and left to the player's safety net).
pub open spec fn resolve_off_spec(events: Seq<RawEvent>, start: int, key: u8) -> int {
    if has_terminator(events, start + 1, key) {
        delta_sum_to_terminator(events, start + 1, key)
    } else {
        0
    }
}

/// The plain delta-tick sum over positions `lo..hi`.
spec fn delta_sum_range(events: Seq<RawEvent>, lo: int, hi: int) -> int
    decreases hi - lo,
{
    if lo >= hi {
        0
    } else {
        events[lo].delta + delta_sum_range(events, lo + 1, hi)
    }
}

proof fn lemma_sum_to_terminator(events: Seq<RawEvent>, lo: int, t: int, key: u8)
    requires
        0 <= lo <= t < events.len(),
        forall|j: int| lo <= j < t ==> !is_terminator(events[j], key),
        is_terminator(events[t], key),
    ensures
        has_terminator(events, lo, key),
        delta_sum_to_terminator(events, lo, key) == delta_sum_range(events, lo, t)
            + events[t].delta,
    decreases t - lo,
{
    if lo < t {
        lemma_sum_to_terminator(events, lo + 1, t, key);
    }
}

proof fn lemma_no_terminator(events: Seq<RawEvent>, lo: int, key: u8)
    requires
        0 <= lo,
        forall|j: int| lo <= j < events.len() ==> !is_terminator(events[j], key),
    ensures
        !has_terminator(events, lo, key),
    decreases events.len() - lo,
{
    if lo < events.len() {
        lemma_no_terminator(events, lo + 1, key);
    }
}

fn is_terminator_exec(e: &RawEvent, key: u8) -> (r: bool)
    ensures
        r == is_terminator(*e, key),
{
    match e.kind {
        RawEventKind::NoteOff { key: k, .. } => k == key,
        RawEventKind::NoteOn { key: k, vel } => k == key && vel == 0,
        _ => false,
    }
}

/// Scans strictly after `start`, accumulating delta ticks, and stops at the
/// first terminator for `key`, whatever channel it is on (two simultaneous
/// same-key notes on different channels may therefore pair across
/// channels). Returns 0 where no terminator exists before end of track.
pub fn find_next_off_delta(events: &Vec<RawEvent>, start: usize, key: u8) -> (r: u64)
    requires
        events.len() <= u32::MAX,
        start < events.len(),
    ensures
        r == resolve_off_spec(events@, start as int, key),
{
    let mut acc: u64 = 0;
    let mut i: usize = start + 1;
    while i < events.len()
        invariant
            events.len() <= u32::MAX,
            start + 1 <= i <= events.len(),
            acc == delta_sum_range(events@, start + 1, i as int),
            acc <= (i - start - 1) * 0xffff_ffffu64,
            forall|j: int| start + 1 <= j < i ==> !is_terminator(events@[j], key),
        decreases events.len() - i,
    {
        let e = events[i];
        if is_terminator_exec(&e, key) {
            proof {
                lemma_sum_to_terminator(events@, start + 1, i as int, key);
            }
            return acc + e.delta as u64;
        }
        proof {
            lemma_delta_sum_range_snoc(events@, start + 1, i as int);
        }
        acc = acc + e.delta as u64;
        i = i + 1;
    }
    proof {
        lemma_no_terminator(events@, start + 1, key);
    }
    0
}

proof fn lemma_delta_sum_range_snoc(events: Seq<RawEvent>, lo: int, hi: int)
    requires
        0 <= lo <= hi < events.len(),
    ensures
        delta_sum_range(events, lo, hi + 1) == delta_sum_range(events, lo, hi)
            + events[hi].delta,
    decreases hi - lo,
{
    if lo < hi {
        lemma_delta_sum_range_snoc(events, lo + 1, hi);
    } else {
        assert(delta_sum_range(events, hi + 1, hi + 1) == 0);
    }
}

/// The tempo cell after a tempo marker: the most recent non-zero marker
/// wins; a zero value (which would make beats infinitely short) is ignored.
pub open spec fn updated_tempo(cur: u32, t: u32) -> u32 {
    if t == 0 {
        cur
    } else {
        t
    }
}

/// The event sequence built from `events[i..]`, with `pending` raw ticks
/// already accumulated and `tempo_us` the tempo in force. Each note-on with
/// positive velocity first flushes the pending raw ticks as a `Wait` (only
/// where the converted wait is non-zero), then emits the note: open-ended
/// where its converted duration is zero, with explicit ticks otherwise.
/// Tempo markers switch the tempo for everything after them. Trailing
/// pending ticks are discarded.
pub open spec fn build_spec(
    events: Seq<RawEvent>,
    i: int,
    timing: Timing,
    tempo_us: u32,
    ptb: u32,
    pending: int,
) -> Seq<Event>
    decreases events.len() - i,
{
    if i < 0 || i >= events.len() {
        Seq::empty()
    } else {
        let e = events[i];
        let pend = pending + e.delta;
        match e.kind {
            RawEventKind::TempoChange { tempo_us: t } => build_spec(
                events,
                i + 1,
                timing,
                updated_tempo(tempo_us, t),
                ptb,
                pend,
            ),
            RawEventKind::NoteOn { key, vel } => if vel > 0 {
                let wait = convert_spec(pend, timing, tempo_us as int, ptb as int);
                let d = resolve_off_spec(events, i, key);
                let dur = convert_spec(d, timing, tempo_us as int, ptb as int);
                let note = if dur == 0 {
                    Event::PlayNote { key, dynamic: Dynamic::from_vel_spec(vel) }
                } else {
                    Event::PlayNoteTicks {
                        key,
                        dynamic: Dynamic::from_vel_spec(vel),
                        ticks: dur as u32,
                    }
                };
                let head = if wait > 0 {
                    seq![Event::Wait { ticks: wait as u32 }, note]
                } else {
                    seq![note]
                };
                head + build_spec(events, i + 1, timing, tempo_us, ptb, 0)
            } else {
                build_spec(events, i + 1, timing, tempo_us, ptb, pend)
            },
            _ => build_spec(events, i + 1, timing, tempo_us, ptb, pend),
        }
    }
}

/// An event a built sequence is allowed to hold: waits and explicit note
/// durations are strictly positive, and every key is a valid MIDI key.
pub open spec fn built_event_ok(e: Event) -> bool {
    &&& e.wf()
    &&& match e {
        Event::Wait { ticks } => ticks > 0,
        Event::PlayNoteTicks { ticks, .. } => ticks > 0,
        _ => true,
    }
}

proof fn lemma_sum_to_terminator_nonneg(events: Seq<RawEvent>, i: int, key: u8)
    ensures
        delta_sum_to_terminator(events, i, key) >= 0,
    decreases events.len() - i,
{
    if 0 <= i < events.len() && !is_terminator(events[i], key) {
        lemma_sum_to_terminator_nonneg(events, i + 1, key);
    }
}

/// No zero-tick `Wait` and no zero-tick `PlayNoteTicks` ever appears in a
/// built sequence, and every built event names a valid key.
pub proof fn lemma_build_events_ok(
    events: Seq<RawEvent>,
    i: int,
    timing: Timing,
    tempo_us: u32,
    ptb: u32,
    pending: int,
)
    requires
        timing.valid(),
        tempo_us >= 1,
        pending >= 0,
        forall|j: int| 0 <= j < events.len() ==> (#[trigger] events[j]).wf(),
    ensures
        forall|j: int| 0 <= j < build_spec(events, i, timing, tempo_us, ptb, pending).len()
            ==> built_event_ok(#[trigger] build_spec(events, i, timing, tempo_us, ptb, pending)[j]),
    decreases events.len() - i,
{
    if i < 0 || i >= events.len() {
    } else {
        let e = events[i];
        let pend = pending + e.delta;
        let whole = build_spec(events, i, timing, tempo_us, ptb, pending);
        match e.kind {
            RawEventKind::TempoChange { tempo_us: t } => {
                lemma_build_events_ok(events, i + 1, timing, updated_tempo(tempo_us, t), ptb, pend);
                let tail = build_spec(events, i + 1, timing, updated_tempo(tempo_us, t), ptb, pend);
                assert(whole == tail);
                assert forall|j: int| 0 <= j < whole.len() implies built_event_ok(
                    #[trigger] whole[j],
                ) by {
                    assert(built_event_ok(tail[j]));
                }
            },
            RawEventKind::NoteOn { key, vel } => {
                if vel > 0 {
                    lemma_build_events_ok(events, i + 1, timing, tempo_us, ptb, 0);
                    let wait = convert_spec(pend, timing, tempo_us as int, ptb as int);
                    let d = resolve_off_spec(events, i, key);
                    let dur = convert_spec(d, timing, tempo_us as int, ptb as int);
                    lemma_sum_to_terminator_nonneg(events, i + 1, key);
                    crate::timing::lemma_convert_bounds(pend, timing, tempo_us as int, ptb as int);
                    crate::timing::lemma_convert_bounds(d, timing, tempo_us as int, ptb as int);
                    let note = if dur == 0 {
                        Event::PlayNote { key, dynamic: Dynamic::from_vel_spec(vel) }
                    } else {
                        Event::PlayNoteTicks {
                            key,
                            dynamic: Dynamic::from_vel_spec(vel),
                            ticks: dur as u32,
                        }
                    };
                    let head = if wait > 0 {
                        seq![Event::Wait { ticks: wait as u32 }, note]
                    } else {
                        seq![note]
                    };
                    let rest = build_spec(events, i + 1, timing, tempo_us, ptb, 0);
                    assert(events[i].wf());
                    assert(built_event_ok(note));
                    assert(wait > 0 ==> built_event_ok(Event::Wait { ticks: wait as u32 }));
                    assert(whole == head + rest);
                    assert forall|j: int| 0 <= j < whole.len() implies built_event_ok(
                        #[trigger] whole[j],
                    ) by {
                        if j >= head.len() {
                            assert(built_event_ok(rest[j - head.len()]));
                        } else {
                            assert(whole[j] == head[j]);
                        }
                    }
                } else {
                    lemma_build_events_ok(events, i + 1, timing, tempo_us, ptb, pend);
                    let tail = build_spec(events, i + 1, timing, tempo_us, ptb, pend);
                    assert(whole == tail);
                    assert forall|j: int| 0 <= j < whole.len() implies built_event_ok(
                        #[trigger] whole[j],
                    ) by {
                        assert(built_event_ok(tail[j]));
                    }
                }
            },
            _ => {
                lemma_build_events_ok(events, i + 1, timing, tempo_us, ptb, pend);
                let tail = build_spec(events, i + 1, timing, tempo_us, ptb, pend);
                assert(whole == tail);
                assert forall|j: int| 0 <= j < whole.len() implies built_event_ok(
                    #[trigger] whole[j],
                ) by {
                    assert(built_event_ok(tail[j]));
                }
            },
        }
    }
}

/// Builds the event sequence for a whole track: a single left-to-right
/// pass, exactly `build_spec` from position 0.
pub fn build_events(events: &Vec<RawEvent>, timing: &Timing, start_tempo_us: u32, ptb: u32)
    -> (r: Vec<Event>)
    requires
        timing.valid(),
        start_tempo_us >= 1,
        events.len() <= u32::MAX,
        forall|j: int| 0 <= j < events@.len() ==> (#[trigger] events@[j]).wf(),
    ensures
        r@ == build_spec(events@, 0, *timing, start_tempo_us, ptb, 0),
{
    let mut out: Vec<Event> = Vec::new();
    let mut tempo: u32 = start_tempo_us;
    let mut pending: u64 = 0;
    let mut i: usize = 0;
    while i < events.len()
        invariant
            events.len() <= u32::MAX,
            i <= events.len(),
            timing.valid(),
            tempo >= 1,
            forall|j: int| 0 <= j < events@.len() ==> (#[trigger] events@[j]).wf(),
            pending <= i * 0xffff_ffffu64,
            build_spec(events@, 0, *timing, start_tempo_us, ptb, 0) == out@ + build_spec(
                events@,
                i as int,
                *timing,
                tempo,
                ptb,
                pending as int,
            ),
        decreases events.len() - i,
    {
        let ghost prev_out = out@;
        let ghost prev_pending = pending as int;
        let e = events[i];
        let pend2: u64 = pending + e.delta as u64;
        match e.kind {
            RawEventKind::TempoChange { tempo_us: t } => {
                if t != 0 {
                    tempo = t;
                }
                pending = pend2;
            },
            RawEventKind::NoteOn { key, vel } if vel > 0 => {
                let wait = convert_ticks(pend2, timing, tempo, ptb);
                let d = find_next_off_delta(events, i, key);
                let dur = convert_ticks(d, timing, tempo, ptb);
                let note = if dur == 0 {
                    Event::PlayNote { key, dynamic: Dynamic::from_velocity(vel) }
                } else {
                    Event::PlayNoteTicks { key, dynamic: Dynamic::from_velocity(vel), ticks: dur }
                };
                if wait > 0 {
                    out.push(Event::Wait { ticks: wait });
                }
                out.push(note);
                pending = 0;
                proof {
                    let head = (if wait > 0 {
                        seq![Event::Wait { ticks: wait }, note]
                    } else {
                        seq![note]
                    });
                    let rest = build_spec(events@, i + 1, *timing, tempo, ptb, 0);
                    assert(build_spec(events@, i as int, *timing, tempo, ptb, prev_pending)
                        == head + rest);
                    assert(out@ =~= prev_out + head);
                    assert(prev_out + (head + rest) =~= (prev_out + head) + rest);
                }
            },
            _ => {
                pending = pend2;
            },
        }
        i = i + 1;
    }
    proof {
        assert(out@ + build_spec(events@, i as int, *timing, tempo, ptb, pending as int) =~= out@);
    }
    out
}

/// The exact beat count that a raw-tick distance spans: the distance over
/// the raw ticks per beat, as a rational, or nothing where its numerator
/// cannot be held in 64 bits.
pub open spec fn note_beats_spec(d: int, timing: Timing, tempo_us: u32) -> Option<
    crate::notes::Beats,
> {
    match timing {
        Timing::Metrical { ppq } => if d <= u64::MAX {
            Some(crate::notes::Beats { num: d as u64, den: ppq as u64 })
        } else {
            None
        },
        Timing::Timecode { fps, subframes } => if d * 1_000_000 <= u64::MAX {
            Some(
                crate::notes::Beats {
                    num: (d * 1_000_000) as u64,
                    den: (fps as int * subframes as int * tempo_us) as u64,
                },
            )
        } else {
            None
        },
    }
}

/// The notes of a track, in file order: one per note-on with positive
/// velocity, holding its key, its velocity, and the exact beat count to
/// its terminator. Nothing where some note's beat count cannot be held.
pub open spec fn notes_build(events: Seq<RawEvent>, i: int, timing: Timing, tempo_us: u32)
    -> Option<Seq<crate::notes::Note>>
    decreases events.len() - i,
{
    if i < 0 || i >= events.len() {
        Some(Seq::empty())
    } else {
        let e = events[i];
        match e.kind {
            RawEventKind::TempoChange { tempo_us: t } => notes_build(
                events,
                i + 1,
                timing,
                updated_tempo(tempo_us, t),
            ),
            RawEventKind::NoteOn { key, vel } => if vel > 0 {
                let d = resolve_off_spec(events, i, key);
                match note_beats_spec(d, timing, tempo_us) {
                    None => None,
                    Some(b) => match notes_build(events, i + 1, timing, tempo_us) {
                        None => None,
                        Some(rest) => Some(
                            seq![crate::notes::Note { note: key, vel, beats: b }] + rest,
                        ),
                    },
                }
            } else {
                notes_build(events, i + 1, timing, tempo_us)
            },
            _ => notes_build(events, i + 1, timing, tempo_us),
        }
    }
}

/// A parsed file reduced to the notes of its second track (the first track
/// of a multi-track file usually holds only metadata).
pub struct Midi {
    notes: Vec<crate::notes::Note>,
}

impl Midi {
    /// The notes this file holds.
    pub closed spec fn notes_spec(self) -> Seq<crate::notes::Note> {
        self.notes@
    }

    pub fn notes(&self) -> (r: &Vec<crate::notes::Note>)
        ensures
            r@ == self.notes_spec(),
    {
        &self.notes
    }
}

/// Reads the notes of track 1 of a MIDI file, each with its key, velocity
/// and exact beat length, at the default starting tempo of 120 beats per
/// minute. Fails with `ParseError` on malformed bytes, a zero timing
/// division, an unindexable track, or a note length that cannot be held
/// exactly; with `MissingTrack` where the file has no track 1.
pub fn parse(data: &[u8]) -> (r: Result<Midi, MidiError>)
    ensures
        (match midi_file(data@) {
            None => r matches Err(MidiError::ParseError),
            Some((timing, tracks)) => {
                if tracks.len() < 2 {
                    r matches Err(MidiError::MissingTrack)
                } else if !timing.valid() || tracks[1].len() > u32::MAX {
                    r matches Err(MidiError::ParseError)
                } else {
                    match notes_build(tracks[1], 0, timing, 500_000) {
                        None => r matches Err(MidiError::ParseError),
                        Some(ns) => r matches Ok(m) && m.notes_spec() == ns,
                    }
                }
            },
        }),
{
    let smf = match parse_smf(data) {
        None => {
            return Err(MidiError::ParseError);
        },
        Some(s) => s,
    };
    let n = smf_num_tracks(&smf);
    if n < 2 {
        return Err(MidiError::MissingTrack);
    }
    let timing = smf_timing(&smf);
    if !timing.is_valid() {
        return Err(MidiError::ParseError);
    }
    let len = smf_track_len(&smf, 1);
    if len > u32::MAX as usize {
        return Err(MidiError::ParseError);
    }
    let mut raw: Vec<RawEvent> = Vec::new();
    let mut i: usize = 0;
    while i < len
        invariant
            i <= len,
            1 < smf_tracks(smf).len(),
            len == smf_tracks(smf)[1].len(),
            raw@ == smf_tracks(smf)[1].subrange(0, i as int),
            forall|j: int| 0 <= j < raw@.len() ==> (#[trigger] raw@[j]).wf(),
        decreases len - i,
    {
        let e = smf_event_at(&smf, 1, i);
        raw.push(e);
        proof {
            assert(raw@ =~= smf_tracks(smf)[1].subrange(0, i + 1));
        }
        i = i + 1;
    }
    proof {
        assert(raw@ =~= smf_tracks(smf)[1]);
    }
    match extract_notes(&raw, &timing, 500_000) {
        Some(notes) => Ok(Midi { notes }),
        None => Err(MidiError::ParseError),
    }
}

/// One pass over a track collecting its notes, exactly `notes_build`.
fn extract_notes(events: &Vec<RawEvent>, timing: &Timing, start_tempo_us: u32) -> (r: Option<
    Vec<crate::notes::Note>,
>)
    requires
        timing.valid(),
        start_tempo_us >= 1,
        events.len() <= u32::MAX,
        forall|j: int| 0 <= j < events@.len() ==> (#[trigger] events@[j]).wf(),
    ensures
        (match r {
            Some(ns) => Some(ns@) == notes_build(events@, 0, *timing, start_tempo_us),
            None => notes_build(events@, 0, *timing, start_tempo_us) is None,
        }),
{
    let mut out: Vec<crate::notes::Note> = Vec::new();
    let mut tempo: u32 = start_tempo_us;
    let mut i: usize = 0;
    while i < events.len()
        invariant
            events.len() <= u32::MAX,
            i <= events.len(),
            timing.valid(),
            tempo >= 1,
            forall|j: int| 0 <= j < events@.len() ==> (#[trigger] events@[j]).wf(),
            (match notes_build(events@, i as int, *timing, tempo) {
                None => notes_build(events@, 0, *timing, start_tempo_us) is None,
                Some(rest) => notes_build(events@, 0, *timing, start_tempo_us) == Some(
                    out@ + rest,
                ),
            }),
        decreases events.len() - i,
    {
        let ghost prev_out = out@;
        let e = events[i];
        match e.kind {
            RawEventKind::TempoChange { tempo_us: t } => {
                if t != 0 {
                    tempo = t;
                }
            },
            RawEventKind::NoteOn { key, vel } if vel > 0 => {
                let d = find_next_off_delta(events, i, key);
                let beats = match compute_note_beats(d, timing, tempo) {
                    Some(b) => b,
                    None => {
                        return None;
                    },
                };
                out.push(crate::notes::Note { note: key, vel, beats });
                proof {
                    let rest = notes_build(events@, i + 1, *timing, tempo);
                    if rest is Some {
                        assert(prev_out + (seq![
                            crate::notes::Note { note: key, vel, beats },
                        ] + rest->Some_0) =~= out@ + rest->Some_0);
                    }
                }
            },
            _ => {},
        }
        i = i + 1;
    }
    proof {
        assert(out@ + Seq::<crate::notes::Note>::empty() =~= out@);
    }
    Some(out)
}

/// The exact beat count of a raw distance, mirroring `note_beats_spec`.
fn compute_note_beats(d: u64, timing: &Timing, tempo_us: u32) -> (r: Option<crate::notes::Beats>)
    requires
        timing.valid(),
        tempo_us >= 1,
    ensures
        (match r {
            Some(b) => note_beats_spec(d as int, *timing, tempo_us) == Some(b),
            None => note_beats_spec(d as int, *timing, tempo_us) is None,
        }),
{
    match *timing {
        Timing::Metrical { ppq } => Some(crate::notes::Beats { num: d, den: ppq as u64 }),
        Timing::Timecode { fps, subframes } => {
            let num128: u128 = (d as u128) * 1_000_000;
            if num128 > u64::MAX as u128 {
                None
            } else {
                proof {
                    assert(1 <= (fps as int) * (subframes as int) < 0x10000)
                        by (nonlinear_arith)
                        requires 1 <= fps < 0x100 && 1 <= subframes < 0x100;
                    assert(1 <= (fps as int) * (subframes as int) * (tempo_us as int)
                        <= 0xffff_0000_0000_0000int) by (nonlinear_arith)
                        requires
                            1 <= (fps as int) * (subframes as int) < 0x10000 && 1 <= tempo_us
                                <= u32::MAX;
                }
                let den: u64 = (fps as u64) * (subframes as u64) * (tempo_us as u64);
                Some(crate::notes::Beats { num: num128 as u64, den })
            }
        },
    }
}

/// An ordered, immutable event sequence together with the player tick rate
/// it was built for.
pub struct MidiSequence {
    pub events: Vec<Event>,
    pub ticks_per_beat: u32,
}

impl MidiSequence {
    pub fn new(events: Vec<Event>, ticks_per_beat: u32) -> (r: MidiSequence)
        ensures
            r.events == events,
            r.ticks_per_beat == ticks_per_beat,
    {
        MidiSequence { events, ticks_per_beat }
    }

    /// The player tick rate the sequence was built for.
    pub fn ticks_per_beat(&self) -> (r: u32)
        ensures
            r == self.ticks_per_beat,
    {
        self.ticks_per_beat
    }
}

/// Builds event sequences from file bytes at a chosen player tick rate,
/// starting each track at a fixed initial tempo.
pub struct Parser {
    /// The tempo in force before the first tempo marker, in microseconds
    /// per beat; always at least 1.
    pub tempo_us: u32,
    /// The player tick rate that built sequences use.
    pub ticks_per_beat: u32,
}

impl Default for Parser {
    /// 120 beats per minute and 12 player ticks per beat.
    fn default() -> (r: Parser)
        ensures
            r.tempo_us == 500_000,
            r.ticks_per_beat == 12,
    {
        Parser { tempo_us: 500_000, ticks_per_beat: 12 }
    }
}

impl Parser {
    /// The same starting tempo with another player tick rate.
    pub fn with_ticks_per_beat(&self, t: u32) -> (r: Parser)
        ensures
            r.ticks_per_beat == t,
            r.tempo_us == self.tempo_us,
    {
        Parser { ticks_per_beat: t, tempo_us: self.tempo_us }
    }

    /// Converts one raw-tick distance at this parser's starting tempo.
    pub fn ticks_from_delta(&self, delta: u32, timing: &Timing) -> (r: u32)
        requires
            timing.valid(),
            self.tempo_us >= 1,
        ensures
            r == convert_spec(delta as int, *timing, self.tempo_us as int, self.ticks_per_beat as int),
    {
        convert_ticks(delta as u64, timing, self.tempo_us, self.ticks_per_beat)
    }

    /// Parses file bytes and builds the event sequence of one track.
    ///
    /// Fails with `ParseError` on malformed bytes, on a header timing with
    /// a zero division, and on a track whose event count cannot be
    /// indexed by a 32-bit count; fails with `MissingTrack` when `track_i`
    /// is out of range; otherwise returns exactly the built sequence.
    pub fn parse_seq(&self, data: &[u8], track_i: usize) -> (r: Result<MidiSequence, MidiError>)
        requires
            self.tempo_us >= 1,
        ensures
            (match midi_file(data@) {
                None => r matches Err(MidiError::ParseError),
                Some((timing, tracks)) => {
                    if track_i >= tracks.len() {
                        r matches Err(MidiError::MissingTrack)
                    } else if !timing.valid() || tracks[track_i as int].len() > u32::MAX {
                        r matches Err(MidiError::ParseError)
                    } else {
                        r matches Ok(seq)
                            && seq.events@ == build_spec(
                            tracks[track_i as int],
                            0,
                            timing,
                            self.tempo_us,
                            self.ticks_per_beat,
                            0,
                        )
                            && seq.ticks_per_beat == self.ticks_per_beat
                    }
                },
            }),
            r matches Ok(seq) ==> forall|j: int| 0 <= j < seq.events@.len()
                ==> built_event_ok(#[trigger] seq.events@[j]),
    {
        let smf = match parse_smf(data) {
            None => {
                return Err(MidiError::ParseError);
            },
            Some(s) => s,
        };
        let n = smf_num_tracks(&smf);
        if track_i >= n {
            return Err(MidiError::MissingTrack);
        }
        let timing = smf_timing(&smf);
        if !timing.is_valid() {
            return Err(MidiError::ParseError);
        }
        let len = smf_track_len(&smf, track_i);
        if len > u32::MAX as usize {
            return Err(MidiError::ParseError);
        }
        let mut raw: Vec<RawEvent> = Vec::new();
        let mut i: usize = 0;
        while i < len
            invariant
                i <= len,
                len == smf_tracks(smf)[track_i as int].len(),
                track_i < smf_tracks(smf).len(),
                raw@ == smf_tracks(smf)[track_i as int].subrange(0, i as int),
                forall|j: int| 0 <= j < raw@.len() ==> (#[trigger] raw@[j]).wf(),
            decreases len - i,
        {
            let e = smf_event_at(&smf, track_i, i);
            raw.push(e);
            proof {
                assert(raw@ =~= smf_tracks(smf)[track_i as int].subrange(0, i + 1));
            }
            i = i + 1;
        }
        proof {
            assert(raw@ =~= smf_tracks(smf)[track_i as int]);
        }
        let events = build_events(&raw, &timing, self.tempo_us, self.ticks_per_beat);
        proof {
            lemma_build_events_ok(raw@, 0, timing, self.tempo_us, self.ticks_per_beat, 0);
        }
        Ok(MidiSequence { events, ticks_per_beat: self.ticks_per_beat })
    }
}

} // verus!
