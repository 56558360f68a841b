//! The sequence player: a state machine that consumes events and decides,
//! step by step, which wire messages to send and how long to sleep. The
//! surrounding program performs the sends and the sleeps; the decisions are
//! all here.

use vstd::prelude::*;
use crate::sequence::{Dynamic, Event};

verus! {

/// Wire byte starting a note-on message.
pub const NOTE_ON_MSG: u8 = 0x90;

/// Wire byte starting a note-off message.
pub const NOTE_OFF_MSG: u8 = 0x80;

/// Default humanization range for timing, in milliseconds.
pub const HUMAN_MS_RANGE: u32 = 30;

/// Default humanization range for velocity.
pub const HUMAN_VEL_RANGE: u32 = 12;

/// Max number of beats the player will let an open-ended note ring for.
pub const MAX_NOTE_BEATS: u32 = 4;

/// Recoverable caller errors of the player.
#[derive(Clone, Copy, PartialEq, Eq, Structural, Debug, Hash)]
pub enum PlayerError {
    /// No output port carries the requested name.
    NoPortFound,
    /// An operation that needs a live connection came before `connect`.
    NotConnected,
}

/// One 3-byte wire message to hand to the MIDI output.
#[derive(Clone, Copy, PartialEq, Eq, Structural, Debug, Hash)]
pub enum MidiCmd {
    NoteOn { key: u8, vel: u8 },
    NoteOff { key: u8 },
}

impl MidiCmd {
    /// The bytes of the message as they go on the wire.
    pub fn to_bytes(&self) -> (r: [u8; 3])
        ensures
            (match *self {
                MidiCmd::NoteOn { key, vel } => r@ == seq![NOTE_ON_MSG, key, vel],
                MidiCmd::NoteOff { key } => r@ == seq![NOTE_OFF_MSG, key, 0u8],
            }),
    {
        let r = match *self {
            MidiCmd::NoteOn { key, vel } => [NOTE_ON_MSG, key, vel],
            MidiCmd::NoteOff { key } => [NOTE_OFF_MSG, key, 0u8],
        };
        proof {
            match *self {
                MidiCmd::NoteOn { key, vel } => {
                    assert(r@ =~= seq![NOTE_ON_MSG, key, vel]);
                },
                MidiCmd::NoteOff { key } => {
                    assert(r@ =~= seq![NOTE_OFF_MSG, key, 0u8]);
                },
            }
        }
        r
    }
}

/// What the caller must perform after one handled event: send the messages
/// in order, then sleep.
#[derive(Debug)]
pub struct Actions {
    pub cmds: Vec<MidiCmd>,
    pub sleep_us: u64,
}

/// An integer clamped into the `u32` range.
pub open spec fn sat_u32(x: int) -> u32 {
    if x > u32::MAX {
        u32::MAX
    } else if x < 0 {
        0u32
    } else {
        x as u32
    }
}

/// The wall-clock length of one player tick in microseconds:
/// one minute divided by the tempo and by the ticks per beat, rounded.
pub open spec fn tick_dur_spec(bpm: int, tpb: int) -> int {
    crate::timing::round_div(60_000_000, bpm * tpb)
}

/// Velocity after humanization: the base velocity plus the jitter,
/// saturated into the valid velocity range 0..=127.
pub open spec fn humanized_vel(base: u8, jitter: int) -> u8 {
    if base + jitter < 0 {
        0u8
    } else if base + jitter > 127 {
        127u8
    } else {
        (base + jitter) as u8
    }
}

/// Humanization never produces a velocity outside 0..=127, whatever the
/// jitter magnitude or base velocity.
pub fn humanize_velocity(base: u8, jitter: i32) -> (r: u8)
    ensures
        r == humanized_vel(base, jitter as int),
        r <= 127,
{
    let v: i64 = base as i64 + jitter as i64;
    if v < 0 {
        0
    } else if v > 127 {
        127
    } else {
        v as u8
    }
}

/// The key slots after the safety-net sweep: every deadline strictly before
/// `played` is cleared.
pub open spec fn swept_notes(notes: Seq<Option<u32>>, played: u32) -> Seq<Option<u32>> {
    Seq::new(
        notes.len(),
        |k: int|
            match notes[k] {
                Some(d) => if d < played {
                    None
                } else {
                    Some(d)
                },
                None => None,
            },
    )
}

/// The note-off message for slot `k` where its deadline has passed.
pub open spec fn sweep_entry(notes: Seq<Option<u32>>, played: u32, k: int) -> Seq<MidiCmd> {
    match notes[k] {
        Some(d) => if d < played {
            seq![MidiCmd::NoteOff { key: k as u8 }]
        } else {
            Seq::empty()
        },
        None => Seq::empty(),
    }
}

/// The note-off messages of the sweep over slots `lo..hi`, in key order.
pub open spec fn sweep_cmds_range(notes: Seq<Option<u32>>, played: u32, lo: int, hi: int)
    -> Seq<MidiCmd>
    decreases hi - lo,
{
    if lo >= hi {
        Seq::empty()
    } else {
        sweep_entry(notes, played, lo) + sweep_cmds_range(notes, played, lo + 1, hi)
    }
}

/// The note-off messages of the whole sweep, in key order.
pub open spec fn sweep_cmds(notes: Seq<Option<u32>>, played: u32) -> Seq<MidiCmd> {
    sweep_cmds_range(notes, played, 0, notes.len() as int)
}

proof fn lemma_sweep_cmds_range_snoc(notes: Seq<Option<u32>>, played: u32, lo: int, hi: int)
    requires
        0 <= lo <= hi < notes.len(),
    ensures
        sweep_cmds_range(notes, played, lo, hi + 1) == sweep_cmds_range(notes, played, lo, hi)
            + sweep_entry(notes, played, hi),
    decreases hi - lo,
{
    if lo < hi {
        lemma_sweep_cmds_range_snoc(notes, played, lo + 1, hi);
        assert(sweep_cmds_range(notes, played, lo, hi + 1) == sweep_entry(notes, played, lo)
            + sweep_cmds_range(notes, played, lo + 1, hi + 1));
        assert(sweep_entry(notes, played, lo) + (sweep_cmds_range(notes, played, lo + 1, hi)
            + sweep_entry(notes, played, hi)) =~= (sweep_entry(notes, played, lo)
            + sweep_cmds_range(notes, played, lo + 1, hi)) + sweep_entry(notes, played, hi));
    } else {
        assert(sweep_cmds_range(notes, played, hi + 1, hi + 1) == Seq::<MidiCmd>::empty());
        assert(sweep_cmds_range(notes, played, lo, hi + 1) =~= sweep_entry(notes, played, hi)
            + Seq::<MidiCmd>::empty());
        assert(sweep_entry(notes, played, hi) + Seq::<MidiCmd>::empty() =~= sweep_entry(
            notes,
            played,
            hi,
        ));
        assert(sweep_cmds_range(notes, played, lo, hi) == Seq::<MidiCmd>::empty());
        assert(Seq::<MidiCmd>::empty() + sweep_entry(notes, played, hi) =~= sweep_entry(
            notes,
            played,
            hi,
        ));
    }
}

/// The state of a sequence player. The output connection itself lives with
/// the caller; the player tracks whether one is established and decides
/// everything else.
pub struct Player {
    /// The client name this player presents to the MIDI subsystem.
    pub client_name: String,
    /// Tempo in beats per minute; at least 1.
    pub tempo_bpm: u32,
    /// Player ticks per beat; at least 1.
    pub ticks_per_beat: u32,
    /// Microseconds per tick, kept in sync with tempo and ticks per beat.
    pub tick_dur_us: u64,
    /// Whether an output connection is established.
    pub connected: bool,
    /// Ticks advanced so far; monotonically non-decreasing.
    pub ticks_played: u32,
    /// Per key, the tick after which the key must stop sounding.
    pub notes_on: Vec<Option<u32>>,
    /// Carry-over correction from the previous wait's jitter, microseconds.
    pub timeshift_us: i64,
    /// Humanization range for timing, milliseconds.
    pub human_ms_range: u32,
    /// Humanization range for velocity.
    pub human_vel_range: u32,
}

/// Largest carry-over the timeshift can hold: a full `i32` millisecond
/// jitter in microseconds.
pub open spec fn timeshift_bound() -> int {
    0x8000_0000int * 1000
}

impl Player {
    /// The player's internal invariant.
    pub open spec fn wf(self) -> bool {
        &&& self.tempo_bpm >= 1
        &&& self.ticks_per_beat >= 1
        &&& self.notes_on@.len() == 128
        &&& self.tick_dur_us == tick_dur_spec(self.tempo_bpm as int, self.ticks_per_beat as int)
        &&& self.tick_dur_us <= 60_000_000
        &&& -timeshift_bound() <= self.timeshift_us <= timeshift_bound()
        &&& self.human_ms_range <= 0x7fff_ffff
        &&& self.human_vel_range <= 0x7fff_ffff
    }

    /// Everything but the note slots, the tick counter and the timeshift.
    pub open spec fn same_config(self, other: Player) -> bool {
        &&& self.client_name == other.client_name
        &&& self.tempo_bpm == other.tempo_bpm
        &&& self.ticks_per_beat == other.ticks_per_beat
        &&& self.tick_dur_us == other.tick_dur_us
        &&& self.connected == other.connected
        &&& self.human_ms_range == other.human_ms_range
        &&& self.human_vel_range == other.human_vel_range
    }

    /// A fresh, disconnected player: 120 beats per minute, 12 ticks per
    /// beat, nothing sounding, default humanization.
    pub fn new(client_name: &str) -> (r: Player)
        ensures
            r.wf(),
            r.client_name@ == client_name@,
            !r.connected,
            r.tempo_bpm == 120,
            r.ticks_per_beat == 12,
            r.ticks_played == 0,
            r.timeshift_us == 0,
            r.human_ms_range == HUMAN_MS_RANGE,
            r.human_vel_range == HUMAN_VEL_RANGE,
            forall|k: int| 0 <= k < 128 ==> r.notes_on@[k] is None,
    {
        let tick_dur_us = compute_tick_dur(120, 12);
        let mut notes_on: Vec<Option<u32>> = Vec::new();
        let mut k: usize = 0;
        while k < 128
            invariant
                k <= 128,
                notes_on@.len() == k,
                forall|j: int| 0 <= j < k ==> notes_on@[j] is None,
            decreases 128 - k,
        {
            notes_on.push(None);
            k = k + 1;
        }
        Player {
            client_name: client_name.to_owned(),
            tempo_bpm: 120,
            ticks_per_beat: 12,
            tick_dur_us,
            connected: false,
            ticks_played: 0,
            notes_on,
            timeshift_us: 0,
            human_ms_range: HUMAN_MS_RANGE,
            human_vel_range: HUMAN_VEL_RANGE,
        }
    }

    pub fn tempo(&self) -> (r: u32)
        ensures
            r == self.tempo_bpm,
    {
        self.tempo_bpm
    }

    /// Sets the tempo and recomputes the tick duration.
    pub fn set_tempo(&mut self, tempo_bpm: u32)
        requires
            old(self).wf(),
            tempo_bpm >= 1,
        ensures
            final(self).wf(),
            *final(self) == (Player {
                tempo_bpm,
                tick_dur_us: final(self).tick_dur_us,
                ..*old(self)
            }),
            final(self).tick_dur_us == tick_dur_spec(
                tempo_bpm as int,
                old(self).ticks_per_beat as int,
            ),
    {
        self.tempo_bpm = tempo_bpm;
        self.tick_dur_us = compute_tick_dur(self.tempo_bpm, self.ticks_per_beat);
    }

    /// Sets the tick rate and recomputes the tick duration.
    pub fn set_ticks_per_beat(&mut self, ticks_per_beat: u32)
        requires
            old(self).wf(),
            ticks_per_beat >= 1,
        ensures
            final(self).wf(),
            *final(self) == (Player {
                ticks_per_beat,
                tick_dur_us: final(self).tick_dur_us,
                ..*old(self)
            }),
            final(self).tick_dur_us == tick_dur_spec(
                old(self).tempo_bpm as int,
                ticks_per_beat as int,
            ),
    {
        self.ticks_per_beat = ticks_per_beat;
        self.tick_dur_us = compute_tick_dur(self.tempo_bpm, self.ticks_per_beat);
    }

    /// Sets the timing humanization range, in milliseconds.
    pub fn set_human_ms_range(&mut self, human_ms_range: u32)
        requires
            old(self).wf(),
            human_ms_range <= 0x7fff_ffff,
        ensures
            final(self).wf(),
            *final(self) == (Player { human_ms_range, ..*old(self) }),
    {
        self.human_ms_range = human_ms_range;
    }

    /// Sets the velocity humanization range.
    pub fn set_human_vel_range(&mut self, human_vel_range: u32)
        requires
            old(self).wf(),
            human_vel_range <= 0x7fff_ffff,
        ensures
            final(self).wf(),
            *final(self) == (Player { human_vel_range, ..*old(self) }),
    {
        self.human_vel_range = human_vel_range;
    }

    pub fn ticks_played(&self) -> (r: u32)
        ensures
            r == self.ticks_played,
    {
        self.ticks_played
    }

    /// The wall-clock length of one tick, in microseconds.
    pub fn tick_dur(&self) -> (r: u64)
        ensures
            r == self.tick_dur_us,
    {
        self.tick_dur_us
    }

    /// Establishes the connection against an enumerated list of output
    /// port names: the first port whose name matches exactly is chosen;
    /// with no match the player stays as it was.
    pub fn connect(&mut self, port_names: &Vec<String>, port_name: &str) -> (r: Result<
        usize,
        PlayerError,
    >)
        requires
            old(self).wf(),
        ensures
            final(self).wf(),
            (match r {
                Ok(i) => {
                    &&& i < port_names@.len()
                    &&& port_names@[i as int]@ == port_name@
                    &&& forall|j: int| 0 <= j < i ==> port_names@[j]@ != port_name@
                    &&& final(self).connected
                    &&& *final(self) == (Player { connected: true, ..*old(self) })
                },
                Err(e) => {
                    &&& e == PlayerError::NoPortFound
                    &&& forall|j: int| 0 <= j < port_names@.len() ==> port_names@[j]@
                        != port_name@
                    &&& *final(self) == *old(self)
                },
            }),
    {
        match find_port(port_names, port_name) {
            Some(i) => {
                self.connected = true;
                Ok(i)
            },
            None => Err(PlayerError::NoPortFound),
        }
    }

    /// Plays one note directly: its note-on, the wall-clock length of its
    /// beat count at the current tempo (to sleep), and its note-off.
    /// Requires a live connection, else fails with `NotConnected`.
    pub fn play(&self, note: &crate::notes::Note) -> (r: Result<(MidiCmd, u64, MidiCmd), PlayerError>)
        requires
            self.wf(),
            note.beats.wf(),
        ensures
            !self.connected ==> r matches Err(PlayerError::NotConnected),
            self.connected ==> (r matches Ok(a) && a.0 == (MidiCmd::NoteOn {
                key: note.note,
                vel: note.vel,
            }) && a.1 == beats_sleep_spec(note.beats, self.tempo_bpm as int) && a.2 == (
            MidiCmd::NoteOff { key: note.note })),
    {
        if !self.connected {
            return Err(PlayerError::NotConnected);
        }
        proof {
            assert((note.beats.num as int) * 60_000_000
                < 0x1_0000_0000_0000_0000_0000_0000int) by (nonlinear_arith)
                requires note.beats.num <= u64::MAX;
            assert(1 <= (note.beats.den as int) * (self.tempo_bpm as int)
                < 0x1_0000_0000_0000_0000_0000_0000int) by (nonlinear_arith)
                requires 1 <= note.beats.den <= u64::MAX && 1 <= self.tempo_bpm <= u32::MAX;
        }
        let n: u128 = (note.beats.num as u128) * 60_000_000;
        let d: u128 = (note.beats.den as u128) * (self.tempo_bpm as u128);
        let q: u128 = (2 * n + d) / (2 * d);
        let dur: u64 = if q > u64::MAX as u128 {
            u64::MAX
        } else {
            q as u64
        };
        Ok((
            MidiCmd::NoteOn { key: note.note, vel: note.vel },
            dur,
            MidiCmd::NoteOff { key: note.note },
        ))
    }

    /// Clears every key slot whose deadline lies strictly before the ticks
    /// played, appending one note-off per cleared key, in key order.
    fn sweep(&mut self, cmds: &mut Vec<MidiCmd>)
        requires
            old(self).wf(),
        ensures
            final(self).wf(),
            final(self).same_config(*old(self)),
            final(self).ticks_played == old(self).ticks_played,
            final(self).timeshift_us == old(self).timeshift_us,
            final(self).notes_on@ == swept_notes(old(self).notes_on@, old(self).ticks_played),
            final(cmds)@ == old(cmds)@ + sweep_cmds(old(self).notes_on@, old(self).ticks_played),
    {
        let ghost notes0 = self.notes_on@;
        let ghost cmds0 = cmds@;
        let played = self.ticks_played;
        let mut k: usize = 0;
        while k < 128
            invariant
                k <= 128,
                self.wf(),
                self.same_config(*old(self)),
                self.ticks_played == old(self).ticks_played,
                self.timeshift_us == old(self).timeshift_us,
                played == old(self).ticks_played,
                notes0.len() == 128,
                forall|j: int| 0 <= j < k ==> self.notes_on@[j] == swept_notes(notes0, played)[j],
                forall|j: int| k <= j < 128 ==> self.notes_on@[j] == notes0[j],
                cmds@ == cmds0 + sweep_cmds_range(notes0, played, 0, k as int),
            decreases 128 - k,
        {
            let ghost cmds_prev = cmds@;
            let entry = self.notes_on[k];
            match entry {
                Some(d) => {
                    if d < played {
                        self.notes_on.set(k, None);
                        cmds.push(MidiCmd::NoteOff { key: k as u8 });
                    }
                },
                None => {},
            }
            proof {
                lemma_sweep_cmds_range_snoc(notes0, played, 0, k as int);
                assert(cmds@ =~= cmds0 + sweep_cmds_range(notes0, played, 0, k + 1));
            }
            k = k + 1;
        }
        proof {
            assert(self.notes_on@ =~= swept_notes(notes0, played));
        }
    }

    /// Handles one event with given jitter draws. Requires a live
    /// connection, else fails with `NotConnected` and changes nothing. A
    /// note event records the key's ring deadline and yields its note-on
    /// with the humanized velocity; a stop clears the key and yields its
    /// note-off; a wait yields the sleep length (base duration, carry-over
    /// shift, new jitter, clamped at zero), stores the negated jitter for
    /// the next wait, and advances the tick counter. Whatever the event,
    /// the safety-net sweep then force-stops every key past its deadline,
    /// so that no recorded deadline ever lies behind the tick counter.
    pub fn event_with_jitter(&mut self, event: &Event, vel_jitter: i32, ms_jitter: i32) -> (r:
        Result<Actions, PlayerError>)
        requires
            old(self).wf(),
            event.wf(),
        ensures
            final(self).wf(),
            !old(self).connected ==> (r matches Err(PlayerError::NotConnected)) && *final(self)
                == *old(self),
            old(self).connected ==> r is Ok && final(self).same_config(*old(self)),
            final(self).ticks_played >= old(self).ticks_played,
            old(self).connected ==> final(self).ticks_played == (match *event {
                Event::Wait { ticks } => sat_u32(old(self).ticks_played + ticks),
                _ => old(self).ticks_played,
            }),
            old(self).connected ==> final(self).timeshift_us == (match *event {
                Event::Wait { .. } => -(ms_jitter as int) * 1000,
                _ => old(self).timeshift_us as int,
            }),
            old(self).connected ==> final(self).notes_on@ == swept_notes(
                notes_after_event(*old(self), *event),
                final(self).ticks_played,
            ),
            old(self).connected ==> (r matches Ok(a) ==> a.cmds@ == event_cmds(
                *old(self),
                *event,
                vel_jitter as int,
            ) + sweep_cmds(notes_after_event(*old(self), *event), final(self).ticks_played)),
            old(self).connected ==> (r matches Ok(a) ==> a.sleep_us == (match *event {
                Event::Wait { ticks } => wait_sleep_spec(*old(self), ticks, ms_jitter as int),
                _ => 0int,
            })),
            old(self).connected ==> (forall|k: int| 0 <= k < final(self).notes_on@.len()
                ==> ((#[trigger] final(self).notes_on@[k]) matches Some(d)
                ==> d >= final(self).ticks_played)),
    {
        if !self.connected {
            return Err(PlayerError::NotConnected);
        }
        let mut cmds: Vec<MidiCmd> = Vec::new();
        let mut sleep_us: u64 = 0;
        match *event {
            Event::PlayNote { key, dynamic } => {
                let ring_beats: u64 = MAX_NOTE_BEATS as u64;
                let ring: u64 = (self.ticks_per_beat as u64) * ring_beats;
                let deadline = sat_add_u32(self.ticks_played, ring);
                self.notes_on.set(key as usize, Some(deadline));
                let vel = humanize_velocity(dynamic.vel(), vel_jitter);
                cmds.push(MidiCmd::NoteOn { key, vel });
            },
            Event::PlayNoteTicks { key, dynamic, ticks } => {
                let deadline = sat_add_u32(self.ticks_played, ticks as u64);
                self.notes_on.set(key as usize, Some(deadline));
                let vel = humanize_velocity(dynamic.vel(), vel_jitter);
                cmds.push(MidiCmd::NoteOn { key, vel });
            },
            Event::StopNote { key } => {
                self.notes_on.set(key as usize, None);
                cmds.push(MidiCmd::NoteOff { key });
            },
            Event::Wait { ticks } => {
                sleep_us = compute_wait_sleep(
                    ticks,
                    self.tick_dur_us,
                    self.timeshift_us,
                    ms_jitter,
                );
                self.timeshift_us = -(ms_jitter as i64) * 1000;
                self.ticks_played = sat_add_u32(self.ticks_played, ticks as u64);
            },
        }
        proof {
            assert(cmds@ =~= event_cmds(*old(self), *event, vel_jitter as int));
        }
        self.sweep(&mut cmds);
        Ok(Actions { cmds, sleep_us })
    }
}

/// Relies on `rand::random`: a 32-bit value from the thread-local
/// generator. Nothing is promised of it; every caller must hold for every
/// outcome.
#[verifier::external_body]
fn random_u32() -> u32 {
    rand::random::<u32>()
}

/// A jitter drawn from the window of width `range` centred on zero (the
/// upper half one wider where the range is odd).
fn draw_jitter(range: u32) -> (r: i32)
    requires
        range <= 0x7fff_ffff,
    ensures
        -((range as int) / 2) <= r <= range - (range as int) / 2,
{
    let x = random_u32();
    let m: u32 = x % (range + 1);
    let half: u32 = range / 2;
    (m as i32) - (half as i32)
}

impl Player {
    /// Handles one event as `event_with_jitter` does, drawing the velocity
    /// and timing jitters from the configured humanization ranges.
    pub fn event(&mut self, event: &Event) -> (r: Result<Actions, PlayerError>)
        requires
            old(self).wf(),
            event.wf(),
        ensures
            final(self).wf(),
            !old(self).connected ==> (r matches Err(PlayerError::NotConnected)) && *final(self)
                == *old(self),
            old(self).connected ==> r is Ok && final(self).same_config(*old(self)),
            final(self).ticks_played >= old(self).ticks_played,
            old(self).connected ==> final(self).ticks_played == (match *event {
                Event::Wait { ticks } => sat_u32(old(self).ticks_played + ticks),
                _ => old(self).ticks_played,
            }),
            old(self).connected ==> final(self).notes_on@ == swept_notes(
                notes_after_event(*old(self), *event),
                final(self).ticks_played,
            ),
            old(self).connected ==> (r matches Ok(a) ==> exists|vj: int|
                jitter_in(vj, old(self).human_vel_range) && a.cmds@ == event_cmds(
                    *old(self),
                    *event,
                    vj,
                ) + sweep_cmds(notes_after_event(*old(self), *event), final(self).ticks_played)),
            old(self).connected ==> (match *event {
                Event::Wait { ticks } => exists|mj: int|
                    jitter_in(mj, old(self).human_ms_range) && final(self).timeshift_us == -mj
                        * 1000 && (r matches Ok(a) ==> a.sleep_us == wait_sleep_spec(
                        *old(self),
                        ticks,
                        mj,
                    )),
                _ => final(self).timeshift_us == old(self).timeshift_us && (r matches Ok(a)
                    ==> a.sleep_us == 0),
            }),
            old(self).connected ==> (forall|k: int| 0 <= k < final(self).notes_on@.len()
                ==> ((#[trigger] final(self).notes_on@[k]) matches Some(d)
                ==> d >= final(self).ticks_played)),
    {
        let vel_jitter = draw_jitter(self.human_vel_range);
        let ms_jitter = draw_jitter(self.human_ms_range);
        let ghost vj = vel_jitter as int;
        let ghost mj = ms_jitter as int;
        let r = self.event_with_jitter(event, vel_jitter, ms_jitter);
        proof {
            if old(self).connected {
                assert(jitter_in(vj, old(self).human_vel_range));
                assert(jitter_in(mj, old(self).human_ms_range));
            }
        }
        r
    }
}

/// Whether a jitter lies in the window of width `range` centred on zero.
pub open spec fn jitter_in(j: int, range: u32) -> bool {
    -((range as int) / 2) <= j <= range - (range as int) / 2
}

/// A playback session over a built sequence: the loop around it repeatedly
/// calls `step`, sends the returned messages and sleeps. Cancellation is
/// cooperative, polled once per step before the event is handled, so at
/// most the event already underway completes after the flag is seen.
pub struct Playback {
    pub player: Player,
    pub events: Vec<Event>,
    pub pos: usize,
}

impl Playback {
    pub open spec fn wf(self) -> bool {
        &&& self.player.wf()
        &&& self.pos <= self.events@.len()
        &&& forall|j: int| 0 <= j < self.events@.len() ==> (#[trigger] self.events@[j]).wf()
    }

    pub fn new(player: Player, events: Vec<Event>) -> (r: Playback)
        requires
            player.wf(),
            forall|j: int| 0 <= j < events@.len() ==> (#[trigger] events@[j]).wf(),
        ensures
            r.wf(),
            r.player == player,
            r.events == events,
            r.pos == 0,
    {
        Playback { player, events, pos: 0 }
    }

    /// One step of the playback loop. With the cancellation flag set, or
    /// the sequence exhausted, nothing is handled, no message is issued,
    /// and the session is unchanged; otherwise the event at the cursor is
    /// handled exactly as `Player::event` handles it — the returned
    /// messages, sleep, key slots, tick counter and timeshift are all
    /// those of that event — and the cursor advances.
    pub fn step(&mut self, cancelled: bool) -> (r: Option<Actions>)
        requires
            old(self).wf(),
            old(self).player.connected,
        ensures
            final(self).wf(),
            final(self).player.ticks_played >= old(self).player.ticks_played,
            cancelled ==> r is None && *final(self) == *old(self),
            !cancelled && old(self).pos >= old(self).events@.len() ==> r is None && *final(self)
                == *old(self),
            !cancelled && old(self).pos < old(self).events@.len() ==> ({
                let e = old(self).events@[old(self).pos as int];
                let p0 = old(self).player;
                &&& r is Some
                &&& final(self).pos == old(self).pos + 1
                &&& final(self).events == old(self).events
                &&& final(self).player.same_config(p0)
                &&& final(self).player.ticks_played == (match e {
                    Event::Wait { ticks } => sat_u32(p0.ticks_played + ticks),
                    _ => p0.ticks_played,
                })
                &&& final(self).player.notes_on@ == swept_notes(
                    notes_after_event(p0, e),
                    final(self).player.ticks_played,
                )
                &&& (r matches Some(a) ==> exists|vj: int|
                    jitter_in(vj, p0.human_vel_range) && a.cmds@ == event_cmds(p0, e, vj)
                        + sweep_cmds(
                        notes_after_event(p0, e),
                        final(self).player.ticks_played,
                    ))
                &&& (match e {
                    Event::Wait { ticks } => exists|mj: int|
                        jitter_in(mj, p0.human_ms_range) && final(self).player.timeshift_us
                            == -mj * 1000 && (r matches Some(a) ==> a.sleep_us
                            == wait_sleep_spec(p0, ticks, mj)),
                    _ => final(self).player.timeshift_us == p0.timeshift_us && (r matches Some(
                        a,
                    ) ==> a.sleep_us == 0),
                })
                &&& forall|k: int| 0 <= k < final(self).player.notes_on@.len()
                    ==> ((#[trigger] final(self).player.notes_on@[k]) matches Some(d)
                    ==> d >= final(self).player.ticks_played)
            }),
    {
        if cancelled {
            return None;
        }
        if self.pos >= self.events.len() {
            return None;
        }
        let e = self.events[self.pos];
        self.pos = self.pos + 1;
        match self.player.event(&e) {
            Ok(a) => Some(a),
            Err(_) => None,
        }
    }
}

/// The key slots right after an event's own bookkeeping, before the sweep:
/// a played note records its ring deadline, a stop clears its key, a wait
/// changes nothing.
pub open spec fn notes_after_event(s: Player, e: Event) -> Seq<Option<u32>> {
    match e {
        Event::PlayNote { key, .. } => s.notes_on@.update(
            key as int,
            Some(sat_u32(s.ticks_played + 4 * s.ticks_per_beat)),
        ),
        Event::PlayNoteTicks { key, ticks, .. } => s.notes_on@.update(
            key as int,
            Some(sat_u32(s.ticks_played + ticks)),
        ),
        Event::StopNote { key } => s.notes_on@.update(key as int, None),
        Event::Wait { .. } => s.notes_on@,
    }
}

/// The messages an event itself produces, before the sweep's note-offs.
pub open spec fn event_cmds(s: Player, e: Event, vel_jitter: int) -> Seq<MidiCmd> {
    match e {
        Event::PlayNote { key, dynamic } => seq![
            MidiCmd::NoteOn { key, vel: humanized_vel(dynamic.vel_spec(), vel_jitter) },
        ],
        Event::PlayNoteTicks { key, dynamic, .. } => seq![
            MidiCmd::NoteOn { key, vel: humanized_vel(dynamic.vel_spec(), vel_jitter) },
        ],
        Event::StopNote { key } => seq![MidiCmd::NoteOff { key }],
        Event::Wait { .. } => Seq::empty(),
    }
}

/// The wall-clock length of a beat count at a tempo, in microseconds:
/// the beats times one minute over the tempo, rounded, saturated to `u64`.
pub open spec fn beats_sleep_spec(b: crate::notes::Beats, bpm: int) -> int {
    let q = crate::timing::round_div(b.num * 60_000_000, b.den * bpm);
    if q > u64::MAX {
        u64::MAX as int
    } else {
        q
    }
}

/// The sleep for a wait: the ticks at the current tick duration, first
/// corrected by the carry-over timeshift, then shifted by the new jitter,
/// each step clamped at zero (never sleep negative time).
pub open spec fn wait_sleep_spec(s: Player, ticks: u32, ms_jitter: int) -> int {
    let base = ticks * s.tick_dur_us;
    let shifted = if base + s.timeshift_us < 0 {
        0
    } else {
        base + s.timeshift_us
    };
    let jittered = shifted + ms_jitter * 1000;
    if jittered < 0 {
        0
    } else {
        jittered
    }
}

/// One minute in microseconds over tempo and tick rate, rounded to the
/// nearest microsecond.
fn compute_tick_dur(bpm: u32, tpb: u32) -> (r: u64)
    requires
        bpm >= 1,
        tpb >= 1,
    ensures
        r == tick_dur_spec(bpm as int, tpb as int),
        r <= 60_000_000,
{
    proof {
        assert(1 <= (bpm as int) * (tpb as int) < 0x1_0000_0000_0000_0000int) by (nonlinear_arith)
            requires 1 <= bpm <= u32::MAX && 1 <= tpb <= u32::MAX;
    }
    let d: u128 = (bpm as u128) * (tpb as u128);
    let q: u128 = (120_000_000 + d) / (2 * d);
    proof {
        let di = (bpm as int) * (tpb as int);
        assert(120_000_000 + di < (60_000_001) * (2 * di)) by (nonlinear_arith)
            requires di >= 1;
        vstd::arithmetic::div_mod::lemma_fundamental_div_mod(120_000_000 + di, 2 * di);
        vstd::arithmetic::div_mod::lemma_mod_bound(120_000_000 + di, 2 * di);
        assert((120_000_000 + di) / (2 * di) <= 60_000_000) by (nonlinear_arith)
            requires
                di >= 1,
                (2 * di) * ((120_000_000 + di) / (2 * di)) <= 120_000_000 + di,
                120_000_000 + di < 60_000_001 * (2 * di);
    }
    q as u64
}

/// `base + add` saturated at `u32::MAX`.
fn sat_add_u32(base: u32, add: u64) -> (r: u32)
    ensures
        r == sat_u32(base + add),
{
    if add >= (u32::MAX - base) as u64 + 1 {
        u32::MAX
    } else {
        base + add as u32
    }
}

/// The clamped sleep computation for a wait, in microseconds.
fn compute_wait_sleep(ticks: u32, tick_dur_us: u64, timeshift_us: i64, ms_jitter: i32) -> (r: u64)
    requires
        tick_dur_us <= 60_000_000,
    ensures
        ({
            let base = ticks * tick_dur_us;
            let shifted = if base + timeshift_us < 0 {
                0int
            } else {
                base + timeshift_us
            };
            let jittered = shifted + ms_jitter * 1000;
            r == if jittered < 0 {
                0int
            } else {
                jittered
            }
        }),
{
    proof {
        assert((ticks as int) * (tick_dur_us as int) <= 0x400_0000_0000_0000int)
            by (nonlinear_arith)
            requires ticks <= u32::MAX && tick_dur_us <= 60_000_000;
    }
    let base: i128 = (ticks as i128) * (tick_dur_us as i128);
    let shifted: i128 = base + timeshift_us as i128;
    let shifted: i128 = if shifted < 0 {
        0
    } else {
        shifted
    };
    let jittered: i128 = shifted + (ms_jitter as i128) * 1000;
    if jittered < 0 {
        0
    } else {
        jittered as u64
    }
}

/// The index of the first name that matches exactly, if any.
pub fn find_port(port_names: &Vec<String>, port_name: &str) -> (r: Option<usize>)
    ensures
        (match r {
            Some(i) => {
                &&& i < port_names@.len()
                &&& port_names@[i as int]@ == port_name@
                &&& forall|j: int| 0 <= j < i ==> port_names@[j]@ != port_name@
            },
            None => forall|j: int| 0 <= j < port_names@.len() ==> port_names@[j]@ != port_name@,
        }),
{
    let mut i: usize = 0;
    while i < port_names.len()
        invariant
            i <= port_names@.len(),
            forall|j: int| 0 <= j < i ==> port_names@[j]@ != port_name@,
        decreases port_names@.len() - i,
    {
        if str_eq(port_names[i].as_str(), port_name) {
            return Some(i);
        }
        i = i + 1;
    }
    None
}

/// Character-for-character equality of two strings.
fn str_eq(a: &str, b: &str) -> (r: bool)
    ensures
        r == (a@ == b@),
{
    let la = a.unicode_len();
    let lb = b.unicode_len();
    if la != lb {
        return false;
    }
    let mut i: usize = 0;
    while i < la
        invariant
            la == a@.len(),
            lb == b@.len(),
            la == lb,
            i <= la,
            forall|j: int| 0 <= j < i ==> a@[j] == b@[j],
        decreases la - i,
    {
        if a.get_char(i) != b.get_char(i) {
            return false;
        }
        i = i + 1;
    }
    proof {
        assert(a@ =~= b@);
    }
    true
}

} // verus!
