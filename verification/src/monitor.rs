//! A display mirror around the player: per-key snapshots of what is
//! sounding and a bounded history of recently played notes, for a monitor
//! or keyboard view to render. Events pass through to the player, whose
//! own state stays the single source of truth for timing; the mirror only
//! keeps read-only copies, as a cross-thread display should.

use vstd::prelude::*;
use crate::player::{
    event_cmds, jitter_in, notes_after_event, sat_u32, sweep_cmds, swept_notes, wait_sleep_spec,
    Actions, Player, PlayerError,
};
use crate::sequence::Event;
use crate::theory::{key_offset, key_offset_spec};

verus! {

/// One entry of the played-note history: the note's key and velocity, its
/// tick span, and where it sits on a drawn keyboard.
#[derive(Clone, Copy, PartialEq, Eq, Structural, Debug)]
pub struct PlayedNote {
    pub key: u8,
    pub vel: u8,
    pub start: u32,
    pub end: u32,
    pub offset: i32,
    pub oct: i32,
    pub oct_k: u8,
}

/// The history entry for a note of explicit duration started at `played`.
pub open spec fn played_note_spec(key: u8, vel: u8, played: u32, ticks: u32) -> PlayedNote {
    PlayedNote {
        key,
        vel,
        start: played,
        end: sat_u32(played + ticks),
        offset: key_offset_spec(key) as i32,
        oct: ((key as int) / 12 - 2) as i32,
        oct_k: ((key as int) % 12) as u8,
    }
}

/// The display slots after one event: a note of explicit duration records
/// its velocity and tick span on its key; other events leave them alone.
pub open spec fn ui_notes_after(notes: Seq<(u8, u32, u32)>, played: u32, e: Event) -> Seq<
    (u8, u32, u32),
> {
    match e {
        Event::PlayNoteTicks { key, dynamic, ticks } => notes.update(
            key as int,
            (dynamic.vel_spec(), played, sat_u32(played + ticks)),
        ),
        _ => notes,
    }
}

/// The display slots after the eviction sweep: a sounding entry whose end
/// lies strictly before the ticks played is silenced, keeping its span.
pub open spec fn ui_swept(notes: Seq<(u8, u32, u32)>, played: u32) -> Seq<(u8, u32, u32)> {
    Seq::new(
        notes.len(),
        |k: int|
            if notes[k].0 > 0 && notes[k].2 < played {
                (0u8, notes[k].1, notes[k].2)
            } else {
                notes[k]
            },
    )
}

/// A bounded history: with the bound already reached the oldest entry
/// leaves before the new one enters.
pub open spec fn push_bounded(h: Seq<PlayedNote>, e: PlayedNote, size: int) -> Seq<PlayedNote> {
    if h.len() >= size {
        h.subrange(1, h.len() as int).push(e)
    } else {
        h.push(e)
    }
}

/// The player together with its display mirror.
pub struct UIPlayer {
    pub player: Player,
    /// Per key: velocity (zero when silent), start tick, end tick.
    pub notes_on: Vec<(u8, u32, u32)>,
    /// How many history entries are kept.
    pub history_size: usize,
    /// The most recently played notes, oldest first.
    pub note_history: Vec<PlayedNote>,
}

impl UIPlayer {
    pub open spec fn wf(self) -> bool {
        &&& self.player.wf()
        &&& self.notes_on@.len() == 128
        &&& self.history_size >= 1
        &&& self.note_history@.len() <= self.history_size
    }

    /// A mirror around a player, with nothing sounding and an empty
    /// history of 128 entries.
    pub fn new(player: Player) -> (r: UIPlayer)
        requires
            player.wf(),
        ensures
            r.wf(),
            r.player == player,
            r.history_size == 128,
            r.note_history@.len() == 0,
            forall|k: int| 0 <= k < 128 ==> r.notes_on@[k] == (0u8, 0u32, 0u32),
    {
        let mut notes_on: Vec<(u8, u32, u32)> = Vec::new();
        let mut k: usize = 0;
        while k < 128
            invariant
                k <= 128,
                notes_on@.len() == k,
                forall|j: int| 0 <= j < k ==> notes_on@[j] == (0u8, 0u32, 0u32),
            decreases 128 - k,
        {
            notes_on.push((0, 0, 0));
            k = k + 1;
        }
        UIPlayer { player, notes_on, history_size: 128, note_history: Vec::new() }
    }

    /// Hands the event to the player — the returned messages, sleep, key
    /// slots, tick counter and timeshift are exactly those of
    /// `Player::event` — then mirrors it: a note of explicit duration
    /// lights its key slot and enters the history (the oldest entry
    /// leaving once the bound is reached), and every slot whose end has
    /// passed goes dark.
    pub fn event(&mut self, event: &Event) -> (r: Result<Actions, PlayerError>)
        requires
            old(self).wf(),
            event.wf(),
        ensures
            final(self).wf(),
            !old(self).player.connected ==> (r matches Err(PlayerError::NotConnected))
                && *final(self) == *old(self),
            old(self).player.connected ==> ({
                let played2 = (match *event {
                    Event::Wait { ticks } => sat_u32(old(self).player.ticks_played + ticks),
                    _ => old(self).player.ticks_played,
                });
                &&& r is Ok
                &&& final(self).player.same_config(old(self).player)
                &&& final(self).player.ticks_played == played2
                &&& final(self).player.notes_on@ == swept_notes(
                    notes_after_event(old(self).player, *event),
                    played2,
                )
                &&& (r matches Ok(a) ==> exists|vj: int|
                    jitter_in(vj, old(self).player.human_vel_range) && a.cmds@ == event_cmds(
                        old(self).player,
                        *event,
                        vj,
                    ) + sweep_cmds(notes_after_event(old(self).player, *event), played2))
                &&& (match *event {
                    Event::Wait { ticks } => exists|mj: int|
                        jitter_in(mj, old(self).player.human_ms_range)
                            && final(self).player.timeshift_us == -mj * 1000
                            && (r matches Ok(a) ==> a.sleep_us
                            == wait_sleep_spec(old(self).player, ticks, mj)),
                    _ => final(self).player.timeshift_us == old(self).player.timeshift_us && (
                    r matches Ok(a) ==> a.sleep_us == 0),
                })
                &&& forall|k: int| 0 <= k < final(self).player.notes_on@.len()
                    ==> ((#[trigger] final(self).player.notes_on@[k]) matches Some(d)
                    ==> d >= final(self).player.ticks_played)
                &&& final(self).notes_on@ == ui_swept(
                    ui_notes_after(old(self).notes_on@, played2, *event),
                    played2,
                )
                &&& final(self).history_size == old(self).history_size
                &&& final(self).note_history@ == (match *event {
                    Event::PlayNoteTicks { key, dynamic, ticks } => push_bounded(
                        old(self).note_history@,
                        played_note_spec(key, dynamic.vel_spec(), played2, ticks),
                        old(self).history_size as int,
                    ),
                    _ => old(self).note_history@,
                })
            }),
    {
        let r = self.player.event(event);
        if let Err(e) = r {
            return Err(e);
        }
        let played = self.player.ticks_played();
        match *event {
            Event::PlayNoteTicks { key, dynamic, ticks } => {
                let vel = dynamic.as_int();
                let end = if ticks >= u32::MAX - played {
                    u32::MAX
                } else {
                    played + ticks
                };
                self.notes_on.set(key as usize, (vel, played, end));
                if self.note_history.len() >= self.history_size {
                    self.note_history.remove(0);
                }
                let entry = PlayedNote {
                    key,
                    vel,
                    start: played,
                    end,
                    offset: key_offset(key),
                    oct: (key / 12) as i32 - 2,
                    oct_k: key % 12,
                };
                self.note_history.push(entry);
            },
            _ => {},
        }
        let ghost snap = *self;
        let ghost mid_notes = self.notes_on@;
        let mut k: usize = 0;
        while k < 128
            invariant
                k <= 128,
                self.notes_on@.len() == 128,
                mid_notes.len() == 128,
                forall|j: int| 0 <= j < k ==> self.notes_on@[j] == ui_swept(mid_notes, played)[j],
                forall|j: int| k <= j < 128 ==> self.notes_on@[j] == mid_notes[j],
                self.player == snap.player,
                self.note_history == snap.note_history,
                self.history_size == snap.history_size,
            decreases 128 - k,
        {
            let (v, a, b) = self.notes_on[k];
            if v > 0 && b < played {
                self.notes_on.set(k, (0, a, b));
            }
            k = k + 1;
        }
        proof {
            assert(self.notes_on@ =~= ui_swept(mid_notes, played));
        }
        r
    }

    pub fn ticks_played(&self) -> (r: u32)
        ensures
            r == self.player.ticks_played,
    {
        self.player.ticks_played()
    }

    /// The wall-clock length of one tick, in microseconds.
    pub fn tick_dur(&self) -> (r: u64)
        ensures
            r == self.player.tick_dur_us,
    {
        self.player.tick_dur()
    }
}

} // verus!
