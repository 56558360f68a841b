//! Abstract musical events in player ticks, and the five-level loudness
//! bucket a MIDI velocity maps to.

use vstd::prelude::*;

verus! {

/// Coarse loudness, derived from a MIDI velocity by fixed bucket boundaries
/// and invertible back to a representative velocity.
#[derive(Clone, Copy, PartialEq, Eq, Structural, Debug, Hash)]
pub enum Dynamic {
    VerySoft,
    Soft,
    Medium,
    Loud,
    VeryLoud,
}

impl Dynamic {
    /// The representative velocity of each bucket.
    pub open spec fn vel_spec(self) -> u8 {
        match self {
            Dynamic::VerySoft => 16,
            Dynamic::Soft => 40,
            Dynamic::Medium => 64,
            Dynamic::Loud => 88,
            Dynamic::VeryLoud => 112,
        }
    }

    pub fn as_int(&self) -> (r: u8)
        ensures
            r == self.vel_spec(),
    {
        match *self {
            Dynamic::VerySoft => 16,
            Dynamic::Soft => 40,
            Dynamic::Medium => 64,
            Dynamic::Loud => 88,
            Dynamic::VeryLoud => 112,
        }
    }

    pub fn vel(&self) -> (r: u8)
        ensures
            r == self.vel_spec(),
    {
        self.as_int()
    }

    /// The next softer bucket (the softest stays put).
    pub open spec fn down_spec(self) -> Dynamic {
        match self {
            Dynamic::VerySoft => Dynamic::VerySoft,
            Dynamic::Soft => Dynamic::VerySoft,
            Dynamic::Medium => Dynamic::Soft,
            Dynamic::Loud => Dynamic::Medium,
            Dynamic::VeryLoud => Dynamic::Loud,
        }
    }

    pub fn down(&self) -> (r: Dynamic)
        ensures
            r == self.down_spec(),
    {
        match *self {
            Dynamic::VerySoft => Dynamic::VerySoft,
            Dynamic::Soft => Dynamic::VerySoft,
            Dynamic::Medium => Dynamic::Soft,
            Dynamic::Loud => Dynamic::Medium,
            Dynamic::VeryLoud => Dynamic::Loud,
        }
    }

    /// The next louder bucket (the loudest stays put).
    pub open spec fn up_spec(self) -> Dynamic {
        match self {
            Dynamic::VerySoft => Dynamic::Soft,
            Dynamic::Soft => Dynamic::Medium,
            Dynamic::Medium => Dynamic::Loud,
            Dynamic::Loud => Dynamic::VeryLoud,
            Dynamic::VeryLoud => Dynamic::VeryLoud,
        }
    }

    pub fn up(&self) -> (r: Dynamic)
        ensures
            r == self.up_spec(),
    {
        match *self {
            Dynamic::VerySoft => Dynamic::Soft,
            Dynamic::Soft => Dynamic::Medium,
            Dynamic::Medium => Dynamic::Loud,
            Dynamic::Loud => Dynamic::VeryLoud,
            Dynamic::VeryLoud => Dynamic::VeryLoud,
        }
    }

    /// The bucket that a velocity falls in: 0-24, 25-49, 50-76, 77-101,
    /// 102 and above.
    pub open spec fn from_vel_spec(v: u8) -> Dynamic {
        if v <= 24 {
            Dynamic::VerySoft
        } else if v <= 49 {
            Dynamic::Soft
        } else if v <= 76 {
            Dynamic::Medium
        } else if v <= 101 {
            Dynamic::Loud
        } else {
            Dynamic::VeryLoud
        }
    }

    pub fn from_velocity(v: u8) -> (r: Dynamic)
        ensures
            r == Dynamic::from_vel_spec(v),
    {
        if v <= 24 {
            Dynamic::VerySoft
        } else if v <= 49 {
            Dynamic::Soft
        } else if v <= 76 {
            Dynamic::Medium
        } else if v <= 101 {
            Dynamic::Loud
        } else {
            Dynamic::VeryLoud
        }
    }
}

impl From<u8> for Dynamic {
    fn from(x: u8) -> (r: Dynamic)
        ensures
            r == Dynamic::from_vel_spec(x),
    {
        Dynamic::from_velocity(x)
    }
}

impl vstd::std_specs::convert::FromSpecImpl<u8> for Dynamic {
    open spec fn obeys_from_spec() -> bool {
        true
    }

    open spec fn from_spec(x: u8) -> Dynamic {
        Dynamic::from_vel_spec(x)
    }
}

impl Default for Dynamic {
    fn default() -> (r: Dynamic)
        ensures
            r == Dynamic::Medium,
    {
        Dynamic::Medium
    }
}

/// One abstract event of a built sequence, in player ticks. A `PlayNote` is
/// open-ended (the player's safety net decides its duration); a
/// `PlayNoteTicks` carries an explicit duration.
#[derive(Clone, Copy, PartialEq, Eq, Structural, Debug, Hash)]
pub enum Event {
    PlayNote { key: u8, dynamic: Dynamic },
    PlayNoteTicks { key: u8, dynamic: Dynamic, ticks: u32 },
    StopNote { key: u8 },
    Wait { ticks: u32 },
}

impl Event {
    /// Every key an event names is a valid MIDI key.
    pub open spec fn wf(self) -> bool {
        match self {
            Event::PlayNote { key, .. } => key <= 127,
            Event::PlayNoteTicks { key, .. } => key <= 127,
            Event::StopNote { key } => key <= 127,
            Event::Wait { .. } => true,
        }
    }

    pub fn is_wf(&self) -> (r: bool)
        ensures
            r == self.wf(),
    {
        match *self {
            Event::PlayNote { key, .. } => key <= 127,
            Event::PlayNoteTicks { key, .. } => key <= 127,
            Event::StopNote { key } => key <= 127,
            Event::Wait { .. } => true,
        }
    }

    pub fn play(key: u8, dynamic: Dynamic) -> (r: Event)
        requires
            key <= 127,
        ensures
            r == (Event::PlayNote { key, dynamic }),
    {
        Event::PlayNote { key, dynamic }
    }

    pub fn play_ticks(key: u8, dynamic: Dynamic, ticks: u32) -> (r: Event)
        requires
            key <= 127,
        ensures
            r == (Event::PlayNoteTicks { key, dynamic, ticks }),
    {
        Event::PlayNoteTicks { key, dynamic, ticks }
    }

    pub fn stop(key: u8) -> (r: Event)
        requires
            key <= 127,
        ensures
            r == (Event::StopNote { key }),
    {
        Event::StopNote { key }
    }

    pub fn wait(ticks: u32) -> (r: Event)
        ensures
            r == (Event::Wait { ticks }),
    {
        Event::Wait { ticks }
    }
}

/// Whether every event of a sequence names a valid key.
pub fn events_all_wf(events: &Vec<Event>) -> (r: bool)
    ensures
        r == (forall|j: int| 0 <= j < events@.len() ==> (#[trigger] events@[j]).wf()),
{
    let mut i: usize = 0;
    while i < events.len()
        invariant
            i <= events@.len(),
            forall|j: int| 0 <= j < i ==> (#[trigger] events@[j]).wf(),
        decreases events@.len() - i,
    {
        if !events[i].is_wf() {
            return false;
        }
        i = i + 1;
    }
    true
}

} // verus!
