//! A duration counted either directly in player ticks or in beats scaled to
//! ticks at a fixed rate.

use vstd::prelude::*;

verus! {

/// Player ticks per beat used by beat-valued durations.
pub const TICKS_PER_BEAT: u16 = 100;

/// Scales whole beats to player ticks.
pub fn beats_to_ticks(x: u16) -> (r: u32)
    ensures
        r == x * TICKS_PER_BEAT,
{
    let scale: u32 = TICKS_PER_BEAT as u32;
    x as u32 * scale
}

/// A duration: raw ticks, or beats already scaled to ticks.
pub enum Dur {
    Ticks(u32),
    Beats(u16),
}

impl Dur {
    /// The tick count a duration stands for.
    pub open spec fn as_int_spec(self) -> u32 {
        match self {
            Dur::Ticks(x) => x,
            Dur::Beats(x) => x as u32,
        }
    }

    pub fn ticks(x: u32) -> (r: Dur)
        ensures
            r == Dur::Ticks(x),
    {
        Dur::Ticks(x)
    }

    /// A beat-valued duration; the beat count is scaled to ticks on entry.
    pub fn beats(x: u16) -> (r: Dur)
        requires
            x * TICKS_PER_BEAT <= u16::MAX,
        ensures
            r == Dur::Beats((x * TICKS_PER_BEAT) as u16),
    {
        Dur::Beats(x * TICKS_PER_BEAT)
    }

    pub fn as_int(&self) -> (r: u32)
        ensures
            r == self.as_int_spec(),
    {
        match *self {
            Dur::Ticks(x) => x,
            Dur::Beats(x) => x as u32,
        }
    }

    /// The product of two durations; tick-valued when either side is.
    pub fn mul(self, rhs: Dur) -> (r: Dur)
        requires
            (match (self, rhs) {
                (Dur::Ticks(l), Dur::Ticks(r)) => l * r <= u32::MAX,
                (Dur::Ticks(l), Dur::Beats(r)) => l * (r * TICKS_PER_BEAT) <= u32::MAX,
                (Dur::Beats(l), Dur::Ticks(r)) => (l * TICKS_PER_BEAT) * r <= u32::MAX,
                (Dur::Beats(l), Dur::Beats(r)) => l * r <= u16::MAX,
            }),
        ensures
            r == (match (self, rhs) {
                (Dur::Ticks(l), Dur::Ticks(r)) => Dur::Ticks((l * r) as u32),
                (Dur::Ticks(l), Dur::Beats(r)) => Dur::Ticks((l * (r * TICKS_PER_BEAT)) as u32),
                (Dur::Beats(l), Dur::Ticks(r)) => Dur::Ticks(((l * TICKS_PER_BEAT) * r) as u32),
                (Dur::Beats(l), Dur::Beats(r)) => Dur::Beats((l * r) as u16),
            }),
    {
        match (self, rhs) {
            (Dur::Ticks(l), Dur::Ticks(r)) => Dur::Ticks(l * r),
            (Dur::Ticks(l), Dur::Beats(r)) => Dur::Ticks(l * beats_to_ticks(r)),
            (Dur::Beats(l), Dur::Ticks(r)) => Dur::Ticks(beats_to_ticks(l) * r),
            (Dur::Beats(l), Dur::Beats(r)) => Dur::Beats(l * r),
        }
    }
}

impl From<u32> for Dur {
    fn from(x: u32) -> (r: Dur)
        ensures
            r == Dur::Ticks(x),
    {
        Dur::Ticks(x)
    }
}

impl vstd::std_specs::convert::FromSpecImpl<u32> for Dur {
    open spec fn obeys_from_spec() -> bool {
        true
    }

    open spec fn from_spec(x: u32) -> Dur {
        Dur::Ticks(x)
    }
}

} // verus!
