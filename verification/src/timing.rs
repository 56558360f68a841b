//! Conversion between a MIDI file's raw tick resolution and the player's own
//! tick rate, given the most recently observed tempo.

use vstd::prelude::*;
use vstd::arithmetic::div_mod::{lemma_div_is_ordered, lemma_div_pos_is_pos};
use vstd::arithmetic::mul::{
    lemma_mul_inequality, lemma_mul_nonnegative, lemma_mul_strictly_positive,
};

verus! {

/// How a MIDI file measures time: either ticks per quarter note (metrical),
/// or frames per second split into subframes (timecode).
#[derive(Clone, Copy, PartialEq, Eq, Structural, Debug, Hash)]
pub enum Timing {
    Metrical { ppq: u16 },
    Timecode { fps: u8, subframes: u8 },
}

impl Timing {
    /// A timing is usable when none of the divisors it induces are zero.
    /// A metrical division is a 15-bit field in the file header.
    pub open spec fn valid(self) -> bool {
        match self {
            Timing::Metrical { ppq } => 1 <= ppq <= 0x7fff,
            Timing::Timecode { fps, subframes } => 1 <= fps && 1 <= subframes,
        }
    }

    pub fn is_valid(&self) -> (r: bool)
        ensures
            r == self.valid(),
    {
        match *self {
            Timing::Metrical { ppq } => 1 <= ppq && ppq <= 0x7fff,
            Timing::Timecode { fps, subframes } => 1 <= fps && 1 <= subframes,
        }
    }
}

/// n / d rounded to the nearest integer, halves rounded up (for n, d >= 0).
pub open spec fn round_div(n: int, d: int) -> int {
    (2 * n + d) / (2 * d)
}

/// The exact number of player ticks that `raw` file ticks span, as a rounded
/// rational: `raw` is divided by the raw ticks per beat of the timing (for
/// timecode, `fps * subframes * tempo_us / 1_000_000` beats' worth of frames)
/// and scaled by the player's ticks per beat.
pub open spec fn ticks_scaled(raw: int, timing: Timing, tempo_us: int, ptb: int) -> int {
    match timing {
        Timing::Metrical { ppq } => round_div(raw * ptb, ppq as int),
        Timing::Timecode { fps, subframes } => round_div(
            raw * ptb * 1_000_000,
            fps as int * subframes as int * tempo_us,
        ),
    }
}

/// `ticks_scaled`, saturated to the `u32` range of a player tick count.
pub open spec fn convert_spec(raw: int, timing: Timing, tempo_us: int, ptb: int) -> int {
    if ticks_scaled(raw, timing, tempo_us, ptb) > u32::MAX {
        u32::MAX as int
    } else {
        ticks_scaled(raw, timing, tempo_us, ptb)
    }
}

/// The divisor induced by a timing and a tempo (in microseconds per beat).
spec fn divisor(timing: Timing, tempo_us: int) -> int {
    match timing {
        Timing::Metrical { ppq } => ppq as int,
        Timing::Timecode { fps, subframes } => fps as int * subframes as int * tempo_us,
    }
}

proof fn lemma_divisor_positive(timing: Timing, tempo_us: int)
    requires
        timing.valid(),
        tempo_us >= 1,
    ensures
        divisor(timing, tempo_us) >= 1,
{
    match timing {
        Timing::Metrical { ppq } => {},
        Timing::Timecode { fps, subframes } => {
            lemma_mul_strictly_positive(fps as int, subframes as int);
            lemma_mul_strictly_positive(fps as int * subframes as int, tempo_us);
        },
    }
}

/// Converts a raw-tick distance to player ticks: `raw` divided by the raw
/// ticks per beat, scaled by `ptb`, rounded to nearest (not truncated, so
/// cumulative conversions do not drift), saturated at `u32::MAX`.
pub fn convert_ticks(raw: u64, timing: &Timing, tempo_us: u32, ptb: u32) -> (r: u32)
    requires
        timing.valid(),
        tempo_us >= 1,
    ensures
        r == convert_spec(raw as int, *timing, tempo_us as int, ptb as int),
{
    proof {
        assert((raw as int) * (ptb as int) < 0x1_0000_0000_0000_0000_0000_0000int)
            by (nonlinear_arith)
            requires raw <= u64::MAX && ptb <= u32::MAX;
    }
    let rp: u128 = (raw as u128) * (ptb as u128);
    let (n, d): (u128, u128) = match *timing {
        Timing::Metrical { ppq } => (rp, ppq as u128),
        Timing::Timecode { fps, subframes } => {
            proof {
                assert(1 <= (fps as int) * (subframes as int) < 0x10000)
                    by (nonlinear_arith)
                    requires 1 <= fps < 0x100 && 1 <= subframes < 0x100;
            }
            let fs: u128 = (fps as u128) * (subframes as u128);
            proof {
                assert(1 <= (fs as int) * (tempo_us as int) < 0x1_0000_0000_0000_0000int)
                    by (nonlinear_arith)
                    requires 1 <= fs < 0x10000 && 1 <= tempo_us <= u32::MAX;
            }
            (rp * 1_000_000, fs * (tempo_us as u128))
        },
    };
    let q: u128 = (2 * n + d) / (2 * d);
    if q > u32::MAX as u128 {
        u32::MAX
    } else {
        q as u32
    }
}

/// `round_div` rounds to the nearest integer, halves up, never truncates:
/// the rounded quotient times the divisor misses `n` by at most half a
/// divisor, so cumulative conversions cannot drift systematically.
pub proof fn lemma_round_div_nearest(n: int, d: int)
    requires
        n >= 0,
        d >= 1,
    ensures
        -d < 2 * (round_div(n, d) * d - n) <= d,
{
    let q = round_div(n, d);
    vstd::arithmetic::div_mod::lemma_fundamental_div_mod(2 * n + d, 2 * d);
    vstd::arithmetic::div_mod::lemma_mod_bound(2 * n + d, 2 * d);
    assert(2 * n + d == 2 * d * q + (2 * n + d) % (2 * d));
    assert(2 * (q * d - n) == d - (2 * n + d) % (2 * d)) by (nonlinear_arith)
        requires 2 * n + d == 2 * d * q + (2 * n + d) % (2 * d);
}

/// A conversion of a non-negative raw-tick count lands in the `u32` range.
pub proof fn lemma_convert_bounds(raw: int, timing: Timing, tempo_us: int, ptb: int)
    requires
        timing.valid(),
        tempo_us >= 1,
        raw >= 0,
        ptb >= 0,
    ensures
        0 <= convert_spec(raw, timing, tempo_us, ptb) <= u32::MAX,
{
    let d = divisor(timing, tempo_us);
    lemma_divisor_positive(timing, tempo_us);
    lemma_mul_nonnegative(raw, ptb);
    match timing {
        Timing::Metrical { ppq } => {
            lemma_div_pos_is_pos(2 * (raw * ptb) + d, 2 * d);
        },
        Timing::Timecode { fps, subframes } => {
            lemma_mul_nonnegative(raw * ptb, 1_000_000);
            lemma_div_pos_is_pos(2 * (raw * ptb * 1_000_000) + d, 2 * d);
        },
    }
}

/// Rescaling is monotonic: for a fixed timing and tempo, more raw ticks never
/// convert to fewer player ticks.
pub proof fn lemma_convert_monotonic(
    raw1: int,
    raw2: int,
    timing: Timing,
    tempo_us: int,
    ptb: int,
)
    requires
        timing.valid(),
        tempo_us >= 1,
        0 <= raw1 <= raw2,
        0 <= ptb,
    ensures
        convert_spec(raw1, timing, tempo_us, ptb) <= convert_spec(raw2, timing, tempo_us, ptb),
{
    let d = divisor(timing, tempo_us);
    lemma_divisor_positive(timing, tempo_us);
    match timing {
        Timing::Metrical { ppq } => {
            lemma_mul_inequality(raw1, raw2, ptb);
            lemma_div_is_ordered(2 * (raw1 * ptb) + d, 2 * (raw2 * ptb) + d, 2 * d);
        },
        Timing::Timecode { fps, subframes } => {
            lemma_mul_inequality(raw1, raw2, ptb);
            lemma_mul_inequality(raw1 * ptb, raw2 * ptb, 1_000_000);
            lemma_div_is_ordered(
                2 * (raw1 * ptb * 1_000_000) + d,
                2 * (raw2 * ptb * 1_000_000) + d,
                2 * d,
            );
        },
    }
}

} // verus!
