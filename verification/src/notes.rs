//! Textual note names: a small grammar mapping strings like `c3`, `f#2`,
//! `c1v100b1/2` to a MIDI note with a velocity and an exact beat count.
//!
//! A note name is a letter `a`..`g` (either case), an optional accidental
//! (`#`, `^`, `s`, `S` sharp; `b`, `v`, `f`, `F` flat), an octave (`-2`..`8`,
//! with an optional leading `+`), and any number of trailing modifiers:
//! `v` with digits sets the velocity, `b` with digits, a decimal or a
//! fraction sets the beat count. Later modifiers win; what follows the
//! first ill-formed modifier is ignored.

use vstd::prelude::*;
use vstd::string::StringSliceAdditionalSpecFns;
use vstd::string::StrSliceExecFns;

verus! {

/// An exact beat count: the rational `num / den`.
#[derive(Clone, Copy, Debug, Hash)]
pub struct Beats {
    pub num: u64,
    pub den: u64,
}

impl Beats {
    /// A beat count is usable when its denominator is non-zero.
    pub open spec fn wf(self) -> bool {
        self.den >= 1
    }

    /// The rational this count stands for, as an exact cross-multiplied
    /// comparison base.
    pub open spec fn eq_rational(self, other: Beats) -> bool {
        self.num * other.den == other.num * self.den
    }

    /// A whole number of beats.
    pub fn whole(n: u64) -> (r: Beats)
        ensures
            r == (Beats { num: n, den: 1 }),
    {
        Beats { num: n, den: 1 }
    }

    /// An exact fraction of beats.
    pub fn fraction(num: u64, den: u64) -> (r: Beats)
        requires
            den >= 1,
        ensures
            r == (Beats { num, den }),
    {
        Beats { num, den }
    }
}

impl PartialEq for Beats {
    /// Exact equality of the rationals, whatever their representation.
    fn eq(&self, other: &Beats) -> (r: bool) {
        proof {
            assert((self.num as int) * (other.den as int)
                < 0x1_0000_0000_0000_0000_0000_0000_0000_0000int) by (nonlinear_arith)
                requires self.num <= u64::MAX && other.den <= u64::MAX;
            assert((other.num as int) * (self.den as int)
                < 0x1_0000_0000_0000_0000_0000_0000_0000_0000int) by (nonlinear_arith)
                requires other.num <= u64::MAX && self.den <= u64::MAX;
        }
        (self.num as u128) * (other.den as u128) == (other.num as u128) * (self.den as u128)
    }
}

impl vstd::std_specs::cmp::PartialEqSpecImpl for Beats {
    open spec fn obeys_eq_spec() -> bool {
        true
    }

    open spec fn eq_spec(&self, other: &Beats) -> bool {
        self.eq_rational(*other)
    }
}

/// A note: a MIDI key, a velocity, and an exact beat count.
#[derive(Clone, Debug, PartialEq)]
pub struct Note {
    pub note: u8,
    pub vel: u8,
    pub beats: Beats,
}

impl Default for Note {
    /// Middle C at medium velocity, zero beats.
    fn default() -> (r: Note)
        ensures
            r == (Note { note: 60u8, vel: 64u8, beats: Beats { num: 0, den: 1 } }),
    {
        Note { note: 60, vel: 64, beats: Beats { num: 0, den: 1 } }
    }
}

impl Note {
    pub fn new(note: u8) -> (r: Note)
        ensures
            r == (Note { note, vel: 64u8, beats: Beats { num: 0, den: 1 } }),
    {
        Note { note, vel: 64, beats: Beats { num: 0, den: 1 } }
    }

    /// The note's beat count.
    pub fn get_beats(self) -> (r: Beats)
        ensures
            r == self.beats,
    {
        self.beats
    }

    /// The note with another beat count.
    pub fn beats(self, beats: Beats) -> (r: Note)
        ensures
            r == (Note { beats, ..self }),
    {
        Note { beats, ..self }
    }

    /// The note's velocity.
    pub fn get_vel(self) -> (r: u8)
        ensures
            r == self.vel,
    {
        self.vel
    }

    /// The note with another velocity.
    pub fn vel(self, vel: u8) -> (r: Note)
        ensures
            r == (Note { vel, ..self }),
    {
        Note { vel, ..self }
    }

    /// The note's MIDI key.
    pub fn get_note(self) -> (r: u8)
        ensures
            r == self.note,
    {
        self.note
    }
}

/// One parsed modifier of a note.
pub enum NoteMod {
    Velocity(u8),
    Beats(Beats),
}

/// The note after a run of modifiers, later ones winning.
pub open spec fn apply_mods_spec(n: Note, mods: Seq<NoteMod>, i: int) -> Note
    decreases mods.len() - i,
{
    if i < 0 || i >= mods.len() {
        n
    } else {
        let n2 = match mods[i] {
            NoteMod::Velocity(v) => Note { vel: v, ..n },
            NoteMod::Beats(b) => Note { beats: b, ..n },
        };
        apply_mods_spec(n2, mods, i + 1)
    }
}

/// Applies modifiers in order; a later velocity or beat count overwrites
/// an earlier one.
pub fn apply_mods(note: &mut Note, mods: &Vec<NoteMod>)
    ensures
        *final(note) == apply_mods_spec(*old(note), mods@, 0),
{
    let mut i: usize = 0;
    while i < mods.len()
        invariant
            i <= mods@.len(),
            apply_mods_spec(*old(note), mods@, 0) == apply_mods_spec(*note, mods@, i as int),
        decreases mods@.len() - i,
    {
        match mods[i] {
            NoteMod::Velocity(v) => {
                note.vel = v;
            },
            NoteMod::Beats(b) => {
                note.beats = b;
            },
        }
        i = i + 1;
    }
}

/// An ASCII decimal digit.
pub open spec fn is_digit_byte(b: u8) -> bool {
    48 <= b <= 57
}

/// A note letter, `a`..`g` in either case.
pub open spec fn is_note_letter(b: u8) -> bool {
    (97 <= b <= 103) || (65 <= b <= 71)
}

/// The semitone of a note letter above C, case-insensitive.
pub open spec fn letter_semitone(b: u8) -> int {
    let u: u8 = if b >= 97 {
        (b - 32) as u8
    } else {
        b
    };
    if u == 65 {
        9
    } else if u == 66 {
        11
    } else if u == 67 {
        0
    } else if u == 68 {
        2
    } else if u == 69 {
        4
    } else if u == 70 {
        5
    } else {
        7
    }
}

/// A sharp mark: `#`, `^`, `s` or `S`.
pub open spec fn is_sharp_byte(b: u8) -> bool {
    b == 35 || b == 94 || b == 115 || b == 83
}

/// A flat mark: `b`, `v`, `f` or `F`.
pub open spec fn is_flat_byte(b: u8) -> bool {
    b == 98 || b == 118 || b == 102 || b == 70
}

/// The end of the digit run starting at `i`.
pub open spec fn digits_end(s: Seq<u8>, i: int) -> int
    decreases s.len() - i,
{
    if 0 <= i < s.len() && is_digit_byte(s[i]) {
        digits_end(s, i + 1)
    } else {
        i
    }
}

/// The value of the digits at `lo..hi` read as a decimal number.
pub open spec fn digits_val(s: Seq<u8>, lo: int, hi: int) -> int
    decreases hi - lo,
{
    if lo >= hi {
        0
    } else {
        digits_val(s, lo, hi - 1) * 10 + (s[hi - 1] - 48)
    }
}

/// The `n`-th power of ten.
pub open spec fn pow10(n: int) -> int
    decreases n,
{
    if n <= 0 {
        1
    } else {
        10 * pow10(n - 1)
    }
}

/// A velocity modifier at `i`: `v` followed by digits whose value fits a
/// velocity byte. Yields the velocity and the position after it.
pub open spec fn vel_mod_at(s: Seq<u8>, i: int) -> Option<(u8, int)> {
    if 0 <= i < s.len() && s[i] == 118 {
        let e = digits_end(s, i + 1);
        if e > i + 1 && digits_val(s, i + 1, e) <= 255 {
            Some((digits_val(s, i + 1, e) as u8, e))
        } else {
            None
        }
    } else {
        None
    }
}

/// A beats modifier at `i`: `b` followed by digits, a decimal
/// `digits.digits`, or a fraction `digits/digits`. Yields the exact
/// rational and the position after it; a component that cannot be held
/// exactly in 64 bits, or a fraction over zero, is no modifier.
pub open spec fn beats_mod_at(s: Seq<u8>, i: int) -> Option<(Beats, int)> {
    if 0 <= i < s.len() && s[i] == 98 {
        let e1 = digits_end(s, i + 1);
        if e1 <= i + 1 {
            None
        } else {
            let a = digits_val(s, i + 1, e1);
            if e1 < s.len() && s[e1] == 46 && digits_end(s, e1 + 1) > e1 + 1 {
                let e2 = digits_end(s, e1 + 1);
                let l = e2 - (e1 + 1);
                let b = digits_val(s, e1 + 1, e2);
                if pow10(l) <= u64::MAX && a * pow10(l) + b <= u64::MAX {
                    Some(
                        (
                            Beats {
                                num: (a * pow10(l) + b) as u64,
                                den: pow10(l) as u64,
                            },
                            e2,
                        ),
                    )
                } else {
                    None
                }
            } else if e1 < s.len() && s[e1] == 47 && digits_end(s, e1 + 1) > e1 + 1 {
                let e2 = digits_end(s, e1 + 1);
                let b = digits_val(s, e1 + 1, e2);
                if a <= u64::MAX && 1 <= b <= u64::MAX {
                    Some((Beats { num: a as u64, den: b as u64 }, e2))
                } else {
                    None
                }
            } else {
                if a <= u64::MAX {
                    Some((Beats { num: a as u64, den: 1 }, e1))
                } else {
                    None
                }
            }
        }
    } else {
        None
    }
}

/// The velocity and beat count after reading modifiers from `i` on,
/// stopping at the first position that starts no well-formed modifier.
pub open spec fn mods_spec(s: Seq<u8>, i: int, vel: u8, beats: Beats) -> (u8, Beats)
    decreases s.len() - i,
{
    match vel_mod_at(s, i) {
        Some((v, e)) => if i < e <= s.len() {
            mods_spec(s, e, v, beats)
        } else {
            (v, beats)
        },
        None => match beats_mod_at(s, i) {
            Some((b, e)) => if i < e <= s.len() {
                mods_spec(s, e, vel, b)
            } else {
                (vel, b)
            },
            None => (vel, beats),
        },
    }
}

/// The octave at `i`: `-1` or `-2`, or an optional `+` followed by one
/// digit `0`..`8`. Yields the octave and the position after it.
pub open spec fn octave_at(s: Seq<u8>, i: int) -> Option<(int, int)> {
    if 0 <= i < s.len() && s[i] == 45 {
        if i + 1 < s.len() && (s[i + 1] == 49 || s[i + 1] == 50) {
            Some((-((s[i + 1] - 48) as int), i + 2))
        } else {
            None
        }
    } else {
        let j = if 0 <= i < s.len() && s[i] == 43 {
            i + 1
        } else {
            i
        };
        if 0 <= j < s.len() && 48 <= s[j] <= 56 {
            Some(((s[j] - 48) as int, j + 1))
        } else {
            None
        }
    }
}

/// The note a byte string names, or nothing where the letter, accidental
/// or octave is ill-formed or the key falls outside the MIDI range.
/// Octave `-2` starts at key 0, so `c3` is middle C (60). Anything after
/// the octave that is no well-formed modifier is ignored.
pub open spec fn parse_note_spec(s: Seq<u8>) -> Option<Note> {
    if s.len() == 0 || !is_note_letter(s[0]) {
        None
    } else {
        let base = 24 + letter_semitone(s[0]);
        let has_sign = s.len() > 1 && (is_sharp_byte(s[1]) || is_flat_byte(s[1]));
        let sign: int = if has_sign {
            if is_sharp_byte(s[1]) {
                1
            } else {
                -1
            }
        } else {
            0
        };
        let i1: int = if has_sign {
            2
        } else {
            1
        };
        match octave_at(s, i1) {
            None => None,
            Some((oct, i2)) => {
                let val = base + sign + 12 * oct;
                if 0 <= val <= 127 {
                    let vb = mods_spec(s, i2, 64u8, Beats { num: 0, den: 1 });
                    Some(Note { note: val as u8, vel: vb.0, beats: vb.1 })
                } else {
                    None
                }
            },
        }
    }
}

proof fn lemma_digits_end_props(s: Seq<u8>, i: int)
    requires
        0 <= i <= s.len(),
    ensures
        i <= digits_end(s, i) <= s.len(),
        forall|j: int| i <= j < digits_end(s, i) ==> is_digit_byte(s[j]),
        digits_end(s, i) < s.len() ==> !is_digit_byte(s[digits_end(s, i)]),
    decreases s.len() - i,
{
    if i < s.len() && is_digit_byte(s[i]) {
        lemma_digits_end_props(s, i + 1);
    }
}

proof fn lemma_digits_val_nonneg(s: Seq<u8>, lo: int, hi: int)
    requires
        forall|j: int| lo <= j < hi ==> is_digit_byte(s[j]),
    ensures
        digits_val(s, lo, hi) >= 0,
    decreases hi - lo,
{
    if lo < hi {
        lemma_digits_val_nonneg(s, lo, hi - 1);
    }
}

proof fn lemma_digits_val_monotone(s: Seq<u8>, lo: int, a: int, b: int)
    requires
        lo <= a <= b,
        forall|j: int| lo <= j < b ==> is_digit_byte(s[j]),
    ensures
        digits_val(s, lo, a) <= digits_val(s, lo, b),
    decreases b - a,
{
    if a < b {
        lemma_digits_val_monotone(s, lo, a, b - 1);
        lemma_digits_val_nonneg(s, lo, b - 1);
    }
}

proof fn lemma_pow10_monotone(m: int, n: int)
    requires
        m <= n,
    ensures
        1 <= pow10(m) <= pow10(n),
    decreases n - m,
{
    if m < n {
        lemma_pow10_monotone(m, n - 1);
    } else {
        lemma_pow10_positive(m);
    }
}

proof fn lemma_pow10_positive(n: int)
    ensures
        pow10(n) >= 1,
    decreases n,
{
    if n > 0 {
        lemma_pow10_positive(n - 1);
    }
}

/// The end of the digit run at `i`.
fn scan_digits(s: &[u8], i: usize) -> (e: usize)
    requires
        i <= s@.len(),
    ensures
        e == digits_end(s@, i as int),
        i <= e <= s@.len(),
    {
    let mut k: usize = i;
    while k < s.len() && 48 <= s[k] && s[k] <= 57
        invariant
            i <= k <= s@.len(),
            digits_end(s@, i as int) == digits_end(s@, k as int),
        decreases s@.len() - k,
    {
        k = k + 1;
    }
    proof {
        lemma_digits_end_props(s@, k as int);
    }
    k
}

/// The value of the digits at `lo..hi`, or nothing where it exceeds
/// 64 bits.
fn parse_digits_u64(s: &[u8], lo: usize, hi: usize) -> (r: Option<u64>)
    requires
        lo <= hi <= s@.len(),
        forall|j: int| lo <= j < hi ==> is_digit_byte(s@[j]),
    ensures
        (match r {
            Some(v) => v == digits_val(s@, lo as int, hi as int) && digits_val(
                s@,
                lo as int,
                hi as int,
            ) <= u64::MAX,
            None => digits_val(s@, lo as int, hi as int) > u64::MAX,
        }),
{
    let mut acc: u64 = 0;
    let mut k: usize = lo;
    while k < hi
        invariant
            lo <= k <= hi <= s@.len(),
            forall|j: int| lo <= j < hi ==> is_digit_byte(s@[j]),
            acc == digits_val(s@, lo as int, k as int),
        decreases hi - k,
    {
        let d: u64 = (s[k] - 48) as u64;
        if acc > (u64::MAX - d) / 10 {
            proof {
                assert(digits_val(s@, lo as int, k + 1) == acc * 10 + d);
                assert(acc * 10 + d > u64::MAX) by (nonlinear_arith)
                    requires acc > ((u64::MAX - d) as int) / 10 && 0 <= d <= 9 && acc >= 0;
                lemma_digits_val_monotone(s@, lo as int, k + 1, hi as int);
            }
            return None;
        }
        proof {
            assert(acc * 10 + d <= u64::MAX) by (nonlinear_arith)
                requires acc <= ((u64::MAX - d) as int) / 10 && 0 <= d <= 9 && acc >= 0;
        }
        acc = acc * 10 + d;
        k = k + 1;
    }
    Some(acc)
}

/// Ten to the `l`-th, or nothing where it exceeds 64 bits.
fn pow10_u64(l: usize) -> (r: Option<u64>)
    ensures
        (match r {
            Some(v) => v == pow10(l as int) && pow10(l as int) <= u64::MAX,
            None => pow10(l as int) > u64::MAX,
        }),
{
    let mut d: u64 = 1;
    let mut k: usize = 0;
    while k < l
        invariant
            k <= l,
            d == pow10(k as int),
        decreases l - k,
    {
        if d > u64::MAX / 10 {
            proof {
                lemma_pow10_monotone(k + 1, l as int);
            }
            return None;
        }
        d = d * 10;
        k = k + 1;
    }
    Some(d)
}

/// The note a string names; see `parse_note_spec` for the grammar.
pub fn note_from_str(x: &str) -> (r: Option<Note>)
    ensures
        r == parse_note_spec(x.spec_bytes()),
{
    let s = x.as_bytes();
    if s.len() == 0 {
        return None;
    }
    let b0 = s[0];
    let is_letter = (97 <= b0 && b0 <= 103) || (65 <= b0 && b0 <= 71);
    if !is_letter {
        return None;
    }
    let up: u8 = if b0 >= 97 {
        b0 - 32
    } else {
        b0
    };
    let offset: u8 = if up == 65 {
        9
    } else if up == 66 {
        11
    } else if up == 67 {
        0
    } else if up == 68 {
        2
    } else if up == 69 {
        4
    } else if up == 70 {
        5
    } else {
        7
    };
    let base: i32 = 24 + offset as i32;
    let mut sign: i32 = 0;
    let mut i: usize = 1;
    if s.len() > 1 {
        let b1 = s[1];
        if b1 == 35 || b1 == 94 || b1 == 115 || b1 == 83 {
            sign = 1;
            i = 2;
        } else if b1 == 98 || b1 == 118 || b1 == 102 || b1 == 70 {
            sign = -1;
            i = 2;
        }
    }
    let (oct, i2): (i32, usize) = if i < s.len() && s[i] == 45 {
        if i + 1 < s.len() && (s[i + 1] == 49 || s[i + 1] == 50) {
            (-((s[i + 1] - 48) as i32), i + 2)
        } else {
            return None;
        }
    } else {
        let j = if i < s.len() && s[i] == 43 {
            i + 1
        } else {
            i
        };
        if j < s.len() && 48 <= s[j] && s[j] <= 56 {
            ((s[j] - 48) as i32, j + 1)
        } else {
            return None;
        }
    };
    let val: i32 = base + sign + 12 * oct;
    if !(0 <= val && val <= 127) {
        return None;
    }
    let mut vel: u8 = 64;
    let mut beats = Beats { num: 0, den: 1 };
    let mut k: usize = i2;
    loop
        invariant
            i2 <= k <= s@.len(),
            mods_spec(s@, i2 as int, 64u8, Beats { num: 0, den: 1 }) == mods_spec(
                s@,
                k as int,
                vel,
                beats,
            ),
        ensures
            (vel, beats) == mods_spec(s@, i2 as int, 64u8, Beats { num: 0, den: 1 }),
        decreases s@.len() - k,
    {
        if k >= s.len() {
            break;
        }
        let bk = s[k];
        if bk == 118 {
            let e = scan_digits(s, k + 1);
            proof {
                lemma_digits_end_props(s@, k + 1);
            }
            if e > k + 1 {
                match parse_digits_u64(s, k + 1, e) {
                    Some(v) if v <= 255 => {
                        vel = v as u8;
                        k = e;
                    },
                    _ => {
                        break;
                    },
                }
            } else {
                break;
            }
        } else if bk == 98 {
            match beats_mod_exec(s, k) {
                Some((bt, e)) => {
                    beats = bt;
                    k = e;
                },
                None => {
                    break;
                },
            }
        } else {
            break;
        }
    }
    Some(Note { note: val as u8, vel, beats })
}

/// The beats modifier at `i`, mirroring `beats_mod_at`.
fn beats_mod_exec(s: &[u8], i: usize) -> (r: Option<(Beats, usize)>)
    requires
        i < s@.len(),
        s@[i as int] == 98,
    ensures
        (match r {
            Some((b, e)) => beats_mod_at(s@, i as int) == Some((b, e as int)) && i < e <= s@.len(),
            None => beats_mod_at(s@, i as int) is None,
        }),
{
    let n = s.len();
    let e1 = scan_digits(s, i + 1);
    proof {
        lemma_digits_end_props(s@, i + 1);
    }
    if e1 <= i + 1 {
        return None;
    }
    let a = parse_digits_u64(s, i + 1, e1);
    if e1 < n && s[e1] == 46 {
        let e2 = scan_digits(s, e1 + 1);
        proof {
            lemma_digits_end_props(s@, e1 + 1);
        }
        if e2 > e1 + 1 {
            let l = e2 - (e1 + 1);
            let den = match pow10_u64(l) {
                Some(d) => d,
                None => {
                    return None;
                },
            };
            let av = match a {
                Some(v) => v,
                None => {
                    proof {
                        lemma_overflow_product(s@, i + 1, e1 as int, e1 + 1, e2 as int);
                    }
                    return None;
                },
            };
            let b = match parse_digits_u64(s, e1 + 1, e2) {
                Some(v) => v,
                None => {
                    proof {
                        lemma_digits_val_nonneg(s@, i + 1, e1 as int);
                        lemma_pow10_positive(l as int);
                        assert(digits_val(s@, i + 1, e1 as int) * pow10(l as int) >= 0)
                            by (nonlinear_arith)
                            requires
                                digits_val(s@, i + 1, e1 as int) >= 0
                                    && pow10(l as int) >= 1;
                    }
                    return None;
                },
            };
            let num = match av.checked_mul(den) {
                Some(n) => n,
                None => {
                    proof {
                        lemma_digits_val_nonneg(s@, e1 + 1, e2 as int);
                    }
                    return None;
                },
            };
            let num = match num.checked_add(b) {
                Some(n) => n,
                None => {
                    return None;
                },
            };
            return Some((Beats { num, den }, e2));
        }
    }
    if e1 < n && s[e1] == 47 {
        let e2 = scan_digits(s, e1 + 1);
        proof {
            lemma_digits_end_props(s@, e1 + 1);
        }
        if e2 > e1 + 1 {
            let av = match a {
                Some(v) => v,
                None => {
                    return None;
                },
            };
            let bv = match parse_digits_u64(s, e1 + 1, e2) {
                Some(v) => v,
                None => {
                    return None;
                },
            };
            if bv >= 1 {
                return Some((Beats { num: av, den: bv }, e2));
            } else {
                return None;
            }
        }
    }
    match a {
        Some(v) => Some((Beats { num: v, den: 1 }, e1)),
        None => None,
    }
}

proof fn lemma_overflow_product(s: Seq<u8>, lo: int, hi: int, lo2: int, hi2: int)
    requires
        digits_val(s, lo, hi) > u64::MAX,
        forall|j: int| lo <= j < hi ==> is_digit_byte(s[j]),
        forall|j: int| lo2 <= j < hi2 ==> is_digit_byte(s[j]),
    ensures
        digits_val(s, lo, hi) * pow10(hi2 - lo2) + digits_val(s, lo2, hi2) > u64::MAX,
{
    lemma_pow10_positive(hi2 - lo2);
    lemma_digits_val_nonneg(s, lo2, hi2);
    assert(digits_val(s, lo, hi) * pow10(hi2 - lo2) >= digits_val(s, lo, hi))
        by (nonlinear_arith)
        requires digits_val(s, lo, hi) > 0 && pow10(hi2 - lo2) >= 1;
}

} // verus!
