//! Scale and key utilities: signs, scale degrees, keys, modes, and the
//! semitone layout of a scale.

use vstd::prelude::*;

verus! {

/// An accidental applied to a note or degree.
#[derive(Clone, Copy, PartialEq, Eq, Structural, Debug)]
pub enum Sign {
    DoubleFlat,
    Flat,
    Natural,
    Sharp,
    DoubleSharp,
}

impl Sign {
    /// The semitone shift of a sign, from -2 to 2.
    pub open spec fn rel_spec(self) -> i8 {
        match self {
            Sign::DoubleFlat => -2i8,
            Sign::Flat => -1i8,
            Sign::Natural => 0i8,
            Sign::Sharp => 1i8,
            Sign::DoubleSharp => 2i8,
        }
    }

    pub fn rel(&self) -> (r: i8)
        ensures
            r == self.rel_spec(),
    {
        match *self {
            Sign::DoubleFlat => -2,
            Sign::Flat => -1,
            Sign::Natural => 0,
            Sign::Sharp => 1,
            Sign::DoubleSharp => 2,
        }
    }
}

impl From<Option<Sign>> for Sign {
    /// An absent sign reads as natural.
    fn from(s: Option<Sign>) -> (r: Sign)
        ensures
            r == (match s {
                Some(x) => x,
                None => Sign::Natural,
            }),
    {
        match s {
            Some(x) => x,
            None => Sign::Natural,
        }
    }
}

impl vstd::std_specs::convert::FromSpecImpl<Option<Sign>> for Sign {
    open spec fn obeys_from_spec() -> bool {
        true
    }

    open spec fn from_spec(s: Option<Sign>) -> Sign {
        match s {
            Some(x) => x,
            None => Sign::Natural,
        }
    }
}

/// A semitone distance above a scale's root.
pub struct RelativeSemitone {
    inner: u8,
}

impl RelativeSemitone {
    /// The semitone distance held.
    pub closed spec fn value_spec(self) -> u8 {
        self.inner
    }

    pub fn new(inner: u8) -> (r: RelativeSemitone)
        ensures
            r.value_spec() == inner,
    {
        RelativeSemitone { inner }
    }

    pub fn get(&self) -> (r: u8)
        ensures
            r == self.value_spec(),
    {
        self.inner
    }
}

/// A scale degree, written as a number, a roman numeral, or a number with an
/// accidental.
#[derive(Debug)]
pub enum Degree {
    Num(u8),
    I,
    Ii,
    Iii,
    Iv,
    V,
    Vi,
    Vii,
    NumWithSign(u8, Sign),
}

impl Degree {
    /// The accidental of a degree, if it carries one.
    pub open spec fn sign_spec(self) -> Option<Sign> {
        match self {
            Degree::NumWithSign(_, s) => Some(s),
            _ => None,
        }
    }

    pub fn sign(&self) -> (r: Option<Sign>)
        ensures
            r == self.sign_spec(),
    {
        match *self {
            Degree::NumWithSign(_, s) => Some(s),
            _ => None,
        }
    }

    /// The plain number of a degree.
    pub open spec fn num_spec(self) -> u8 {
        match self {
            Degree::Num(x) => x,
            Degree::NumWithSign(x, _) => x,
            Degree::I => 1,
            Degree::Ii => 2,
            Degree::Iii => 3,
            Degree::Iv => 4,
            Degree::V => 5,
            Degree::Vi => 6,
            Degree::Vii => 7,
        }
    }

    pub fn num(&self) -> (r: u8)
        ensures
            r == self.num_spec(),
    {
        match *self {
            Degree::Num(x) => x,
            Degree::NumWithSign(x, _) => x,
            Degree::I => 1,
            Degree::Ii => 2,
            Degree::Iii => 3,
            Degree::Iv => 4,
            Degree::V => 5,
            Degree::Vi => 6,
            Degree::Vii => 7,
        }
    }

    /// Attaches an accidental to a degree, keeping its number.
    pub fn with_sign(self, rhs: Sign) -> (r: Degree)
        ensures
            r == Degree::NumWithSign(self.num_spec(), rhs),
    {
        let n = self.num();
        Degree::NumWithSign(n, rhs)
    }
}

/// The root of a scale: a raw MIDI key, or a note letter with an optional
/// accidental.
pub enum Key {
    Midi(u8),
    A(Option<Sign>),
    B(Option<Sign>),
    C(Option<Sign>),
    D(Option<Sign>),
    E(Option<Sign>),
    F(Option<Sign>),
    G(Option<Sign>),
}

impl Key {
    /// The semitone of a key's root relative to C. Only an A root honours
    /// its accidental; the others read as natural.
    pub open spec fn base_spec(self) -> int {
        match self {
            Key::Midi(m) => m as int,
            Key::A(s) => 8 + (match s {
                Some(x) => x.rel_spec() as int,
                None => 0,
            }),
            Key::B(_) => 10,
            Key::C(_) => 0,
            Key::D(_) => 2,
            Key::E(_) => 4,
            Key::F(_) => 5,
            Key::G(_) => 7,
        }
    }

    /// A root that stays a valid MIDI key after the octave lift and the
    /// widest scale step.
    pub open spec fn in_range(self) -> bool {
        match self {
            Key::Midi(m) => m <= 115,
            _ => true,
        }
    }
}

/// The semitone offsets of a scale's degrees above its root.
pub enum RelativeSemitones {
    Seven([u8; 7]),
}

impl RelativeSemitones {
    /// The offsets as a vector, in degree order.
    pub fn iter(&self) -> (r: Vec<u8>)
        ensures
            r@ == (match *self {
                RelativeSemitones::Seven(x) => x@,
            }),
    {
        match self {
            RelativeSemitones::Seven(x) => {
                let mut out: Vec<u8> = Vec::new();
                let mut i: usize = 0;
                while i < 7
                    invariant
                        i <= 7,
                        out@ == x@.subrange(0, i as int),
                    decreases 7 - i,
                {
                    out.push(x[i]);
                    proof {
                        assert(out@ =~= x@.subrange(0, i + 1 as int));
                    }
                    i = i + 1;
                }
                proof {
                    assert(out@ =~= x@);
                }
                out
            },
        }
    }
}

/// A scale shape: major (ionian) or natural minor.
pub enum Mode {
    Ionian,
    Natural,
}

impl Mode {
    /// The semitone offsets of this mode's seven degrees.
    pub open spec fn semitones_spec(self) -> Seq<u8> {
        match self {
            Mode::Ionian => seq![0u8, 2, 4, 5, 7, 9, 11],
            Mode::Natural => seq![0u8, 2, 3, 5, 7, 8, 10],
        }
    }

    pub fn semitones(&self) -> (r: RelativeSemitones)
        ensures
            (match r {
                RelativeSemitones::Seven(x) => x@ == self.semitones_spec(),
            }),
    {
        let out = match self {
            Mode::Ionian => RelativeSemitones::Seven([0u8, 2, 4, 5, 7, 9, 11]),
            Mode::Natural => RelativeSemitones::Seven([0u8, 2, 3, 5, 7, 8, 10]),
        };
        proof {
            let RelativeSemitones::Seven(x) = out;
            assert(x@ =~= self.semitones_spec());
        }
        out
    }
}

/// A key together with a mode.
pub struct Scale {
    pub key: Key,
    pub mode: Mode,
}

impl Scale {
    pub fn new(key: Key, mode: Mode) -> (r: Scale)
        ensures
            r.key == key,
            r.mode == mode,
    {
        Scale { key, mode }
    }

    /// The absolute semitones of this scale's seven degrees, lifted an
    /// octave above the root, padded to sixteen slots with `u8::MAX`.
    pub fn semitones(&self) -> (r: [u8; 16])
        requires
            self.key.in_range(),
        ensures
            forall|i: int| 0 <= i < 7 ==> r@[i]
                == 12 + self.key.base_spec() + self.mode.semitones_spec()[i],
            forall|i: int| 7 <= i < 16 ==> r@[i] == u8::MAX,
    {
        let base: u8 = match &self.key {
            Key::Midi(m) => *m,
            Key::A(s) => {
                let rel = match s {
                    Some(x) => x.rel(),
                    None => 0,
                };
                (8 + rel) as u8
            },
            Key::B(_) => 10,
            Key::C(_) => 0,
            Key::D(_) => 2,
            Key::E(_) => 4,
            Key::F(_) => 5,
            Key::G(_) => 7,
        };
        let tones = self.mode.semitones();
        let RelativeSemitones::Seven(t) = tones;
        let root: u8 = 12 + base;
        let r: [u8; 16] = [
            root + t[0],
            root + t[1],
            root + t[2],
            root + t[3],
            root + t[4],
            root + t[5],
            root + t[6],
            u8::MAX,
            u8::MAX,
            u8::MAX,
            u8::MAX,
            u8::MAX,
            u8::MAX,
            u8::MAX,
            u8::MAX,
            u8::MAX,
        ];
        r
    }
}

/// The horizontal offset of a key within its octave on a drawn keyboard:
/// black keys sit between the white keys below and above them.
pub open spec fn key_offset_spec(key: u8) -> int {
    let oct_k = (key as int) % 12;
    if oct_k == 1 || oct_k == 3 || oct_k == 6 || oct_k == 8 || oct_k == 10 {
        oct_k / 2
    } else if oct_k < 5 {
        oct_k / 2
    } else {
        oct_k / 2 + 1
    }
}

pub fn key_offset(key: u8) -> (r: i32)
    ensures
        r == key_offset_spec(key),
{
    let oct_k: u8 = key % 12;
    let out: u8 = match oct_k {
        1 | 3 | 6 | 8 | 10 => oct_k / 2,
        x if x < 5 => oct_k / 2,
        _ => oct_k / 2 + 1,
    };
    out as i32
}

} // verus!
