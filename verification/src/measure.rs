//! Canvas measures.
//!
//! Positions and sizes on the canvas are IEEE-754 double-precision numbers.
//! A `Measure` carries such a number by its 64-bit pattern, so that every
//! rule on it is a rule on integers: bit 63 is the sign and the remaining
//! 63 bits, read as an unsigned magnitude, grow with the absolute value,
//! up to infinity at `INFINITY_BITS` and the not-a-number patterns above it.
use vstd::arithmetic::power2::lemma2_to64_rest;
use vstd::arithmetic::power2::pow2;
use vstd::prelude::*;

verus! {

/// Two to the power of 52: where the exponent of a pattern begins.
pub const EXPONENT_UNIT: u64 = 0x10_0000_0000_0000;

/// The sign bit of a double-precision pattern.
pub const SIGN_BIT: u64 = 0x8000_0000_0000_0000;

/// The magnitude of infinity: every larger magnitude is not a number.
pub const INFINITY_BITS: u64 = 0x7FF0_0000_0000_0000;

/// The pattern of 150: the width given to an entity that has none.
pub const DEFAULT_WIDTH_BITS: u64 = 0x4062_C000_0000_0000;

/// The pattern of 100: the height given to an entity that has none.
pub const DEFAULT_HEIGHT_BITS: u64 = 0x4059_0000_0000_0000;

/// The pattern of 50: the horizontal position given to an entity that has none.
pub const DEFAULT_POS_X_BITS: u64 = 0x4049_0000_0000_0000;

/// The pattern of 50: the vertical position given to an entity that has none.
pub const DEFAULT_POS_Y_BITS: u64 = 0x4049_0000_0000_0000;

/// The pattern of 1200: the width given to a canvas that has none.
pub const DEFAULT_CANVAS_WIDTH_BITS: u64 = 0x4092_C000_0000_0000;

/// The pattern of 800: the height given to a canvas that has none.
pub const DEFAULT_CANVAS_HEIGHT_BITS: u64 = 0x4089_0000_0000_0000;

/// A double-precision number, held by its bit pattern.
#[derive(Clone, Copy, Debug, PartialEq, Eq)]
pub struct Measure {
    pub bits: u64,
}

impl Measure {
    /// The pattern without its sign.
    pub open spec fn magnitude(&self) -> int {
        if self.bits >= SIGN_BIT {
            self.bits - SIGN_BIT
        } else {
            self.bits as int
        }
    }

    /// The sign bit is set.
    pub open spec fn sign(&self) -> bool {
        self.bits >= SIGN_BIT
    }

    /// The pattern is not a number.
    pub open spec fn spec_is_nan(&self) -> bool {
        self.magnitude() > INFINITY_BITS
    }

    /// The pattern is a number other than the two infinities.
    pub open spec fn spec_is_finite(&self) -> bool {
        self.magnitude() < INFINITY_BITS
    }

    /// The number is at most zero: either zero, or any negative number down
    /// to negative infinity. Not-a-number is not.
    pub open spec fn spec_at_most_zero(&self) -> bool {
        !self.spec_is_nan() && (self.sign() || self.magnitude() == 0)
    }

    /// The number is above zero, up to positive infinity. Not-a-number is not.
    pub open spec fn spec_is_positive(&self) -> bool {
        !self.spec_is_nan() && !self.sign() && self.magnitude() != 0
    }

    /// The number is the whole number `n` above zero: the pattern is that
    /// of a normal number, whose 52 low bits with a one before them, taken
    /// as far down as the exponent says, are `n`.
    pub open spec fn is_whole(&self, n: int) -> bool {
        let exponent = self.bits / EXPONENT_UNIT;
        let fraction = self.bits % EXPONENT_UNIT;
        &&& !self.sign()
        &&& 1 <= exponent <= 1075
        &&& n * pow2((1075 - exponent) as nat) == EXPONENT_UNIT + fraction
    }

    /// The measure with the given pattern.
    pub fn from_bits(bits: u64) -> (m: Measure)
        ensures
            m.bits == bits,
    {
        Measure { bits }
    }

    /// The pattern of this measure.
    pub fn to_bits(&self) -> (bits: u64)
        ensures
            bits == self.bits,
    {
        self.bits
    }

    fn magnitude_bits(&self) -> (m: u64)
        ensures
            m == self.magnitude(),
    {
        if self.bits >= SIGN_BIT {
            self.bits - SIGN_BIT
        } else {
            self.bits
        }
    }

    #[verifier::when_used_as_spec(spec_is_nan)]
    pub fn is_nan(&self) -> (r: bool)
        ensures
            r == self.spec_is_nan(),
    {
        self.magnitude_bits() > INFINITY_BITS
    }

    #[verifier::when_used_as_spec(spec_is_finite)]
    pub fn is_finite(&self) -> (r: bool)
        ensures
            r == self.spec_is_finite(),
    {
        self.magnitude_bits() < INFINITY_BITS
    }

    #[verifier::when_used_as_spec(spec_at_most_zero)]
    pub fn at_most_zero(&self) -> (r: bool)
        ensures
            r == self.spec_at_most_zero(),
    {
        let m: u64 = self.magnitude_bits();
        m <= INFINITY_BITS && (self.bits >= SIGN_BIT || m == 0)
    }

    #[verifier::when_used_as_spec(spec_is_positive)]
    pub fn is_positive(&self) -> (r: bool)
        ensures
            r == self.spec_is_positive(),
    {
        0 < self.bits && self.bits <= INFINITY_BITS
    }

    /// The size unless it is at most zero, and `fallback` in its place then.
    pub open spec fn repaired_size(self, fallback: Measure) -> Measure {
        if self.spec_at_most_zero() {
            fallback
        } else {
            self
        }
    }

    /// The position unless it is not a number, and `fallback` in its place then.
    pub open spec fn repaired_position(self, fallback: Measure) -> Measure {
        if self.spec_is_nan() {
            fallback
        } else {
            self
        }
    }
}

/// Every number is exactly one of: at most zero, above zero, not a number.
pub proof fn measure_trichotomy(m: Measure)
    ensures
        m.at_most_zero() || m.is_positive() || m.is_nan(),
        !(m.at_most_zero() && m.is_positive()),
        !(m.at_most_zero() && m.is_nan()),
        !(m.is_positive() && m.is_nan()),
{
}

/// The nullable flag of an attribute that does not say.
pub fn default_true() -> (b: bool)
    ensures
        b,
{
    true
}

/// The width of an entity that has none: 150.
pub fn default_width() -> (m: Measure)
    ensures
        m.bits == DEFAULT_WIDTH_BITS,
        m.is_whole(150),
        m.is_positive(),
        m.is_finite(),
{
    proof {
        lemma2_to64_rest();
    }
    Measure { bits: DEFAULT_WIDTH_BITS }
}

/// The height of an entity that has none: 100.
pub fn default_height() -> (m: Measure)
    ensures
        m.bits == DEFAULT_HEIGHT_BITS,
        m.is_whole(100),
        m.is_positive(),
        m.is_finite(),
{
    proof {
        lemma2_to64_rest();
    }
    Measure { bits: DEFAULT_HEIGHT_BITS }
}

/// The horizontal position of an entity that has none: 50.
pub fn default_pos_x() -> (m: Measure)
    ensures
        m.bits == DEFAULT_POS_X_BITS,
        m.is_whole(50),
        m.is_finite(),
{
    proof {
        lemma2_to64_rest();
    }
    Measure { bits: DEFAULT_POS_X_BITS }
}

/// The vertical position of an entity that has none: 50.
pub fn default_pos_y() -> (m: Measure)
    ensures
        m.bits == DEFAULT_POS_Y_BITS,
        m.is_whole(50),
        m.is_finite(),
{
    proof {
        lemma2_to64_rest();
    }
    Measure { bits: DEFAULT_POS_Y_BITS }
}

/// The width of a canvas that has none: 1200.
pub fn default_canvas_width() -> (m: Measure)
    ensures
        m.bits == DEFAULT_CANVAS_WIDTH_BITS,
        m.is_whole(1200),
        m.is_positive(),
        m.is_finite(),
{
    proof {
        lemma2_to64_rest();
    }
    Measure { bits: DEFAULT_CANVAS_WIDTH_BITS }
}

/// The height of a canvas that has none: 800.
pub fn default_canvas_height() -> (m: Measure)
    ensures
        m.bits == DEFAULT_CANVAS_HEIGHT_BITS,
        m.is_whole(800),
        m.is_positive(),
        m.is_finite(),
{
    proof {
        lemma2_to64_rest();
    }
    Measure { bits: DEFAULT_CANVAS_HEIGHT_BITS }
}

} // verus!
