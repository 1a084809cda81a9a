//! Real numbers and three-component vectors as the verified core sees them.
//!
//! A real is kept as the 64-bit word of its IEEE 754 double-precision
//! encoding. The core does on reals what can be done exactly on the
//! encoding: it stores them, hands them on, orders them, changes or drops
//! their sign, and cuts them off at the point. Arithmetic that rounds is
//! done elsewhere.
//!
//! The encoding is sign and magnitude. The order of the non-negative reals
//! is the order of their words, a set sign bit mirrors it, both zeros are
//! the same number, and the words above infinity in magnitude are no
//! numbers at all and compare with nothing.

use vstd::prelude::*;

verus! {

/// The word of positive zero.
pub const ZERO_BITS: u64 = 0;

/// The word of one.
pub const ONE_BITS: u64 = 0x3FF0_0000_0000_0000;

/// The word of minus one.
pub const MINUS_ONE_BITS: u64 = 0xBFF0_0000_0000_0000;

/// The word of positive infinity.
pub const INFINITY_BITS: u64 = 0x7FF0_0000_0000_0000;

/// The bit of a word that holds the sign.
pub const SIGN_BIT: u64 = 0x8000_0000_0000_0000;

/// The bits of a word that hold the magnitude: exponent and fraction.
pub const MAGNITUDE_MASK: u64 = 0x7FFF_FFFF_FFFF_FFFF;

/// The bits of a word that hold the fraction.
pub const FRACTION_MASK: u64 = 0x000F_FFFF_FFFF_FFFF;

/// The leading one of a significand, which the encoding leaves out.
pub const HIDDEN_BIT: u64 = 0x0010_0000_0000_0000;

/// The exponent field of the numbers from one up to, but not including, two.
pub const EXPONENT_BIAS: u64 = 1023;

/// A double-precision real, held as the word that encodes it.
///
/// Two scalars are equal when their words are. That is finer than being the
/// same number: the two zeros are one number in two words, and
/// [`Scalar::rank`] tells numbers apart where it matters.
#[derive(Clone, Copy, Debug, PartialEq, Eq, Structural)]
pub struct Scalar {
    pub bits: u64,
}

impl Scalar {
    /// The word without its sign.
    pub open spec fn magnitude(self) -> u64 {
        self.bits & MAGNITUDE_MASK
    }

    /// Whether the sign bit is set.
    pub open spec fn sign(self) -> bool {
        self.bits & SIGN_BIT != 0
    }

    /// Whether the word encodes no number.
    pub open spec fn is_nan_spec(self) -> bool {
        self.magnitude() > INFINITY_BITS
    }

    /// The place of the number on the number line: an integer that grows
    /// with the number, and is the same for the same number.
    pub open spec fn rank(self) -> int {
        if self.sign() {
            -(self.magnitude() as int)
        } else {
            self.magnitude() as int
        }
    }

    /// The exponent field of the word.
    pub open spec fn exponent(self) -> u64 {
        (self.bits & MAGNITUDE_MASK) >> 52
    }

    /// The significand of a number whose exponent field is not zero: the
    /// fraction with the leading one put back. The number is the
    /// significand times two to the power of the exponent field less 1075.
    pub open spec fn significand(self) -> u64 {
        (self.bits & FRACTION_MASK) | HIDDEN_BIT
    }

    /// The number cut off at the point and held to `0..=max`, for a `max`
    /// below two to the 32: nothing for what is negative, less than one or
    /// no number, `max` for what lies beyond it.
    pub open spec fn whole_part(self, max: u64) -> u64 {
        if self.is_nan_spec() || self.sign() || self.exponent() < EXPONENT_BIAS {
            0
        } else if self.exponent() >= EXPONENT_BIAS + 32 {
            max
        } else {
            let whole = self.significand() >> ((EXPONENT_BIAS + 52 - self.exponent()) as u64);
            if whole > max {
                max
            } else {
                whole
            }
        }
    }

    /// `self < other`: both are numbers, and `self` is the smaller one.
    pub open spec fn lt_spec(self, other: Scalar) -> bool {
        !self.is_nan_spec() && !other.is_nan_spec() && self.rank() < other.rank()
    }

    /// `self <= other`: both are numbers, and `self` is not the larger one.
    pub open spec fn le_spec(self, other: Scalar) -> bool {
        !self.is_nan_spec() && !other.is_nan_spec() && self.rank() <= other.rank()
    }

    /// The number with the opposite sign.
    pub open spec fn neg_spec(self) -> Scalar {
        Scalar { bits: self.bits ^ SIGN_BIT }
    }

    /// The number without its sign.
    pub open spec fn abs_spec(self) -> Scalar {
        Scalar { bits: self.bits & MAGNITUDE_MASK }
    }

    /// `self` held between `low` and `high`: `low` where `self` is below
    /// it, `high` where `self` is above it, else `self`, which is also what
    /// becomes of a word that is no number.
    pub open spec fn clamp_spec(self, low: Scalar, high: Scalar) -> Scalar {
        if self.lt_spec(low) {
            low
        } else if high.lt_spec(self) {
            high
        } else {
            self
        }
    }

    /// The real whose encoding is `bits`.
    pub fn from_bits(bits: u64) -> (s: Self)
        ensures
            s.bits == bits,
    {
        Scalar { bits }
    }

    /// The word that encodes this real.
    pub fn to_bits(self) -> (bits: u64)
        ensures
            bits == self.bits,
    {
        self.bits
    }

    /// Whether the word encodes no number.
    #[verifier::when_used_as_spec(is_nan_spec)]
    pub fn is_nan(self) -> (nan: bool)
        ensures
            nan == self.is_nan_spec(),
    {
        self.bits & MAGNITUDE_MASK > INFINITY_BITS
    }

    /// Whether `self < other`.
    #[verifier::when_used_as_spec(lt_spec)]
    pub fn lt(self, other: Scalar) -> (below: bool)
        ensures
            below == self.lt_spec(other),
    {
        if self.is_nan() || other.is_nan() {
            return false;
        }
        let a: u64 = self.bits & MAGNITUDE_MASK;
        let b: u64 = other.bits & MAGNITUDE_MASK;
        if self.bits & SIGN_BIT != 0 {
            if other.bits & SIGN_BIT != 0 {
                b < a
            } else {
                a != 0 || b != 0
            }
        } else {
            if other.bits & SIGN_BIT != 0 {
                false
            } else {
                a < b
            }
        }
    }

    /// Whether `self <= other`.
    #[verifier::when_used_as_spec(le_spec)]
    pub fn le(self, other: Scalar) -> (within: bool)
        ensures
            within == self.le_spec(other),
    {
        if self.is_nan() || other.is_nan() {
            return false;
        }
        !other.lt(self)
    }

    /// The number with the opposite sign.
    #[verifier::when_used_as_spec(neg_spec)]
    pub fn neg(self) -> (opposite: Scalar)
        ensures
            opposite == self.neg_spec(),
    {
        Scalar { bits: self.bits ^ SIGN_BIT }
    }

    /// The number without its sign.
    #[verifier::when_used_as_spec(abs_spec)]
    pub fn abs(self) -> (unsigned: Scalar)
        ensures
            unsigned == self.abs_spec(),
    {
        Scalar { bits: self.bits & MAGNITUDE_MASK }
    }

    fn truncate(self, max: u64) -> (whole: u64)
        ensures
            whole == self.whole_part(max),
    {
        let magnitude: u64 = self.bits & MAGNITUDE_MASK;
        let exponent: u64 = magnitude >> 52;
        if magnitude > INFINITY_BITS || self.bits & SIGN_BIT != 0 || exponent < EXPONENT_BIAS {
            return 0;
        }
        if exponent >= EXPONENT_BIAS + 32 {
            return max;
        }
        let significand: u64 = (self.bits & FRACTION_MASK) | HIDDEN_BIT;
        let whole: u64 = significand >> (EXPONENT_BIAS + 52 - exponent);
        if whole > max {
            max
        } else {
            whole
        }
    }

    /// The number cut off at the point, as a byte: 0 for what is negative
    /// or no number, 255 for what lies beyond.
    pub fn to_u8(self) -> (byte: u8)
        ensures
            byte == self.whole_part(255),
    {
        self.truncate(255) as u8
    }

    /// The number cut off at the point, as a 32-bit count: 0 for what is
    /// negative or no number, the largest count for what lies beyond.
    pub fn to_u32(self) -> (count: u32)
        ensures
            count == self.whole_part(0xFFFF_FFFF),
    {
        self.truncate(0xFFFF_FFFF) as u32
    }

    /// `self` held between `low` and `high`.
    #[verifier::when_used_as_spec(clamp_spec)]
    pub fn clamp(self, low: Scalar, high: Scalar) -> (held: Scalar)
        ensures
            held == self.clamp_spec(low, high),
    {
        if self.lt(low) {
            low
        } else if high.lt(self) {
            high
        } else {
            self
        }
    }
}

/// A point, a direction or a colour: three reals.
#[derive(Clone, Copy, Debug, PartialEq, Eq, Structural)]
pub struct Vector3 {
    pub x: Scalar,
    pub y: Scalar,
    pub z: Scalar,
}

impl Vector3 {
    /// The vector that points the opposite way.
    pub open spec fn neg_spec(self) -> Vector3 {
        Vector3 { x: self.x.neg_spec(), y: self.y.neg_spec(), z: self.z.neg_spec() }
    }

    /// The vector with the given components.
    pub fn new(x: Scalar, y: Scalar, z: Scalar) -> (v: Self)
        ensures
            v == (Vector3 { x, y, z }),
    {
        Vector3 { x, y, z }
    }

    /// The vector whose components are encoded by the three words.
    pub fn from_bits(x: u64, y: u64, z: u64) -> (v: Self)
        ensures
            v.x.bits == x,
            v.y.bits == y,
            v.z.bits == z,
    {
        Vector3 { x: Scalar { bits: x }, y: Scalar { bits: y }, z: Scalar { bits: z } }
    }

    /// The words that encode the three components, in order.
    pub fn to_bits(self) -> (words: [u64; 3])
        ensures
            words@ == seq![self.x.bits, self.y.bits, self.z.bits],
    {
        let words: [u64; 3] = [self.x.bits, self.y.bits, self.z.bits];
        assert(words@ =~= seq![self.x.bits, self.y.bits, self.z.bits]);
        words
    }

    /// The vector that points the opposite way.
    #[verifier::when_used_as_spec(neg_spec)]
    pub fn neg(self) -> (opposite: Vector3)
        ensures
            opposite == self.neg_spec(),
    {
        Vector3 { x: self.x.neg(), y: self.y.neg(), z: self.z.neg() }
    }
}

/// A word up to that of infinity encodes a number that is not negative, and
/// the number has the word as its rank: among such words, the order of the
/// numbers is the order of the words.
pub proof fn lemma_rank_of_positive_word(bits: u64)
    requires
        bits <= INFINITY_BITS,
    ensures
        (Scalar { bits }).rank() == bits,
        !(Scalar { bits }).is_nan_spec(),
        !(Scalar { bits }).sign(),
{
    assert(bits & MAGNITUDE_MASK == bits && bits & SIGN_BIT == 0) by (bit_vector)
        requires
            bits <= 0x7FF0_0000_0000_0000u64,
    ;
}

/// Less-than is a strict order on the numbers: nothing is below itself,
/// and what is below something below a third is below the third.
pub proof fn lemma_lt_is_strict_order(a: Scalar, b: Scalar, c: Scalar)
    ensures
        !a.lt_spec(a),
        a.lt_spec(b) ==> !b.lt_spec(a),
        a.lt_spec(b) && b.lt_spec(c) ==> a.lt_spec(c),
        a.lt_spec(b) && b.le_spec(c) ==> a.lt_spec(c),
        a.le_spec(b) && b.lt_spec(c) ==> a.lt_spec(c),
{
}

/// Any two numbers are comparable: one is below the other, or they are the
/// same number. A word that is no number compares with nothing.
pub proof fn lemma_lt_is_total_on_numbers(a: Scalar, b: Scalar)
    ensures
        !a.is_nan_spec() && !b.is_nan_spec() ==> (a.lt_spec(b) || b.lt_spec(a) || a.rank()
            == b.rank()),
        a.le_spec(b) <==> (a.lt_spec(b) || (!a.is_nan_spec() && !b.is_nan_spec() && a.rank()
            == b.rank())),
        a.is_nan_spec() ==> !a.lt_spec(b) && !b.lt_spec(a) && !a.le_spec(b) && !b.le_spec(a),
{
}

/// Two numbers of the same rank are the same word, but for the two zeros.
pub proof fn lemma_rank_names_the_number(a: Scalar, b: Scalar)
    requires
        a.rank() == b.rank(),
    ensures
        a == b || (a.magnitude() == 0 && b.magnitude() == 0),
{
    let x = a.bits;
    let y = b.bits;
    assert((x & MAGNITUDE_MASK) == (y & MAGNITUDE_MASK) && ((x & SIGN_BIT) != 0) == ((y & SIGN_BIT)
        != 0) ==> x == y) by (bit_vector);
}

/// Changing the sign mirrors the number line and undoes itself.
pub proof fn lemma_neg_mirrors(a: Scalar, b: Scalar)
    ensures
        a.neg_spec().rank() == -a.rank(),
        a.neg_spec().is_nan_spec() == a.is_nan_spec(),
        a.neg_spec().neg_spec() == a,
        a.lt_spec(b) <==> b.neg_spec().lt_spec(a.neg_spec()),
{
    lemma_neg_bits(a);
    lemma_neg_bits(b);
}

proof fn lemma_neg_bits(a: Scalar)
    ensures
        a.neg_spec().magnitude() == a.magnitude(),
        a.neg_spec().sign() == !a.sign(),
        a.neg_spec().neg_spec() == a,
{
    let x = a.bits;
    assert(((x ^ SIGN_BIT) & MAGNITUDE_MASK) == (x & MAGNITUDE_MASK)) by (bit_vector);
    assert((((x ^ SIGN_BIT) & SIGN_BIT) != 0) == !((x & SIGN_BIT) != 0)) by (bit_vector);
    assert(((x ^ SIGN_BIT) ^ SIGN_BIT) == x) by (bit_vector);
}

/// Dropping the sign folds the number line at zero.
pub proof fn lemma_abs_folds(a: Scalar)
    ensures
        a.abs_spec().rank() == if a.rank() < 0 {
            -a.rank()
        } else {
            a.rank()
        },
        a.abs_spec().is_nan_spec() == a.is_nan_spec(),
        !a.abs_spec().sign(),
{
    let x = a.bits;
    assert(((x & MAGNITUDE_MASK) & MAGNITUDE_MASK) == (x & MAGNITUDE_MASK)) by (bit_vector);
    assert(((x & MAGNITUDE_MASK) & SIGN_BIT) == 0) by (bit_vector);
}

/// The whole part is the number rounded down. For a number from one up to
/// below two to the 32, the significand has `1075 - exponent` places behind
/// the point; the whole part, moved up by as many places, is at most the
/// significand and less than one unit of the last whole place below it.
pub proof fn lemma_whole_part_rounds_down(x: Scalar)
    requires
        !x.is_nan_spec(),
        !x.sign(),
        EXPONENT_BIAS <= x.exponent() < EXPONENT_BIAS + 32,
    ensures
        ({
            let places = (1075 - x.exponent()) as u64;
            let whole = x.whole_part(0xFFFF_FFFF);
            &&& 1 <= whole <= 0xFFFF_FFFF
            &&& whole << places <= x.significand()
            &&& x.significand() - (whole << places) < 1u64 << places
        }),
{
    let b = x.bits;
    let e = (b & MAGNITUDE_MASK) >> 52;
    let sig = (b & FRACTION_MASK) | HIDDEN_BIT;
    let k = (1075 - e) as u64;
    assert(1 <= (sig >> k) <= 0xFFFF_FFFF && ((sig >> k) << k) <= sig && sig - ((sig >> k) << k) < (
    1u64 << k)) by (bit_vector)
        requires
            sig == (b & FRACTION_MASK) | HIDDEN_BIT,
            21 <= k <= 52,
    ;
}

/// What is held between two bounds in order lies between them, and what
/// lies between them already is left as it is.
pub proof fn lemma_clamp_holds(x: Scalar, low: Scalar, high: Scalar)
    requires
        low.le_spec(high),
        !x.is_nan_spec(),
    ensures
        low.le_spec(x.clamp_spec(low, high)),
        x.clamp_spec(low, high).le_spec(high),
        low.le_spec(x) && x.le_spec(high) ==> x.clamp_spec(low, high) == x,
{
}

} // verus!
