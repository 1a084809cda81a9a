//! The pseudo-random bit source of the renderer: a 256-bit xoshiro generator.
//!
//! The generator is plain integer arithmetic, so all of it is specified bit
//! for bit. A uniform real in the unit interval is the top 53 bits of a
//! draw, scaled by two to the minus 53; the scaling loses nothing, so it is
//! done here, on the encoding of the real.

use crate::vector::{
    lemma_rank_of_positive_word, Scalar, FRACTION_MASK, HIDDEN_BIT, MAGNITUDE_MASK, ONE_BITS,
    SIGN_BIT, ZERO_BITS,
};
use std::collections::hash_map::DefaultHasher;
use std::hash::Hasher;
use vstd::bytes::{spec_u64_to_le_bytes, u64_to_le_bytes};
use vstd::prelude::*;
use vstd::std_specs::bits::axiom_u64_leading_zeros;
use vstd::std_specs::hash::DefaultHasherAdditionalSpecFns;
use vstd::wrapping::u64_specs::wrapping_add;

verus! {

/// Number of steps a freshly seeded generator is advanced before first use.
pub const WARM_UP_STEPS: usize = 16;

/// `x` rotated left by `k` bits, for `0 < k < 64`.
pub open spec fn rotl(x: u64, k: u64) -> u64 {
    (x << k) | (x >> ((64 - k) as u64))
}

/// The word a generator in state `s` hands out.
pub open spec fn output(s: Seq<u64>) -> u64 {
    wrapping_add(rotl(wrapping_add(s[0], s[3]), 23), s[0])
}

/// The state that follows `s`.
pub open spec fn step(s: Seq<u64>) -> Seq<u64> {
    seq![
        s[0] ^ (s[3] ^ s[1]),
        s[1] ^ (s[2] ^ s[0]),
        (s[2] ^ s[0]) ^ (s[1] << 17),
        rotl(s[3] ^ s[1], 45),
    ]
}

/// The state reached from `s` after `n` steps.
pub open spec fn steps(s: Seq<u64>, n: nat) -> Seq<u64>
    decreases n,
{
    if n == 0 {
        s
    } else {
        step(steps(s, (n - 1) as nat))
    }
}

/// What the default hasher has been fed once the seed and the counters
/// `0..=i` went in, each as eight little-endian bytes.
pub open spec fn seed_writes(seed: u64, i: nat) -> Seq<Seq<u8>>
    decreases i,
{
    if i == 0 {
        seq![spec_u64_to_le_bytes(seed), spec_u64_to_le_bytes(0)]
    } else {
        seed_writes(seed, (i - 1) as nat).push(spec_u64_to_le_bytes(i as u64))
    }
}

/// The four state words derived from `seed`, before warm-up: word `i` is the
/// digest of the default hasher after the seed and the counters `0..=i`.
pub open spec fn seeded_state(seed: u64) -> Seq<u64> {
    Seq::new(4, |i: int| DefaultHasher::spec_finish(seed_writes(seed, i as nat)))
}

/// Whether `u` is the real `m` times two to the minus 53, for an `m` below
/// two to the 53. Zero is positive zero. Any other `m` is moved up until its
/// top bit is the leading one of a significand, none of its bits lost, and
/// the exponent field is 1022 less the number of places it was moved, so
/// that significand times two to the power of exponent less 1075 is `m`
/// times two to the minus 53.
pub open spec fn is_unit_of(u: Scalar, m: u64) -> bool {
    if m == 0 {
        u.bits == ZERO_BITS
    } else {
        let places = (1022 - u.exponent()) as u64;
        &&& !u.sign()
        &&& 970 <= u.exponent() <= 1022
        &&& u.significand() == m << places
        &&& (m << places) >> places == m
    }
}

/// `min` and `max` with the smaller one first.
pub open spec fn in_order(min: Scalar, max: Scalar) -> (Scalar, Scalar) {
    if min.le_spec(max) {
        (min, max)
    } else {
        (max, min)
    }
}

/// The real in `[0, 1)` that the top 53 bits of `word` stand for: those
/// bits, read as a number, times two to the minus 53.
pub fn unit_scalar(word: u64) -> (u: Scalar)
    ensures
        is_unit_of(u, word >> 11),
        (Scalar { bits: ZERO_BITS }).le_spec(u),
        u.lt_spec(Scalar { bits: ONE_BITS }),
{
    let m: u64 = word >> 11;
    assert(word >> 11 < 0x20_0000_0000_0000u64) by (bit_vector);
    proof {
        lemma_rank_of_positive_word(ZERO_BITS);
        lemma_rank_of_positive_word(ONE_BITS);
    }
    if m == 0 {
        return Scalar::from_bits(ZERO_BITS);
    }
    let zeros: u32 = m.leading_zeros();
    proof {
        axiom_u64_leading_zeros(m);
        let z = zeros as u64;
        assert(z < 64);
        assert((m >> ((63 - z) as u64)) & 1 != 0);
        assert(11 <= z) by (bit_vector)
            requires
                m < 0x20_0000_0000_0000u64,
                z < 64,
                (m >> ((63 - z) as u64)) & 1 != 0,
        ;
    }
    let places: u32 = zeros - 11;
    let significand: u64 = m << places;
    let exponent: u64 = 1022 - places as u64;
    let bits: u64 = (exponent << 52) | (significand & FRACTION_MASK);
    proof {
        let z = zeros as u64;
        let k = places as u64;
        assert(m << places == m << k) by (bit_vector)
            requires
                k == places,
        ;
        assert((m << k) & HIDDEN_BIT != 0 && (m << k) < 0x20_0000_0000_0000u64 && (m << k) >> k
            == m) by (bit_vector)
            requires
                m < 0x20_0000_0000_0000u64,
                11 <= z < 64,
                k == z - 11,
                (m >> ((63 - z) as u64)) & 1 != 0,
                m >> ((64 - z) as u64) == 0,
        ;
        assert(((bits & MAGNITUDE_MASK) >> 52) == exponent && bits & SIGN_BIT == 0 && ((bits
            & FRACTION_MASK) | HIDDEN_BIT) == significand && (bits & MAGNITUDE_MASK)
            < 0x3FF0_0000_0000_0000u64) by (bit_vector)
            requires
                bits == (exponent << 52) | (significand & FRACTION_MASK),
                exponent <= 1022,
                significand & HIDDEN_BIT != 0,
                significand < 0x20_0000_0000_0000u64,
        ;
    }
    Scalar::from_bits(bits)
}

/// The two bounds of a range with the smaller one first, so that a range
/// given the wrong way round is read the right way.
pub fn ordered(min: Scalar, max: Scalar) -> (bounds: (Scalar, Scalar))
    ensures
        bounds == in_order(min, max),
        !min.is_nan_spec() && !max.is_nan_spec() ==> bounds.0.le_spec(bounds.1),
{
    if min.le(max) {
        (min, max)
    } else {
        (max, min)
    }
}

/// A xoshiro generator with 256 bits of state.
pub struct Xoshiro256 {
    pub state: [u64; 4],
}

impl View for Xoshiro256 {
    type V = Seq<u64>;

    open spec fn view(&self) -> Seq<u64> {
        self.state@
    }
}

fn rotate_left(x: u64, k: u32) -> (r: u64)
    requires
        0 < k < 64,
    ensures
        r == rotl(x, k as u64),
{
    let r: u64 = (x << k) | (x >> (64 - k));
    assert((x << k) | (x >> ((64 - k) as u32)) == (x << (k as u64)) | (x >> ((64 - k as u64) as u64)))
        by (bit_vector)
        requires
            0 < k < 64,
    ;
    r
}

impl Xoshiro256 {
    /// A generator seeded from `seed`: each state word is a digest of the
    /// seed and a running counter, and the state is then advanced
    /// [`WARM_UP_STEPS`] times so that poor seeds are mixed as well.
    pub fn new(seed: u64) -> (rng: Self)
        ensures
            rng@ == steps(seeded_state(seed), WARM_UP_STEPS as nat),
    {
        let mut state: [u64; 4] = [0; 4];
        let mut hasher = DefaultHasher::new();
        hasher.write(u64_to_le_bytes(seed).as_slice());
        assert(hasher@ =~= seq![spec_u64_to_le_bytes(seed)]);
        for i in 0..4usize
            invariant
                i == 0 ==> hasher@ == seq![spec_u64_to_le_bytes(seed)],
                i > 0 ==> hasher@ == seed_writes(seed, (i - 1) as nat),
                forall|j: int| 0 <= j < i ==> state@[j] == seeded_state(seed)[j],
        {
            hasher.write(u64_to_le_bytes(i as u64).as_slice());
            assert(hasher@ =~= seed_writes(seed, i as nat));
            state[i] = hasher.finish();
        }
        assert(state@ =~= seeded_state(seed));
        let mut rng = Xoshiro256 { state };
        for n in 0..WARM_UP_STEPS
            invariant
                rng@ == steps(seeded_state(seed), n as nat),
        {
            rng.next();
        }
        rng
    }

    /// The next 64 random bits; the state moves one step on.
    pub fn next(&mut self) -> (word: u64)
        ensures
            word == output(old(self)@),
            final(self)@ == step(old(self)@),
    {
        let s0: u64 = self.state[0];
        let s1: u64 = self.state[1];
        let s2: u64 = self.state[2];
        let s3: u64 = self.state[3];
        let word: u64 = rotate_left(s0.wrapping_add(s3), 23).wrapping_add(s0);
        let t: u64 = s1 << 17;
        let n2: u64 = s2 ^ s0;
        let n3: u64 = s3 ^ s1;
        let n1: u64 = s1 ^ n2;
        let n0: u64 = s0 ^ n3;
        self.state = [n0, n1, n2 ^ t, rotate_left(n3, 45)];
        assert(self.state@ =~= step(old(self)@));
        word
    }

    /// The next uniform real in `[0, 1)`: the top 53 bits of the next word
    /// times two to the minus 53, with every one of them kept.
    pub fn next_unit(&mut self) -> (u: Scalar)
        ensures
            is_unit_of(u, output(old(self)@) >> 11),
            (Scalar { bits: ZERO_BITS }).le_spec(u),
            u.lt_spec(Scalar { bits: ONE_BITS }),
            final(self)@ == step(old(self)@),
    {
        let word: u64 = self.next();
        unit_scalar(word)
    }
}

} // verus!
