use aurora::fastrand::{Xoshiro256, WARM_UP_STEPS};
use std::collections::hash_map::DefaultHasher;
use std::hash::{Hash, Hasher};

/// The generator written out in the plainest way: scramble, then the xor
/// shuffle of the four words.
fn reference_next(s: &mut [u64; 4]) -> u64 {
    let result = s[0].wrapping_add(s[3]).rotate_left(23).wrapping_add(s[0]);
    let t = s[1] << 17;
    s[2] ^= s[0];
    s[3] ^= s[1];
    s[1] ^= s[2];
    s[0] ^= s[3];
    s[2] ^= t;
    s[3] = s[3].rotate_left(45);
    result
}

fn reference_seed(seed: u64) -> [u64; 4] {
    let mut state = [0u64; 4];
    let mut hasher = DefaultHasher::new();
    seed.hash(&mut hasher);
    for i in 0..4 {
        hasher.write_u64(i as u64);
        state[i] = hasher.finish();
    }
    for _ in 0..16 {
        reference_next(&mut state);
    }
    state
}

#[test]
fn next_from_a_known_state() {
    let mut rng = Xoshiro256 { state: [1, 2, 3, 4] };
    // (1 + 4) rotated left by 23, plus 1
    assert_eq!(rng.next(), (5u64 << 23) + 1);
    assert_eq!(rng.state, [7, 0, 262146, 6 << 45]);
}

#[test]
fn next_wraps_and_rotates() {
    let mut rng = Xoshiro256 { state: [u64::MAX, 0, 0, 2] };
    // MAX + 2 wraps to 1; 1 rotated by 23; plus MAX wraps again
    assert_eq!(rng.next(), (1u64 << 23).wrapping_add(u64::MAX));
    assert_eq!(rng.state, [u64::MAX ^ 2, u64::MAX, u64::MAX, 2u64.rotate_left(45)]);
    let mut high = Xoshiro256 { state: [0, 1 << 63, 0, 1 << 63] };
    assert_eq!(high.next(), 1u64 << 22);
    // the shifted word loses its top bit, the rotated one keeps every bit
    assert_eq!(high.state, [0, 1 << 63, 0, 0]);
}

#[test]
fn next_follows_the_reference_stream() {
    let mut state = [0x0123_4567_89ab_cdef, 0xfedc_ba98_7654_3210, 0xdead_beef_cafe_f00d, 42];
    let mut rng = Xoshiro256 { state };
    for _ in 0..1000 {
        assert_eq!(rng.next(), reference_next(&mut state));
        assert_eq!(rng.state, state);
    }
}

#[test]
fn the_zero_state_is_stuck() {
    let mut rng = Xoshiro256 { state: [0; 4] };
    assert_eq!(rng.next(), 0);
    assert_eq!(rng.state, [0; 4]);
}

#[test]
fn new_hashes_the_seed_and_warms_up() {
    assert_eq!(WARM_UP_STEPS, 16);
    for seed in [0u64, 1, 42, u64::MAX, 0x9e37_79b9_7f4a_7c15] {
        assert_eq!(Xoshiro256::new(seed).state, reference_seed(seed));
    }
}

#[test]
fn seeds_give_different_streams() {
    let mut a = Xoshiro256::new(0);
    let mut b = Xoshiro256::new(1);
    assert_ne!(a.state, b.state);
    assert_ne!(a.state, [0; 4]);
    assert_ne!(a.next(), b.next());
}
