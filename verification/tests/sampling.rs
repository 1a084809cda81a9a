use aurora::fastrand::{ordered, unit_scalar, Xoshiro256};

const MANTISSA_RANGE: u64 = 1 << 53;
use aurora::material::{in_unit_ball, near_zero, reflects, BLACK_HOLE_BITS, NEAR_ZERO_BITS};
use aurora::vector::{Scalar, Vector3};

fn num(x: f64) -> Scalar {
    Scalar::from_bits(x.to_bits())
}

fn value(s: Scalar) -> f64 {
    f64::from_bits(s.to_bits())
}

fn vector(x: f64, y: f64, z: f64) -> Vector3 {
    Vector3::new(num(x), num(y), num(z))
}

fn scaled(m: u64) -> f64 {
    (m as f64) * (1.0 / (1u64 << 53) as f64)
}

#[test]
fn unit_scalar_is_the_mantissa_scaled_down() {
    assert_eq!(value(unit_scalar(0 << 11)), 0.0);
    assert_eq!(unit_scalar(0 << 11).to_bits(), 0);
    assert_eq!(value(unit_scalar(1 << 11)), 2f64.powi(-53));
    assert_eq!(value(unit_scalar(1 << 63)), 0.5);
    assert_eq!(value(unit_scalar(3 << 62)), 0.75);
    assert_eq!(value(unit_scalar(u64::MAX)), 1.0 - 2f64.powi(-53));
    for shift in 0..53 {
        for m in [1u64 << shift, (1u64 << shift) | 1, (1u64 << shift).wrapping_sub(1), (3u64 << shift) >> 1] {
            if m < MANTISSA_RANGE {
                assert_eq!(unit_scalar(m << 11).to_bits(), scaled(m).to_bits(), "mantissa {}", m);
            }
        }
    }
}

#[test]
fn unit_scalar_agrees_with_the_hardware_on_random_words() {
    let mut rng = Xoshiro256::new(5);
    for _ in 0..20000 {
        let word = rng.next();
        assert_eq!(unit_scalar(word).to_bits(), scaled(word >> 11).to_bits());
    }
}

#[test]
fn unit_scalar_reads_the_top_bits_only() {
    assert_eq!(unit_scalar(0x7FF), unit_scalar(0));
    assert_eq!(unit_scalar((1 << 63) | 0x7FF), unit_scalar(1 << 63));
    assert_ne!(unit_scalar(0x800), unit_scalar(0));
}

#[test]
fn next_unit_lies_in_the_unit_interval() {
    let mut rng = Xoshiro256::new(11);
    let mut twin = Xoshiro256::new(11);
    let mut sum = 0.0;
    for _ in 0..10000 {
        let u = value(rng.next_unit());
        assert!((0.0..1.0).contains(&u));
        assert_eq!(u, scaled(twin.next() >> 11));
        sum += u;
    }
    assert_eq!(rng.state, twin.state);
    assert!((sum / 10000.0 - 0.5).abs() < 0.02);
}

#[test]
fn largest_draw_stays_below_one() {
    let mut rng = Xoshiro256 { state: [u64::MAX, 0, 0, 1] };
    assert_eq!(value(rng.next_unit()), 1.0 - 2f64.powi(-53));
}

#[test]
fn bounds_are_put_in_order() {
    let pair = |a: f64, b: f64| {
        let (lo, hi) = ordered(num(a), num(b));
        (value(lo), value(hi))
    };
    assert_eq!(pair(-1.0, 1.0), (-1.0, 1.0));
    assert_eq!(pair(1.0, -1.0), (-1.0, 1.0));
    assert_eq!(pair(2.0, 2.0), (2.0, 2.0));
    assert_eq!(pair(f64::INFINITY, 0.0), (0.0, f64::INFINITY));
    // zeros are equal: they stay as given
    let (lo, hi) = ordered(num(0.0), num(-0.0));
    assert_eq!((lo.to_bits(), hi.to_bits()), (0.0f64.to_bits(), (-0.0f64).to_bits()));
}

#[test]
fn near_zero_needs_all_components_tiny() {
    assert_eq!(f64::from_bits(NEAR_ZERO_BITS), 1e-8);
    assert!(near_zero(&vector(0.0, 0.0, 0.0)));
    assert!(near_zero(&vector(9e-9, -9e-9, 1e-300)));
    assert!(near_zero(&vector(-0.0, 0.0, -9.99e-9)));
    assert!(!near_zero(&vector(1e-8, 0.0, 0.0)));
    assert!(!near_zero(&vector(0.0, -1e-8, 0.0)));
    assert!(!near_zero(&vector(0.0, 0.0, 0.5)));
    assert!(!near_zero(&vector(f64::NAN, 0.0, 0.0)));
    assert!(!near_zero(&vector(0.0, 0.0, f64::NEG_INFINITY)));
}

#[test]
fn near_zero_agrees_with_the_hardware() {
    let mut rng = Xoshiro256::new(3);
    for _ in 0..20000 {
        // exponents around the bound
        let mut draw = || f64::from_bits((rng.next() & 0x800F_FFFF_FFFF_FFFF) | (0x3E3 + (rng.next() % 4)) << 52);
        let (x, y, z) = (draw(), draw(), draw());
        let s = 1e-8;
        let expected = (x.abs() < s) && (y.abs() < s) && (z.abs() < s);
        assert_eq!(near_zero(&vector(x, y, z)), expected);
    }
}

#[test]
fn unit_ball_keeps_what_can_be_normalised() {
    assert_eq!(f64::from_bits(BLACK_HOLE_BITS), 1e-160);
    assert!(in_unit_ball(num(1.0)));
    assert!(in_unit_ball(num(0.5)));
    assert!(in_unit_ball(num(1.0000000000000002e-160)));
    assert!(!in_unit_ball(num(1e-160)));
    assert!(!in_unit_ball(num(0.0)));
    assert!(!in_unit_ball(num(1.0000000000000002)));
    assert!(!in_unit_ball(num(3.0)));
    assert!(!in_unit_ball(num(f64::NAN)));
    assert!(!in_unit_ball(num(-0.5)));
}

#[test]
fn clear_surface_reflects_or_refracts() {
    // no refracted ray: reflected whatever is drawn
    assert!(reflects(num(1.2), num(0.0), num(0.999)));
    assert!(reflects(num(1.0000000000000002), num(0.04), num(0.5)));
    // a refracted ray exists: the draw decides
    assert!(reflects(num(0.7), num(0.04), num(0.03)));
    assert!(!reflects(num(0.7), num(0.04), num(0.04)));
    assert!(!reflects(num(0.7), num(0.04), num(0.5)));
    assert!(!reflects(num(1.0), num(0.04), num(0.5)));
    assert!(!reflects(num(f64::NAN), num(f64::NAN), num(0.5)));
    for (ratio_sine, reflectance, draw) in [(0.3, 0.2, 0.1), (0.3, 0.2, 0.9), (2.0, 0.2, 0.9), (1.0, 1.0, 0.0)] {
        assert_eq!(
            reflects(num(ratio_sine), num(reflectance), num(draw)),
            ratio_sine > 1.0 || reflectance > draw
        );
    }
}
