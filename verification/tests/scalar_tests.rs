use raytracer::scalar::{Scalar, INFINITY_BITS, ONE_BITS, PI_BITS, SIGN_BIT};
use raytracer::vector::Vec3;

fn scalar(x: f32) -> Scalar {
    Scalar::from_bits(x.to_bits())
}

fn samples() -> Vec<f32> {
    let mut values = vec![
        0.0,
        -0.0,
        f32::MIN_POSITIVE,
        -f32::MIN_POSITIVE,
        f32::from_bits(1),
        f32::from_bits(0x8000_0001),
        f32::from_bits(0x007F_FFFF),
        f32::from_bits(0x807F_FFFF),
        1.0,
        -1.0,
        1.0 + f32::EPSILON,
        0.5,
        -0.5,
        2.5,
        -2.5,
        3.0,
        std::f32::consts::PI,
        f32::from_bits(PI_BITS - 1),
        f32::from_bits(PI_BITS + 1),
        1.0e-30,
        -1.0e-30,
        1.0e30,
        -1.0e30,
        f32::MAX,
        f32::MIN,
        f32::INFINITY,
        f32::NEG_INFINITY,
        f32::NAN,
        -f32::NAN,
        f32::from_bits(0x7F80_0001),
        f32::from_bits(0xFFFF_FFFF),
    ];
    // A spread of patterns over the whole range.
    let mut bits: u32 = 0x1234_5678;
    for _ in 0..400 {
        bits = bits.wrapping_mul(1_664_525).wrapping_add(1_013_904_223);
        values.push(f32::from_bits(bits));
    }
    values
}

#[test]
fn ordering_agrees_with_binary32() {
    let values = samples();
    for &a in &values {
        for &b in &values {
            let (x, y) = (scalar(a), scalar(b));
            assert_eq!(x.lt(y), a < b, "{a:?} < {b:?}");
            assert_eq!(x.le(y), a <= b, "{a:?} <= {b:?}");
            assert_eq!(x.same_value(y), a == b, "{a:?} == {b:?}");
        }
    }
}

#[test]
fn classification_agrees_with_binary32() {
    for a in samples() {
        assert_eq!(scalar(a).is_nan(), a.is_nan(), "{a:?}");
        assert_eq!(scalar(a).is_finite(), a.is_finite(), "{a:?}");
    }
}

#[test]
fn bits_round_trip() {
    for a in samples() {
        assert_eq!(scalar(a).to_bits(), a.to_bits());
        assert_eq!(Scalar::from_bits(a.to_bits()).bits, a.to_bits());
    }
}

#[test]
fn named_constants() {
    assert_eq!(Scalar::zero().to_bits(), 0.0f32.to_bits());
    assert_eq!(Scalar::pi().to_bits(), std::f32::consts::PI.to_bits());
    assert_eq!(PI_BITS, std::f32::consts::PI.to_bits());
    assert_eq!(INFINITY_BITS, f32::INFINITY.to_bits());
    assert_eq!(SIGN_BIT, (-0.0f32).to_bits());
    assert_eq!(Scalar::default(), Scalar::zero());
    assert_eq!(Scalar::one().to_bits(), 1.0f32.to_bits());
    assert_eq!(ONE_BITS, 1.0f32.to_bits());
}

#[test]
fn clamp_agrees_with_binary32() {
    let bounds = [(0.0f32, 1.0f32), (-2.5, 3.0), (-0.0, 0.0), (1.0, 1.0), (f32::NEG_INFINITY, f32::INFINITY)];
    for a in samples() {
        for (lo, hi) in bounds {
            let held = scalar(a).clamp(scalar(lo), scalar(hi));
            assert_eq!(held.to_bits(), a.clamp(lo, hi).to_bits(), "{a:?} in {lo:?}..{hi:?}");
        }
    }
    assert_eq!(scalar(7.5).clamp(Scalar::zero(), Scalar::one()), Scalar::one());
    assert_eq!(scalar(-7.5).clamp(Scalar::zero(), Scalar::one()), Scalar::zero());
    assert_eq!(scalar(0.25).clamp(Scalar::zero(), Scalar::one()), scalar(0.25));
}

#[test]
fn zeros_are_equal_and_nan_is_unordered() {
    let (pz, nz, nan) = (scalar(0.0), scalar(-0.0), scalar(f32::NAN));
    assert!(!pz.lt(nz) && !nz.lt(pz));
    assert!(pz.le(nz) && nz.le(pz));
    assert!(pz.same_value(nz));
    assert_ne!(pz, nz);
    assert!(!nan.lt(pz) && !pz.lt(nan) && !nan.le(nan) && !nan.same_value(nan));
    assert_eq!(nan, nan);
}

#[test]
fn order_matches_exact_values() {
    // The value of a finite pattern in units of 2^-149, as its fields give it;
    // patterns with a biased exponent up to 100 fit in 128 bits.
    fn scaled(x: f32) -> i128 {
        let bits = x.to_bits();
        let magnitude = bits & 0x7FFF_FFFF;
        let (exponent, fraction) = (magnitude >> 23, (magnitude & 0x7F_FFFF) as i128);
        assert!(exponent <= 100);
        let m = if exponent == 0 { fraction } else { (0x80_0000 + fraction) << (exponent - 1) };
        if bits >> 31 == 1 { -m } else { m }
    }
    let mut small = vec![0.0f32, -0.0, f32::MIN_POSITIVE, -f32::MIN_POSITIVE];
    let mut bits: u32 = 0x0BAD_CAFE;
    for _ in 0..300 {
        bits = bits.wrapping_mul(1_664_525).wrapping_add(1_013_904_223);
        let exponent = (bits >> 23) % 101;
        small.push(f32::from_bits((bits & 0x807F_FFFF) | (exponent << 23)));
    }
    for &a in &small {
        for &b in &small {
            assert_eq!(scalar(a).lt(scalar(b)), scaled(a) < scaled(b), "{a:?} {b:?}");
            assert_eq!(scalar(a).le(scalar(b)), scaled(a) <= scaled(b), "{a:?} {b:?}");
            assert_eq!(scalar(a).same_value(scalar(b)), scaled(a) == scaled(b), "{a:?} {b:?}");
        }
    }
    assert_eq!(scaled(f32::from_bits(1)), 1);
    assert_eq!(scaled(f32::MIN_POSITIVE), 1 << 23);
    assert_eq!(scaled(-2.0 * f32::MIN_POSITIVE), -(1 << 24));
}

#[test]
fn vectors_carry_their_components() {
    let v = Vec3::new(scalar(1.5), scalar(-2.0), scalar(0.25));
    assert_eq!((v.x, v.y, v.z), (scalar(1.5), scalar(-2.0), scalar(0.25)));
    assert_eq!(Vec3::from_bits(1.5f32.to_bits(), (-2.0f32).to_bits(), 0.25f32.to_bits()), v);
    assert_eq!(Vec3::zero(), Vec3::from_bits(0, 0, 0));
    assert_eq!(Vec3::default(), Vec3::zero());
}
