use cairo_air::field::{M31, P};

#[test]
fn add_wraps_at_modulus() {
    let a = M31::from_u32(P - 1);
    assert_eq!(a.add(M31::one()), M31::zero());
    assert_eq!(M31::from_u32(3).add(M31::from_u32(4)).v, 7);
}

#[test]
fn sub_wraps_below_zero() {
    assert_eq!(M31::zero().sub(M31::one()).v, P - 1);
    assert_eq!(M31::from_u32(10).sub(M31::from_u32(4)).v, 6);
}

#[test]
fn mul_reduces_modulo() {
    // 2^30 * 4 = 2^32 = 2 (mod 2^31 - 1)
    assert_eq!(M31::from_u32(1 << 30).mul(M31::from_u32(4)).v, 2);
    assert_eq!(M31::from_u32(P - 1).mul(M31::from_u32(P - 1)).v, 1);
}

#[test]
fn from_u32_reduces() {
    assert_eq!(M31::from_u32(P).v, 0);
    assert_eq!(M31::from_u32(u32::MAX).v, 1);
}
