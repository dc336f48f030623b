use cairo_air::field::{M31, P};
use cairo_air::lookup::{LookupElements, LookupError};
use cairo_air::relation::{MemoryAddressToId, MemoryIdToBig};
use cairo_air::secure::QM31;

#[test]
fn u_squared_is_two_plus_i() {
    let u = QM31::from_u32s(0, 0, 1, 0);
    assert_eq!(u.mul(u), QM31::from_u32s(2, 1, 0, 0));
}

#[test]
fn i_squared_is_minus_one() {
    let i = QM31::from_u32s(0, 1, 0, 0);
    assert_eq!(i.mul(i), QM31::from_u32s(P - 1, 0, 0, 0));
}

#[test]
fn secure_add_sub() {
    let x = QM31::from_u32s(1, 2, 3, 4);
    let y = QM31::from_u32s(P - 1, 5, 6, 7);
    assert_eq!(x.add(y), QM31::from_u32s(0, 7, 9, 11));
    assert_eq!(x.sub(y).add(y), x);
    assert!(x.sub(x).is_zero());
    assert!(!x.is_zero());
}

#[test]
fn lookup_powers_and_combine() {
    let alpha = QM31::from_u32s(3, 0, 0, 0);
    let z = QM31::from_u32s(1, 0, 0, 0);
    let el = LookupElements::new(z, alpha, 3);
    assert_eq!(el.alpha_powers, vec![
        QM31::from_u32s(1, 0, 0, 0),
        QM31::from_u32s(3, 0, 0, 0),
        QM31::from_u32s(9, 0, 0, 0),
    ]);
    let args = vec![M31::from_u32(5), M31::from_u32(7)];
    // 5 + 3 * 7 - 1
    assert_eq!(el.combine(&args), QM31::from_u32s(25, 0, 0, 0));
    assert_eq!(el.denominator(&args), Ok(QM31::from_u32s(25, 0, 0, 0)));
}

#[test]
fn zero_denominator_is_an_error() {
    let el = LookupElements::new(QM31::from_u32s(26, 0, 0, 0), QM31::from_u32s(3, 0, 0, 0), 2);
    let args = vec![M31::from_u32(5), M31::from_u32(7)];
    assert_eq!(el.denominator(&args), Err(LookupError::ZeroDenominator));
}

#[test]
fn relation_handles_have_their_arity() {
    let a = MemoryAddressToId::new(QM31::from_u32s(1, 2, 3, 4), QM31::from_u32s(5, 6, 7, 8));
    assert_eq!(a.lookup_elements.alpha_powers.len(), 2);
    let b = MemoryIdToBig::new(QM31::from_u32s(1, 2, 3, 4), QM31::from_u32s(5, 6, 7, 8));
    assert_eq!(b.lookup_elements.alpha_powers.len(), 12);
}
