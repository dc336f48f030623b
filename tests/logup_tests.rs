use cairo_air::field::{M31, P};
use cairo_air::logup::{logup_sum, m31_from_i32, Fraction, Relations};
use cairo_air::lookup::LookupError;
use cairo_air::relation::{
    defining_entries, EvalContext, MemoryAddressToId, MemoryIdToBig, RelationEntry, RelationKind,
};
use cairo_air::secure::QM31;

fn relations(z: QM31) -> Relations {
    Relations {
        memory_address_to_id: MemoryAddressToId::new(z, QM31::from_u32s(3, 0, 0, 0)),
        memory_id_to_big: MemoryIdToBig::new(QM31::from_u32s(5, 1, 2, 3), QM31::from_u32s(7, 0, 1, 0)),
    }
}

fn entry(mult: i32, a: u32, b: u32) -> RelationEntry {
    RelationEntry {
        relation: RelationKind::MemoryAddressToId,
        multiplicity: mult,
        args: vec![M31::from_u32(a), M31::from_u32(b)],
    }
}

#[test]
fn signed_multiplicities_in_the_field() {
    assert_eq!(m31_from_i32(0), M31::from_u32(0));
    assert_eq!(m31_from_i32(5), M31::from_u32(5));
    assert_eq!(m31_from_i32(-1), M31::from_u32(P - 1));
    assert_eq!(m31_from_i32(i32::MIN), M31::from_u32(P - 1));
    assert_eq!(m31_from_i32(i32::MAX), M31::from_u32(0));
}

#[test]
fn empty_sum_is_zero_over_one() {
    let eval = EvalContext::new();
    let f = logup_sum(&relations(QM31::from_u32s(1, 0, 0, 0)), &eval).unwrap();
    assert_eq!(f, Fraction { numerator: QM31::from_u32s(0, 0, 0, 0), denominator: QM31::from_u32s(1, 0, 0, 0) });
}

#[test]
fn single_term_exact() {
    let mut eval = EvalContext::new();
    eval.add_to_relation(entry(2, 5, 7));
    let f = logup_sum(&relations(QM31::from_u32s(1, 0, 0, 0)), &eval).unwrap();
    // 0/1 + 2/(5 + 3 * 7 - 1)
    assert_eq!(f.numerator, QM31::from_u32s(2, 0, 0, 0));
    assert_eq!(f.denominator, QM31::from_u32s(25, 0, 0, 0));
}

#[test]
fn uses_and_definitions_cancel() {
    let mut eval = EvalContext::new();
    eval.add_to_relation(entry(1, 5, 7));
    eval.add_to_relation(entry(1, 9, 4));
    let defs = defining_entries(&eval.entries);
    for d in defs {
        eval.add_to_relation(d);
    }
    let f = logup_sum(&relations(QM31::from_u32s(1, 2, 3, 4)), &eval).unwrap();
    assert!(f.numerator.is_zero());
    assert!(!f.denominator.is_zero());
}

#[test]
fn zero_combination_is_fatal() {
    let mut eval = EvalContext::new();
    eval.add_to_relation(entry(1, 9, 4));
    eval.add_to_relation(entry(1, 5, 7));
    // 5 + 3 * 7 = 26
    let r = logup_sum(&relations(QM31::from_u32s(26, 0, 0, 0)), &eval);
    assert_eq!(r, Err(LookupError::ZeroDenominator));
}
