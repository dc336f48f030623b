use cairo_air::field::M31;
use cairo_air::read_positive::ReadPositiveNumBits99;
use cairo_air::relation::{
    balance_of, check_balance, defining_entries, EvalContext, MemoryAddressToId, MemoryIdToBig,
    RelationEntry, RelationKind,
};
use cairo_air::secure::QM31;

fn m(x: u32) -> M31 {
    M31::from_u32(x)
}

fn read(eval: &mut EvalContext, address: u32, id: u32, limbs: [u32; 11]) {
    let out = ReadPositiveNumBits99::evaluate(
        [m(address)],
        m(id),
        m(limbs[0]),
        m(limbs[1]),
        m(limbs[2]),
        m(limbs[3]),
        m(limbs[4]),
        m(limbs[5]),
        m(limbs[6]),
        m(limbs[7]),
        m(limbs[8]),
        m(limbs[9]),
        m(limbs[10]),
        &MemoryAddressToId::new(QM31::from_u32s(11, 12, 13, 14), QM31::from_u32s(3, 4, 5, 6)),
        &MemoryIdToBig::new(QM31::from_u32s(21, 22, 23, 24), QM31::from_u32s(7, 8, 9, 10)),
        eval,
    );
    assert_eq!(out.len(), 0);
}

#[test]
fn read_positive_emits_two_entries() {
    let mut eval = EvalContext::new();
    let limbs = [1, 2, 3, 4, 5, 6, 7, 8, 9, 10, 11];
    read(&mut eval, 100, 42, limbs);
    assert_eq!(eval.entries.len(), 2);
    let first = &eval.entries[0];
    assert_eq!(first.relation, RelationKind::MemoryAddressToId);
    assert_eq!(first.multiplicity, 1);
    assert_eq!(first.args, vec![m(100), m(42)]);
    let second = &eval.entries[1];
    assert_eq!(second.relation, RelationKind::MemoryIdToBig);
    assert_eq!(second.multiplicity, 1);
    let mut expected = vec![m(42)];
    expected.extend(limbs.iter().map(|&l| m(l)));
    assert_eq!(second.args, expected);
}

#[test]
fn uses_alone_do_not_balance() {
    let mut eval = EvalContext::new();
    read(&mut eval, 100, 42, [0; 11]);
    assert!(!check_balance(&eval.entries));
    assert_eq!(balance_of(&eval.entries, RelationKind::MemoryAddressToId, &vec![m(100), m(42)]), 1);
    assert_eq!(balance_of(&eval.entries, RelationKind::MemoryAddressToId, &vec![m(100), m(43)]), 0);
}

#[test]
fn uses_with_definitions_balance() {
    let mut eval = EvalContext::new();
    read(&mut eval, 100, 42, [3; 11]);
    read(&mut eval, 100, 42, [3; 11]);
    read(&mut eval, 7, 8, [9; 11]);
    let defs = defining_entries(&eval.entries);
    assert_eq!(defs[0].multiplicity, -1);
    assert_eq!(defs[0].args, eval.entries[0].args);
    let mut all: Vec<RelationEntry> = Vec::new();
    for e in eval.entries.iter().chain(defs.iter()) {
        all.push(RelationEntry { relation: e.relation, multiplicity: e.multiplicity, args: e.args.clone() });
    }
    assert!(check_balance(&all));
    assert_eq!(balance_of(&eval.entries, RelationKind::MemoryAddressToId, &vec![m(100), m(42)]), 2);
}

#[test]
fn empty_accumulator_is_balanced() {
    let eval = EvalContext::new();
    assert!(eval.entries.is_empty());
    assert!(check_balance(&eval.entries));
}

#[test]
fn relation_arities() {
    assert_eq!(RelationKind::MemoryAddressToId.n_args(), 2);
    assert_eq!(RelationKind::MemoryIdToBig.n_args(), 12);
}
