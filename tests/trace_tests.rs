use cairo_air::field::M31;
use cairo_air::relation::{balance_of, defining_entries, EvalContext, RelationEntry, RelationKind};
use cairo_air::packed::unpack_column;
use cairo_air::trace::{build_read_trace, evaluate_trace, pack_trace, padded_size, ReadRow, N_COLUMNS, N_LIMBS};

fn row(address: u32, id: u32) -> ReadRow {
    ReadRow {
        address: M31::from_u32(address),
        id: M31::from_u32(id),
        limbs: (0..N_LIMBS as u32).map(|l| M31::from_u32(id + l)).collect(),
    }
}

#[test]
fn padded_sizes() {
    assert_eq!(padded_size(0), 16);
    assert_eq!(padded_size(16), 16);
    assert_eq!(padded_size(17), 32);
    assert_eq!(padded_size(100), 128);
    assert_eq!(padded_size(128), 128);
}

#[test]
fn trace_is_padded_with_disabled_rows() {
    let t = build_read_trace(vec![row(1, 10), row(2, 20), row(3, 30)]);
    assert_eq!(t.rows.len(), 16);
    assert_eq!(t.enabled.len(), 16);
    assert!(t.enabled[..3].iter().all(|&e| e));
    assert!(t.enabled[3..].iter().all(|&e| !e));
    assert_eq!(t.rows[1].id, M31::from_u32(20));
    assert_eq!(t.rows[5].address, M31::from_u32(0));
    assert_eq!(t.rows[5].limbs, vec![M31::from_u32(0); N_LIMBS]);
}

#[test]
fn padding_leaves_balance_unchanged() {
    let rows = vec![row(1, 10), row(2, 20), row(0, 0)];
    let t = build_read_trace(rows);
    let mut eval = EvalContext::new();
    evaluate_trace(&t, &mut eval);
    assert_eq!(eval.entries.len(), 32);
    let key = vec![M31::from_u32(2), M31::from_u32(20)];
    assert_eq!(balance_of(&eval.entries, RelationKind::MemoryAddressToId, &key), 1);
    // the one real row equal to the padding row still counts once
    let zero = vec![M31::from_u32(0), M31::from_u32(0)];
    assert_eq!(balance_of(&eval.entries, RelationKind::MemoryAddressToId, &zero), 1);
    assert_eq!(eval.entries[31].multiplicity, 0);
}

#[test]
fn seventeen_rows_pad_to_thirty_two() {
    let rows: Vec<ReadRow> = (0..17).map(|i| row(i, i + 100)).collect();
    let t = build_read_trace(rows);
    assert_eq!(t.rows.len(), 32);
    assert_eq!(t.enabled.iter().filter(|&&e| e).count(), 17);
}

#[test]
fn packed_trace_columns_unpack_to_rows() {
    let t = build_read_trace(vec![row(1, 10), row(2, 20), row(3, 30)]);
    let packed = pack_trace(&t);
    assert_eq!(packed.len(), N_COLUMNS);
    assert_eq!(packed[0].len(), 1);
    let ids = unpack_column(&packed[1]);
    let expected: Vec<M31> = t.rows.iter().map(|r| r.id).collect();
    assert_eq!(ids, expected);
    let limb3 = unpack_column(&packed[5]);
    assert_eq!(limb3[2], M31::from_u32(33));
    assert_eq!(limb3[3], M31::from_u32(0));
}

#[test]
fn enabled_padding_with_dummy_definitions_keeps_balance() {
    let mut t = build_read_trace(vec![row(1, 10), row(2, 20), row(3, 30)]);
    for e in t.enabled.iter_mut() {
        *e = true;
    }
    let mut eval = EvalContext::new();
    evaluate_trace(&t, &mut eval);
    assert_eq!(eval.entries.len(), 32);
    assert_eq!(eval.entries[31].multiplicity, 1);
    let pad_uses: Vec<RelationEntry> = eval.entries[6..]
        .iter()
        .map(|e| RelationEntry { relation: e.relation, multiplicity: e.multiplicity, args: e.args.clone() })
        .collect();
    let zero = vec![M31::from_u32(0), M31::from_u32(0)];
    assert_eq!(balance_of(&eval.entries, RelationKind::MemoryAddressToId, &zero), 13);
    for d in defining_entries(&pad_uses) {
        eval.add_to_relation(d);
    }
    assert_eq!(balance_of(&eval.entries, RelationKind::MemoryAddressToId, &zero), 0);
    let key = vec![M31::from_u32(2), M31::from_u32(20)];
    assert_eq!(balance_of(&eval.entries, RelationKind::MemoryAddressToId, &key), 1);
}
