use cairo_air::field::{M31, P};
use cairo_air::packed::{apply_packed, apply_rows, pack_column, unpack_column, LaneOp, N_LANES};

fn column(n: u32, seed: u32) -> Vec<M31> {
    (0..n).map(|i| M31::from_u32(i.wrapping_mul(2654435761).wrapping_add(seed) % P)).collect()
}

#[test]
fn pack_then_unpack_is_identity() {
    let c = column(48, 7);
    let p = pack_column(&c);
    assert_eq!(p.len(), 3);
    assert_eq!(p[1].lanes[0], c[N_LANES]);
    assert_eq!(p[2].lanes[15], c[47]);
    assert_eq!(unpack_column(&p), c);
}

#[test]
fn packed_ops_match_row_by_row() {
    let a = column(32, 1);
    let b = column(32, 99);
    for op in [LaneOp::Add, LaneOp::Mul] {
        let packed = apply_packed(op, &pack_column(&a), &pack_column(&b));
        assert_eq!(unpack_column(&packed), apply_rows(op, &a, &b));
    }
}

#[test]
fn row_ops_exact_values() {
    let a = vec![M31::from_u32(P - 1), M31::from_u32(6)];
    let b = vec![M31::from_u32(2), M31::from_u32(7)];
    let sum = apply_rows(LaneOp::Add, &a, &b);
    assert_eq!(sum, vec![M31::from_u32(1), M31::from_u32(13)]);
    let prod = apply_rows(LaneOp::Mul, &a, &b);
    assert_eq!(prod, vec![M31::from_u32(P - 2), M31::from_u32(42)]);
}

#[test]
fn empty_column_packs_to_nothing() {
    let p = pack_column(&Vec::new());
    assert!(p.is_empty());
    assert!(unpack_column(&p).is_empty());
}
