//! Columns packed in groups of `N_LANES` rows, and their equivalence with the
//! row-by-row representation.
use vstd::prelude::*;

use crate::field::{m31_add, m31_mul, M31};


verus! {

/// Rows held by one packed word.
pub const N_LANES: usize = 16;

/// `N_LANES` consecutive rows of a column, processed as one unit.
pub struct PackedM31 {
    pub lanes: Vec<M31>,
}

impl PackedM31 {
    pub open spec fn wf(self) -> bool {
        &&& self.lanes@.len() == N_LANES
        &&& forall|j: int| 0 <= j < N_LANES ==> (#[trigger] self.lanes@[j]).wf()
    }
}

/// The lanes of each packed word.
pub open spec fn packed_view(p: Seq<PackedM31>) -> Seq<Seq<M31>> {
    p.map_values(|w: PackedM31| w.lanes@)
}

/// Every word holds `N_LANES` canonical elements.
pub open spec fn words_wf(p: Seq<Seq<M31>>) -> bool {
    forall|i: int, j: int|
        0 <= i < p.len() && 0 <= j < N_LANES ==> p[i].len() == N_LANES && (#[trigger] p[i][j]).wf()
}

/// Every element of a scalar column is canonical.
pub open spec fn column_wf(c: Seq<M31>) -> bool {
    forall|k: int| 0 <= k < c.len() ==> (#[trigger] c[k]).wf()
}

/// The scalar column that a packed column stands for: row `k` is lane
/// `k % N_LANES` of word `k / N_LANES`.
pub open spec fn unpacked(p: Seq<Seq<M31>>) -> Seq<M31> {
    Seq::new(
        (p.len() * N_LANES) as nat,
        |k: int| p[k / N_LANES as int][k % N_LANES as int],
    )
}

/// An element-wise operation that a trace builder applies to columns.
#[derive(Clone, Copy, Debug, PartialEq, Eq, Structural)]
pub enum LaneOp {
    Add,
    Mul,
}

/// The operation on two field elements.
pub open spec fn op_spec(op: LaneOp, x: M31, y: M31) -> M31 {
    match op {
        LaneOp::Add => m31_add(x, y),
        LaneOp::Mul => m31_mul(x, y),
    }
}

/// The operation applied row by row to two scalar columns.
pub open spec fn rows_op(op: LaneOp, a: Seq<M31>, b: Seq<M31>) -> Seq<M31> {
    Seq::new(a.len(), |k: int| op_spec(op, a[k], b[k]))
}

/// The operation applied lane by lane to two packed columns.
pub open spec fn lanes_op(op: LaneOp, a: Seq<Seq<M31>>, b: Seq<Seq<M31>>) -> Seq<Seq<M31>> {
    Seq::new(a.len(), |i: int| Seq::new(N_LANES as nat, |j: int| op_spec(op, a[i][j], b[i][j])))
}

impl LaneOp {
    pub fn apply(self, x: M31, y: M31) -> (r: M31)
        requires
            x.wf(),
            y.wf(),
        ensures
            r.wf(),
            r == op_spec(self, x, y),
    {
        match self {
            LaneOp::Add => x.add(y),
            LaneOp::Mul => x.mul(y),
        }
    }
}

proof fn lemma_div_mod_lanes(k: int, n: int)
    requires
        0 <= k < n * (N_LANES as int),
    ensures
        0 <= k / (N_LANES as int) < n,
        0 <= k % (N_LANES as int) < N_LANES as int,
        k == (k / (N_LANES as int)) * (N_LANES as int) + k % (N_LANES as int),
{
}

proof fn lemma_word_lane(i: int, j: int, n: int)
    requires
        0 <= i < n,
        0 <= j < N_LANES as int,
    ensures
        0 <= i * (N_LANES as int) + j < n * (N_LANES as int),
        (i * (N_LANES as int) + j) / (N_LANES as int) == i,
        (i * (N_LANES as int) + j) % (N_LANES as int) == j,
{
}

/// Packing is only a change of layout: unpacking the result of an operation
/// applied lane by lane to two packed columns gives the operation applied row
/// by row to the columns they stand for.
pub proof fn lemma_packing_equivalence(op: LaneOp, a: Seq<Seq<M31>>, b: Seq<Seq<M31>>)
    requires
        words_wf(a),
        words_wf(b),
        a.len() == b.len(),
    ensures
        unpacked(lanes_op(op, a, b)) == rows_op(op, unpacked(a), unpacked(b)),
{
    let n = a.len() as int;
    assert forall|k: int| 0 <= k < n * (N_LANES as int) implies
        #[trigger] unpacked(lanes_op(op, a, b))[k] == rows_op(op, unpacked(a), unpacked(b))[k] by {
        lemma_div_mod_lanes(k, n);
    }
    assert(unpacked(lanes_op(op, a, b)) =~= rows_op(op, unpacked(a), unpacked(b)));
}

/// Packs a scalar column whose length is a multiple of `N_LANES`.
pub fn pack_column(col: &Vec<M31>) -> (r: Vec<PackedM31>)
    requires
        col@.len() % (N_LANES as nat) == 0,
        column_wf(col@),
    ensures
        r@.len() * N_LANES == col@.len(),
        forall|i: int| 0 <= i < r@.len() ==> (#[trigger] r@[i]).wf(),
        unpacked(packed_view(r@)) == col@,
{
    let n: usize = col.len() / N_LANES;
    let mut r: Vec<PackedM31> = Vec::new();
    let mut i: usize = 0;
    while i < n
        invariant
            n * N_LANES == col@.len(),
            column_wf(col@),
            i <= n,
            r@.len() == i,
            forall|w: int| 0 <= w < i ==> (#[trigger] r@[w]).wf(),
            forall|w: int, j: int|
                0 <= w < i && 0 <= j < N_LANES ==> #[trigger] r@[w].lanes@[j] == col@[w
                    * N_LANES + j],
        decreases n - i,
    {
        let mut lanes: Vec<M31> = Vec::new();
        let mut j: usize = 0;
        while j < N_LANES
            invariant
                n * N_LANES == col@.len(),
                column_wf(col@),
                i < n,
                j <= N_LANES,
                lanes@.len() == j,
                forall|l: int| 0 <= l < j ==> #[trigger] lanes@[l] == col@[i * N_LANES + l],
            decreases N_LANES - j,
        {
            proof {
                lemma_word_lane(i as int, j as int, n as int);
                assert(i * N_LANES + j < col@.len());
                assert(col@.len() == col.len());
            }
            lanes.push(col[i * N_LANES + j]);
            j = j + 1;
        }
        proof {
            assert forall|l: int| 0 <= l < N_LANES implies (#[trigger] lanes@[l]).wf() by {
                lemma_word_lane(i as int, l, n as int);
            }
        }
        r.push(PackedM31 { lanes });
        i = i + 1;
    }
    let ghost u = unpacked(packed_view(r@));
    proof {
        assert forall|k: int| 0 <= k < col@.len() implies #[trigger] u[k] == col@[k] by {
            lemma_div_mod_lanes(k, n as int);
        }
        assert(u =~= col@);
    }
    r
}

/// The scalar column that a packed column stands for.
pub fn unpack_column(p: &Vec<PackedM31>) -> (r: Vec<M31>)
    requires
        forall|i: int| 0 <= i < p@.len() ==> (#[trigger] p@[i]).wf(),
        p@.len() * N_LANES <= usize::MAX,
    ensures
        r@ == unpacked(packed_view(p@)),
{
    let mut r: Vec<M31> = Vec::new();
    let mut i: usize = 0;
    while i < p.len()
        invariant
            forall|w: int| 0 <= w < p@.len() ==> (#[trigger] p@[w]).wf(),
            p@.len() * N_LANES <= usize::MAX,
            i <= p@.len(),
            r@.len() == i * N_LANES,
            forall|k: int| 0 <= k < i * N_LANES ==> #[trigger] r@[k] == unpacked(packed_view(p@))[k],
        decreases p@.len() - i,
    {
        let w = &p[i];
        let mut j: usize = 0;
        while j < N_LANES
            invariant
                forall|w: int| 0 <= w < p@.len() ==> (#[trigger] p@[w]).wf(),
                p@.len() * N_LANES <= usize::MAX,
                i < p@.len(),
                *w == p@[i as int],
                j <= N_LANES,
                r@.len() == i * N_LANES + j,
                forall|k: int| 0 <= k < i * N_LANES + j ==> #[trigger] r@[k] == unpacked(packed_view(p@))[k],
            decreases N_LANES - j,
        {
            proof {
                lemma_word_lane(i as int, j as int, p@.len() as int);
            }
            r.push(w.lanes[j]);
            j = j + 1;
        }
        i = i + 1;
    }
    proof {
        assert(r@ =~= unpacked(packed_view(p@)));
    }
    r
}

/// Applies `op` row by row to two scalar columns of equal length.
pub fn apply_rows(op: LaneOp, a: &Vec<M31>, b: &Vec<M31>) -> (r: Vec<M31>)
    requires
        a@.len() == b@.len(),
        column_wf(a@),
        column_wf(b@),
    ensures
        column_wf(r@),
        r@ == rows_op(op, a@, b@),
{
    let mut r: Vec<M31> = Vec::new();
    let mut k: usize = 0;
    while k < a.len()
        invariant
            a@.len() == b@.len(),
            column_wf(a@),
            column_wf(b@),
            k <= a@.len(),
            r@.len() == k,
            forall|l: int| 0 <= l < k ==> #[trigger] r@[l] == op_spec(op, a@[l], b@[l]) && r@[l].wf(),
        decreases a@.len() - k,
    {
        r.push(op.apply(a[k], b[k]));
        k = k + 1;
    }
    proof {
        assert(r@ =~= rows_op(op, a@, b@));
    }
    r
}

impl PackedM31 {
    /// Applies `op` to each lane of two packed words.
    pub fn apply(&self, op: LaneOp, o: &PackedM31) -> (r: PackedM31)
        requires
            self.wf(),
            o.wf(),
        ensures
            r.wf(),
            r.lanes@ == Seq::new(N_LANES as nat, |j: int| op_spec(op, self.lanes@[j], o.lanes@[j])),
    {
        let mut lanes: Vec<M31> = Vec::new();
        let mut j: usize = 0;
        while j < N_LANES
            invariant
                self.wf(),
                o.wf(),
                j <= N_LANES,
                lanes@.len() == j,
                forall|l: int|
                    0 <= l < j ==> #[trigger] lanes@[l] == op_spec(op, self.lanes@[l], o.lanes@[l])
                        && lanes@[l].wf(),
            decreases N_LANES - j,
        {
            lanes.push(op.apply(self.lanes[j], o.lanes[j]));
            j = j + 1;
        }
        proof {
            assert(lanes@ =~= Seq::new(
                N_LANES as nat,
                |j: int| op_spec(op, self.lanes@[j], o.lanes@[j]),
            ));
        }
        PackedM31 { lanes }
    }
}

/// Applies `op` lane by lane to two packed columns of equal length.
pub fn apply_packed(op: LaneOp, a: &Vec<PackedM31>, b: &Vec<PackedM31>) -> (r: Vec<PackedM31>)
    requires
        a@.len() == b@.len(),
        forall|i: int| 0 <= i < a@.len() ==> (#[trigger] a@[i]).wf(),
        forall|i: int| 0 <= i < b@.len() ==> (#[trigger] b@[i]).wf(),
    ensures
        forall|i: int| 0 <= i < r@.len() ==> (#[trigger] r@[i]).wf(),
        packed_view(r@) == lanes_op(op, packed_view(a@), packed_view(b@)),
{
    let mut r: Vec<PackedM31> = Vec::new();
    let mut i: usize = 0;
    while i < a.len()
        invariant
            a@.len() == b@.len(),
            forall|w: int| 0 <= w < a@.len() ==> (#[trigger] a@[w]).wf(),
            forall|w: int| 0 <= w < b@.len() ==> (#[trigger] b@[w]).wf(),
            i <= a@.len(),
            r@.len() == i,
            forall|w: int| 0 <= w < i ==> (#[trigger] r@[w]).wf(),
            forall|w: int|
                0 <= w < i ==> (#[trigger] r@[w]).lanes@ == lanes_op(
                    op,
                    packed_view(a@),
                    packed_view(b@),
                )[w],
        decreases a@.len() - i,
    {
        let w = a[i].apply(op, &b[i]);
        proof {
            assert(w.lanes@ =~= lanes_op(op, packed_view(a@), packed_view(b@))[i as int]);
        }
        r.push(w);
        i = i + 1;
    }
    proof {
        assert(packed_view(r@) =~= lanes_op(op, packed_view(a@), packed_view(b@)));
    }
    r
}

} // verus!
