//! The trace of the read sub-routine: one row per read, padded to a power of
//! two with disabled rows whose entries carry multiplicity zero.
use vstd::prelude::*;

use crate::field::M31;
use crate::packed::{pack_column, packed_view, unpacked, PackedM31, N_LANES};
use crate::read_positive::read_entries_with;
use crate::relation::{balance, is_balanced, lemma_balance_append, lemma_balance_negated, negated, EntryView, EvalContext, RelationEntry, RelationKind};

verus! {

/// Number of limbs of a value of at most 99 bits.
pub const N_LIMBS: usize = 11;

/// One read: the address, the id found there, and the value's limbs.
pub struct ReadRow {
    pub address: M31,
    pub id: M31,
    pub limbs: Vec<M31>,
}

/// The mathematical content of a row.
pub struct RowView {
    pub address: M31,
    pub id: M31,
    pub limbs: Seq<M31>,
}

impl View for ReadRow {
    type V = RowView;

    open spec fn view(&self) -> RowView {
        RowView { address: self.address, id: self.id, limbs: self.limbs@ }
    }
}

impl RowView {
    pub open spec fn wf(self) -> bool {
        self.limbs.len() == N_LIMBS
    }
}

/// A padded trace: `enabled[i]` says whether row `i` is a real read.
pub struct ReadTrace {
    pub rows: Vec<ReadRow>,
    pub enabled: Vec<bool>,
}

/// The row views of a sequence of rows.
pub open spec fn rows_view(rows: Seq<ReadRow>) -> Seq<RowView> {
    rows.map_values(|r: ReadRow| r@)
}

/// `x` is `2^k` for some `k`.
pub open spec fn is_power_of_two(x: nat) -> bool
    decreases x,
{
    if x == 1 {
        true
    } else if x == 0 || x % 2 == 1 {
        false
    } else {
        is_power_of_two(x / 2)
    }
}

/// The entries that a trace emits: each row's two entries, with
/// multiplicity one on enabled rows and zero on the others.
pub open spec fn trace_entries(rows: Seq<RowView>, enabled: Seq<bool>) -> Seq<EntryView>
    decreases rows.len(),
{
    if rows.len() == 0 || enabled.len() != rows.len() {
        Seq::empty()
    } else {
        let r = rows.last();
        trace_entries(rows.drop_last(), enabled.drop_last()) + read_entries_with(
            if enabled.last() { 1 } else { 0 },
            r.address,
            r.id,
            r.limbs,
        )
    }
}

/// The smallest power of two that is at least `n` and at least `N_LANES`.
pub fn padded_size(n: usize) -> (r: usize)
    requires
        n <= usize::MAX / 2,
    ensures
        is_power_of_two(r as nat),
        r >= n,
        r >= N_LANES,
        r == N_LANES || r / 2 < n,
{
    let mut p: usize = N_LANES;
    assert(is_power_of_two(16)) by {
        reveal_with_fuel(is_power_of_two, 6);
    }
    while p < n
        invariant
            is_power_of_two(p as nat),
            p >= N_LANES,
            p == N_LANES || p / 2 < n,
            n <= usize::MAX / 2,
        decreases usize::MAX - p,
    {
        assert((2 * p) as nat / 2 == p as nat);
        p = 2 * p;
    }
    p
}

/// The fixed row that fills a trace up to its size: all zeros.
pub fn padding_row() -> (r: ReadRow)
    ensures
        r@.wf(),
        r@ == padding_view(),
{
    let mut limbs: Vec<M31> = Vec::new();
    let mut j: usize = 0;
    while j < N_LIMBS
        invariant
            j <= N_LIMBS,
            limbs@.len() == j,
            forall|l: int| 0 <= l < j ==> #[trigger] limbs@[l] == (M31 { v: 0 }),
        decreases N_LIMBS - j,
    {
        limbs.push(M31::zero());
        j = j + 1;
    }
    let r = ReadRow { address: M31::zero(), id: M31::zero(), limbs };
    proof {
        assert(r@.limbs =~= padding_view().limbs);
    }
    r
}

/// The view of the padding row.
pub open spec fn padding_view() -> RowView {
    RowView {
        address: M31 { v: 0 },
        id: M31 { v: 0 },
        limbs: Seq::new(N_LIMBS as nat, |l: int| M31 { v: 0 }),
    }
}

/// `n` enabled flags followed by `k` disabled ones.
pub open spec fn enabled_flags(n: nat, k: nat) -> Seq<bool> {
    Seq::new(n, |i: int| true) + Seq::new(k, |i: int| false)
}

/// `k` copies of the padding row `pad`.
pub open spec fn padding_rows(k: nat, pad: RowView) -> Seq<RowView> {
    Seq::new(k, |i: int| pad)
}

/// Pads `rows` with the fixed padding row up to `padded_size(rows.len())`
/// rows; only the original rows are enabled.
pub fn build_read_trace(rows: Vec<ReadRow>) -> (t: ReadTrace)
    requires
        rows@.len() <= usize::MAX / 2,
        forall|i: int| 0 <= i < rows@.len() ==> (#[trigger] rows@[i])@.wf(),
    ensures
        is_power_of_two(t.rows@.len()),
        t.rows@.len() >= rows@.len(),
        t.rows@.len() >= N_LANES,
        t.rows@.len() == N_LANES || t.rows@.len() / 2 < rows@.len(),
        forall|i: int| 0 <= i < t.rows@.len() ==> (#[trigger] t.rows@[i])@.wf(),
        rows_view(t.rows@) == rows_view(rows@) + padding_rows(
            (t.rows@.len() - rows@.len()) as nat,
            padding_view(),
        ),
        t.enabled@ == enabled_flags(rows@.len(), (t.rows@.len() - rows@.len()) as nat),
{
    let n: usize = rows.len();
    let size: usize = padded_size(n);
    let ghost original = rows_view(rows@);
    assert(forall|l: int| 0 <= l < n ==> (#[trigger] rows@[l])@ == original[l]);
    let mut out = rows;
    let mut enabled: Vec<bool> = Vec::new();
    let mut i: usize = 0;
    while i < n
        invariant
            i <= n,
            enabled@.len() == i,
            forall|l: int| 0 <= l < i ==> #[trigger] enabled@[l] == true,
        decreases n - i,
    {
        enabled.push(true);
        i = i + 1;
    }
    while out.len() < size
        invariant
            n <= out@.len() <= size,
            enabled@.len() == out@.len(),
            forall|l: int| 0 <= l < out@.len() ==> (#[trigger] out@[l])@.wf(),
            forall|l: int| 0 <= l < n ==> (#[trigger] out@[l])@ == original[l],
            forall|l: int| n <= l < out@.len() ==> (#[trigger] out@[l])@ == padding_view(),
            forall|l: int| 0 <= l < n ==> #[trigger] enabled@[l] == true,
            forall|l: int| n <= l < out@.len() ==> #[trigger] enabled@[l] == false,
            original.len() == n,
        decreases size - out@.len(),
    {
        out.push(padding_row());
        enabled.push(false);
    }
    let t = ReadTrace { rows: out, enabled };
    proof {
        let k = (size - n) as nat;
        assert(rows_view(t.rows@) =~= original + padding_rows(k, padding_view()));
        assert(t.enabled@ =~= enabled_flags(n as nat, k));
    }
    t
}

/// Adds the two entries of one row with multiplicity `m` to `eval`.
pub fn emit_read(row: &ReadRow, m: i32, eval: &mut EvalContext)
    requires
        row@.wf(),
        old(eval).wf(),
    ensures
        final(eval).wf(),
        final(eval).view_entries() == old(eval).view_entries() + read_entries_with(
            m as int,
            row.address,
            row.id,
            row.limbs@,
        ),
{
    let ghost before = eval.view_entries();
    let mut address_args: Vec<M31> = Vec::new();
    address_args.push(row.address);
    address_args.push(row.id);
    let ghost address_view = address_args@;
    eval.add_to_relation(
        RelationEntry { relation: RelationKind::MemoryAddressToId, multiplicity: m, args: address_args },
    );
    let mut big_args: Vec<M31> = Vec::new();
    big_args.push(row.id);
    let mut j: usize = 0;
    while j < N_LIMBS
        invariant
            row@.wf(),
            j <= N_LIMBS,
            big_args@ == seq![row.id] + row.limbs@.take(j as int),
        decreases N_LIMBS - j,
    {
        proof {
            assert(row.limbs@.take(j + 1) =~= row.limbs@.take(j as int).push(row.limbs@[j as int]));
        }
        big_args.push(row.limbs[j]);
        j = j + 1;
    }
    let ghost big_view = big_args@;
    proof {
        assert(row.limbs@.take(N_LIMBS as int) =~= row.limbs@);
    }
    eval.add_to_relation(
        RelationEntry { relation: RelationKind::MemoryIdToBig, multiplicity: m, args: big_args },
    );
    proof {
        let expected = read_entries_with(m as int, row.address, row.id, row.limbs@);
        assert(address_view =~= expected[0].args);
        assert(big_view =~= expected[1].args);
        assert(eval.view_entries()[before.len() as int] == expected[0]);
        assert(eval.view_entries()[before.len() as int + 1] == expected[1]);
        assert(eval.view_entries() =~= before + expected);
    }
}

/// Adds the entries of every row of a trace to `eval`, in row order.
pub fn evaluate_trace(trace: &ReadTrace, eval: &mut EvalContext)
    requires
        trace.rows@.len() == trace.enabled@.len(),
        forall|i: int| 0 <= i < trace.rows@.len() ==> (#[trigger] trace.rows@[i])@.wf(),
        old(eval).wf(),
    ensures
        final(eval).wf(),
        final(eval).view_entries() == old(eval).view_entries() + trace_entries(
            rows_view(trace.rows@),
            trace.enabled@,
        ),
{
    let ghost before = eval.view_entries();
    let ghost all = rows_view(trace.rows@);
    let mut i: usize = 0;
    proof {
        assert(all.take(0) =~= Seq::<RowView>::empty());
        assert(before + trace_entries(all.take(0), trace.enabled@.take(0)) =~= before);
    }
    while i < trace.rows.len()
        invariant
            trace.rows@.len() == trace.enabled@.len(),
            forall|l: int| 0 <= l < trace.rows@.len() ==> (#[trigger] trace.rows@[l])@.wf(),
            all == rows_view(trace.rows@),
            i <= trace.rows@.len(),
            eval.wf(),
            eval.view_entries() == before + trace_entries(all.take(i as int), trace.enabled@.take(i as int)),
        decreases trace.rows@.len() - i,
    {
        let m: i32 = if trace.enabled[i] { 1 } else { 0 };
        emit_read(&trace.rows[i], m, eval);
        proof {
            let a = all.take(i + 1);
            let e = trace.enabled@.take(i + 1);
            assert(a.drop_last() =~= all.take(i as int));
            assert(e.drop_last() =~= trace.enabled@.take(i as int));
            assert(a.last() == trace.rows@[i as int]@);
            assert(before + trace_entries(a, e) =~= before + trace_entries(all.take(i as int), trace.enabled@.take(i as int)) + read_entries_with(m as int, trace.rows@[i as int].address, trace.rows@[i as int].id, trace.rows@[i as int].limbs@));
        }
        i = i + 1;
    }
    proof {
        assert(all.take(i as int) =~= all);
        assert(trace.enabled@.take(i as int) =~= trace.enabled@);
    }
}

proof fn lemma_trace_entries_append(a: Seq<RowView>, ea: Seq<bool>, b: Seq<RowView>, eb: Seq<bool>)
    requires
        a.len() == ea.len(),
        b.len() == eb.len(),
    ensures
        trace_entries(a + b, ea + eb) == trace_entries(a, ea) + trace_entries(b, eb),
    decreases b.len(),
{
    if b.len() == 0 {
        assert(a + b =~= a);
        assert(ea + eb =~= ea);
        assert(trace_entries(a, ea) + trace_entries(b, eb) =~= trace_entries(a, ea));
    } else {
        lemma_trace_entries_append(a, ea, b.drop_last(), eb.drop_last());
        assert((a + b).drop_last() =~= a + b.drop_last());
        assert((ea + eb).drop_last() =~= ea + eb.drop_last());
        let r = b.last();
        let tail = read_entries_with(if eb.last() { 1 } else { 0 }, r.address, r.id, r.limbs);
        assert(trace_entries(a, ea) + trace_entries(b.drop_last(), eb.drop_last()) + tail
            =~= trace_entries(a, ea) + (trace_entries(b.drop_last(), eb.drop_last()) + tail));
    }
}

proof fn lemma_disabled_rows_balance(b: Seq<RowView>, eb: Seq<bool>, rel: RelationKind, args: Seq<M31>)
    requires
        b.len() == eb.len(),
        forall|i: int| 0 <= i < eb.len() ==> !(#[trigger] eb[i]),
    ensures
        balance(trace_entries(b, eb), rel, args) == 0,
    decreases b.len(),
{
    if b.len() > 0 {
        let r = b.last();
        let tail = read_entries_with(0, r.address, r.id, r.limbs);
        assert(!eb.last());
        lemma_disabled_rows_balance(b.drop_last(), eb.drop_last(), rel, args);
        lemma_balance_append(trace_entries(b.drop_last(), eb.drop_last()), tail, rel, args);
        assert(tail.drop_last().drop_last() =~= Seq::<EntryView>::empty());
        assert(balance(Seq::<EntryView>::empty(), rel, args) == 0);
        assert(tail.drop_last().last().multiplicity == 0);
        assert(tail.last().multiplicity == 0);
        assert(balance(tail.drop_last(), rel, args) == 0);
        assert(balance(tail, rel, args) == 0);
    }
}

/// Padding neutrality: padding the trace of `rows` with `k` disabled rows
/// (of any content) leaves the balance of every relation and every argument
/// tuple as it was.
pub proof fn lemma_padding_neutral(rows: Seq<RowView>, k: nat, pad: RowView, rel: RelationKind, args: Seq<M31>)
    ensures
        balance(trace_entries(rows + padding_rows(k, pad), enabled_flags(rows.len(), k)), rel, args)
            == balance(trace_entries(rows, Seq::new(rows.len(), |i: int| true)), rel, args),
{
    let ea = Seq::new(rows.len(), |i: int| true);
    let eb = Seq::new(k, |i: int| false);
    lemma_trace_entries_append(rows, ea, padding_rows(k, pad), eb);
    lemma_balance_append(trace_entries(rows, ea), trace_entries(padding_rows(k, pad), eb), rel, args);
    lemma_disabled_rows_balance(padding_rows(k, pad), eb, rel, args);
}

/// Number of columns of the read trace: address, id and the limbs.
pub const N_COLUMNS: usize = 13;

/// Column `c` of a trace: the address (`c == 0`), the id (`c == 1`) or limb
/// `c - 2`, row by row.
pub open spec fn column_of(rows: Seq<RowView>, c: int) -> Seq<M31> {
    Seq::new(
        rows.len(),
        |i: int|
            if c == 0 {
                rows[i].address
            } else if c == 1 {
                rows[i].id
            } else {
                rows[i].limbs[c - 2]
            },
    )
}

proof fn lemma_power_of_two_lanes(x: nat)
    requires
        is_power_of_two(x),
        x >= N_LANES,
    ensures
        x % (N_LANES as nat) == 0,
    decreases x,
{
    if x != N_LANES as nat {
        assert(x % 2 == 0 && is_power_of_two(x / 2));
        if x / 2 >= N_LANES as nat {
            lemma_power_of_two_lanes(x / 2);
        } else {
            let y = x / 2;
            assert(9 <= y < 16);
            reveal_with_fuel(is_power_of_two, 4);
            assert(!is_power_of_two(y));
        }
    }
}

/// Column `c` of the trace's rows.
fn trace_column(rows: &Vec<ReadRow>, c: usize) -> (r: Vec<M31>)
    requires
        c < N_COLUMNS,
        forall|i: int| 0 <= i < rows@.len() ==> (#[trigger] rows@[i])@.wf(),
    ensures
        r@ == column_of(rows_view(rows@), c as int),
{
    let mut r: Vec<M31> = Vec::new();
    let mut i: usize = 0;
    while i < rows.len()
        invariant
            c < N_COLUMNS,
            forall|l: int| 0 <= l < rows@.len() ==> (#[trigger] rows@[l])@.wf(),
            i <= rows@.len(),
            r@.len() == i,
            forall|l: int| 0 <= l < i ==> #[trigger] r@[l] == column_of(rows_view(rows@), c as int)[l],
        decreases rows@.len() - i,
    {
        let row = &rows[i];
        let x = if c == 0 {
            row.address
        } else if c == 1 {
            row.id
        } else {
            row.limbs[c - 2]
        };
        r.push(x);
        i = i + 1;
    }
    proof {
        assert(r@ =~= column_of(rows_view(rows@), c as int));
    }
    r
}

/// The trace's columns in packed form, one packed column per trace column.
pub fn pack_trace(t: &ReadTrace) -> (r: Vec<Vec<PackedM31>>)
    requires
        is_power_of_two(t.rows@.len()),
        t.rows@.len() >= N_LANES,
        forall|i: int| 0 <= i < t.rows@.len() ==> (#[trigger] t.rows@[i])@.wf(),
        forall|i: int, l: int|
            0 <= i < t.rows@.len() && 0 <= l < N_LIMBS ==> (#[trigger] t.rows@[i].limbs@[l]).wf(),
        forall|i: int| 0 <= i < t.rows@.len() ==> (#[trigger] t.rows@[i]).address.wf() && t.rows@[i].id.wf(),
    ensures
        r@.len() == N_COLUMNS,
        forall|c: int| 0 <= c < N_COLUMNS ==> unpacked(packed_view((#[trigger] r@[c])@)) == column_of(rows_view(t.rows@), c),
        forall|c: int, w: int| 0 <= c < N_COLUMNS && 0 <= w < r@[c]@.len() ==> (#[trigger] r@[c]@[w]).wf(),
{
    proof {
        lemma_power_of_two_lanes(t.rows@.len());
    }
    let mut r: Vec<Vec<PackedM31>> = Vec::new();
    let mut c: usize = 0;
    while c < N_COLUMNS
        invariant
            t.rows@.len() % (N_LANES as nat) == 0,
            forall|i: int| 0 <= i < t.rows@.len() ==> (#[trigger] t.rows@[i])@.wf(),
            forall|i: int, l: int|
                0 <= i < t.rows@.len() && 0 <= l < N_LIMBS ==> (#[trigger] t.rows@[i].limbs@[l]).wf(),
            forall|i: int| 0 <= i < t.rows@.len() ==> (#[trigger] t.rows@[i]).address.wf() && t.rows@[i].id.wf(),
            c <= N_COLUMNS,
            r@.len() == c,
            forall|k: int| 0 <= k < c ==> unpacked(packed_view((#[trigger] r@[k])@)) == column_of(rows_view(t.rows@), k),
            forall|k: int, w: int| 0 <= k < c && 0 <= w < r@[k]@.len() ==> (#[trigger] r@[k]@[w]).wf(),
        decreases N_COLUMNS - c,
    {
        let col = trace_column(&t.rows, c);
        proof {
            assert forall|i: int| 0 <= i < col@.len() implies (#[trigger] col@[i]).wf() by {
                assert(t.rows@[i]@ == rows_view(t.rows@)[i]);
                if c >= 2 {
                    assert(t.rows@[i].limbs@[c - 2].wf());
                }
            }
        }
        let p = pack_column(&col);
        r.push(p);
        c = c + 1;
    }
    r
}

/// `n` enabled flags.
pub open spec fn all_enabled(n: nat) -> Seq<bool> {
    Seq::new(n, |i: int| true)
}

/// The entries that `rows` emit when every row calls the sub-routine.
pub open spec fn uses_of(rows: Seq<RowView>) -> Seq<EntryView> {
    trace_entries(rows, all_enabled(rows.len()))
}

/// Number of rows whose `(address, id)` is `t`.
pub open spec fn count_address_uses(rows: Seq<RowView>, t: Seq<M31>) -> nat
    decreases rows.len(),
{
    if rows.len() == 0 {
        0
    } else {
        count_address_uses(rows.drop_last(), t) + if seq![rows.last().address, rows.last().id] == t {
            1nat
        } else {
            0nat
        }
    }
}

/// Number of rows whose `(id, limbs...)` is `t`.
pub open spec fn count_big_uses(rows: Seq<RowView>, t: Seq<M31>) -> nat
    decreases rows.len(),
{
    if rows.len() == 0 {
        0
    } else {
        count_big_uses(rows.drop_last(), t) + if seq![rows.last().id] + rows.last().limbs == t {
            1nat
        } else {
            0nat
        }
    }
}

/// The sub-routine's share of the balance of `t`: the number of rows that
/// name `t` in that relation.
pub open spec fn share_of(rows: Seq<RowView>, k: RelationKind, t: Seq<M31>) -> int {
    match k {
        RelationKind::MemoryAddressToId => count_address_uses(rows, t) as int,
        RelationKind::MemoryIdToBig => count_big_uses(rows, t) as int,
    }
}

proof fn lemma_read_entries_balance(m: int, r: RowView, k: RelationKind, t: Seq<M31>)
    ensures
        balance(read_entries_with(m, r.address, r.id, r.limbs), k, t) == (if k
            == RelationKind::MemoryAddressToId && seq![r.address, r.id] == t {
            m
        } else {
            0
        }) + (if k == RelationKind::MemoryIdToBig && seq![r.id] + r.limbs == t {
            m
        } else {
            0
        }),
{
    let es = read_entries_with(m, r.address, r.id, r.limbs);
    assert(es.drop_last().drop_last() =~= Seq::<EntryView>::empty());
    assert(balance(Seq::<EntryView>::empty(), k, t) == 0);
    assert(es.drop_last().last() == es[0]);
    assert(balance(es.drop_last(), k, t) == if es[0].relation == k && es[0].args == t { m } else { 0 });
}

/// The sub-routine's share: over rows that all call it, the signed
/// multiplicity sum of every tuple in either relation is the number of rows
/// that name that tuple.
pub proof fn lemma_read_share(rows: Seq<RowView>, k: RelationKind, t: Seq<M31>)
    ensures
        balance(uses_of(rows), k, t) == share_of(rows, k, t),
    decreases rows.len(),
{
    if rows.len() > 0 {
        let r = rows.last();
        let rest = rows.drop_last();
        lemma_read_share(rest, k, t);
        assert(all_enabled(rows.len()).drop_last() =~= all_enabled(rest.len()));
        assert(uses_of(rows) == uses_of(rest) + read_entries_with(1, r.address, r.id, r.limbs));
        lemma_balance_append(uses_of(rest), read_entries_with(1, r.address, r.id, r.limbs), k, t);
        lemma_read_entries_balance(1, r, k, t);
    }
}

/// Relation balance, counted per tuple: the reads of `rows` share one
/// accumulator with the entries `others` of every other user, and the
/// defining memory components emit `defs`, which give each tuple minus its
/// number of uses by all users. Then every tuple of every relation balances.
pub proof fn lemma_reads_balance(rows: Seq<RowView>, others: Seq<EntryView>, defs: Seq<EntryView>)
    requires
        forall|k: RelationKind, t: Seq<M31>|
            #[trigger] balance(defs, k, t) == -(balance(others, k, t) + share_of(rows, k, t)),
    ensures
        is_balanced(others + uses_of(rows) + defs),
        forall|k: RelationKind, t: Seq<M31>|
            #[trigger] balance(uses_of(rows), k, t) == share_of(rows, k, t),
{
    assert forall|k: RelationKind, t: Seq<M31>|
        #[trigger] balance(others + uses_of(rows) + defs, k, t) == 0 by {
        lemma_read_share(rows, k, t);
        lemma_balance_append(others, uses_of(rows), k, t);
        lemma_balance_append(others + uses_of(rows), defs, k, t);
        assert(balance(defs, k, t) == -(balance(others, k, t) + share_of(rows, k, t)));
    }
    assert forall|k: RelationKind, t: Seq<M31>|
        #[trigger] balance(uses_of(rows), k, t) == share_of(rows, k, t) by {
        lemma_read_share(rows, k, t);
    }
}

/// Padding neutrality with padding rows that call the sub-routine: the
/// trace of `rows` followed by `k` copies of the padding row, every row
/// enabled, together with the defining side's dummy entries for the padding
/// rows (their entries negated), has the balance of the unpadded trace for
/// every relation and tuple.
pub proof fn lemma_padding_with_dummies(rows: Seq<RowView>, k: nat, pad: RowView, rel: RelationKind, args: Seq<M31>)
    ensures
        balance(
            uses_of(rows + padding_rows(k, pad)) + negated(uses_of(padding_rows(k, pad))),
            rel,
            args,
        ) == balance(uses_of(rows), rel, args),
{
    let pads = padding_rows(k, pad);
    assert(all_enabled((rows + pads).len()) =~= all_enabled(rows.len()) + all_enabled(pads.len()));
    lemma_trace_entries_append(rows, all_enabled(rows.len()), pads, all_enabled(pads.len()));
    lemma_balance_append(uses_of(rows), uses_of(pads), rel, args);
    lemma_balance_append(uses_of(rows + pads), negated(uses_of(pads)), rel, args);
    lemma_balance_negated(uses_of(pads), rel, args);
}

} // verus!
