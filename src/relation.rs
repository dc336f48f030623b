//! Lookup relations: entries, the accumulator that components add them to, and
//! the balance of signed multiplicities.
use vstd::prelude::*;

use crate::field::M31;
use crate::lookup::LookupElements;
use crate::secure::QM31;

verus! {

/// The lookup relations that components refer to.
#[derive(Clone, Copy, Debug, PartialEq, Eq, Structural)]
pub enum RelationKind {
    /// Memory address to the id of the value stored there.
    MemoryAddressToId,
    /// Value id to the value's nine-bit limbs: the id and eleven limbs, which
    /// hold a value of up to 99 bits.
    MemoryIdToBig,
}

impl RelationKind {
    /// The number of arguments of an entry of this relation.
    pub open spec fn arity(self) -> nat {
        match self {
            RelationKind::MemoryAddressToId => 2,
            RelationKind::MemoryIdToBig => 12,
        }
    }

    pub fn n_args(&self) -> (r: usize)
        ensures
            r == self.arity(),
    {
        match self {
            RelationKind::MemoryAddressToId => 2,
            RelationKind::MemoryIdToBig => 12,
        }
    }
}

/// One contribution to a lookup argument: `args` appears `multiplicity`
/// times (negative on the side that defines the table) in `relation`.
pub struct RelationEntry {
    pub relation: RelationKind,
    pub multiplicity: i32,
    pub args: Vec<M31>,
}

/// The mathematical content of a relation entry.
pub struct EntryView {
    pub relation: RelationKind,
    pub multiplicity: int,
    pub args: Seq<M31>,
}

impl View for RelationEntry {
    type V = EntryView;

    open spec fn view(&self) -> EntryView {
        EntryView { relation: self.relation, multiplicity: self.multiplicity as int, args: self.args@ }
    }
}

impl EntryView {
    pub open spec fn wf(self) -> bool {
        self.args.len() == self.relation.arity()
    }
}

/// The views of a sequence of entries.
pub open spec fn entries_view(es: Seq<RelationEntry>) -> Seq<EntryView> {
    es.map_values(|e: RelationEntry| e@)
}

/// Signed sum of the multiplicities with which `args` occurs in `rel`.
pub open spec fn balance(es: Seq<EntryView>, rel: RelationKind, args: Seq<M31>) -> int
    decreases es.len(),
{
    if es.len() == 0 {
        0
    } else {
        let e = es.last();
        balance(es.drop_last(), rel, args) + if e.relation == rel && e.args == args {
            e.multiplicity
        } else {
            0
        }
    }
}

/// Every argument tuple of every relation has a zero signed multiplicity sum.
pub open spec fn is_balanced(es: Seq<EntryView>) -> bool {
    forall|rel: RelationKind, args: Seq<M31>| #[trigger] balance(es, rel, args) == 0
}

/// The entries with their multiplicities negated: the defining side of the
/// uses in `es`.
pub open spec fn negated(es: Seq<EntryView>) -> Seq<EntryView> {
    es.map_values(|e: EntryView| EntryView { relation: e.relation, multiplicity: -e.multiplicity, args: e.args })
}

/// Balance adds up over concatenation.
pub proof fn lemma_balance_append(a: Seq<EntryView>, b: Seq<EntryView>, rel: RelationKind, args: Seq<M31>)
    ensures
        balance(a + b, rel, args) == balance(a, rel, args) + balance(b, rel, args),
    decreases b.len(),
{
    if b.len() == 0 {
        assert(a + b =~= a);
    } else {
        lemma_balance_append(a, b.drop_last(), rel, args);
        assert((a + b).drop_last() =~= a + b.drop_last());
    }
}

/// Negating every multiplicity negates every balance.
pub proof fn lemma_balance_negated(es: Seq<EntryView>, rel: RelationKind, args: Seq<M31>)
    ensures
        balance(negated(es), rel, args) == -balance(es, rel, args),
    decreases es.len(),
{
    if es.len() > 0 {
        lemma_balance_negated(es.drop_last(), rel, args);
        assert(negated(es).drop_last() =~= negated(es.drop_last()));
    }
}

/// An argument tuple that no entry names has balance zero.
pub proof fn lemma_balance_absent(es: Seq<EntryView>, rel: RelationKind, args: Seq<M31>)
    requires
        forall|i: int| 0 <= i < es.len() ==> !(#[trigger] es[i].relation == rel && es[i].args == args),
    ensures
        balance(es, rel, args) == 0,
    decreases es.len(),
{
    if es.len() > 0 {
        lemma_balance_absent(es.drop_last(), rel, args);
    }
}

/// Relation balance: whatever entries the using components emit, together with
/// the entries of the defining side (the same tuples with negated
/// multiplicities), every relation balances.
pub proof fn lemma_uses_and_definitions_balance(uses: Seq<EntryView>)
    ensures
        is_balanced(uses + negated(uses)),
{
    assert forall|rel: RelationKind, args: Seq<M31>| #[trigger] balance(uses + negated(uses), rel, args) == 0 by {
        lemma_balance_append(uses, negated(uses), rel, args);
        lemma_balance_negated(uses, rel, args);
    }
}

/// The per-proof accumulator that component evaluators add entries to.
pub struct EvalContext {
    pub entries: Vec<RelationEntry>,
}

impl EvalContext {
    /// Every entry has its relation's arity.
    pub open spec fn wf(&self) -> bool {
        forall|i: int| 0 <= i < self.entries@.len() ==> (#[trigger] self.entries@[i])@.wf()
    }

    /// The entries added so far, in order.
    pub open spec fn view_entries(&self) -> Seq<EntryView> {
        entries_view(self.entries@)
    }

    pub fn new() -> (r: EvalContext)
        ensures
            r.wf(),
            r.view_entries() == Seq::<EntryView>::empty(),
    {
        let r = EvalContext { entries: Vec::new() };
        proof {
            assert(r.view_entries() =~= Seq::<EntryView>::empty());
        }
        r
    }

    /// Appends one entry; an entry whose arity does not match its relation is
    /// a programming error and is ruled out by the precondition.
    pub fn add_to_relation(&mut self, e: RelationEntry)
        requires
            old(self).wf(),
            e@.wf(),
        ensures
            final(self).wf(),
            final(self).view_entries() == old(self).view_entries().push(e@),
    {
        let ghost e_view = e@;
        self.entries.push(e);
        proof {
            assert(self.view_entries() =~= old(self).view_entries().push(e_view));
        }
    }
}

fn args_equal(a: &Vec<M31>, b: &Vec<M31>) -> (r: bool)
    ensures
        r == (a@ == b@),
{
    if a.len() != b.len() {
        return false;
    }
    let mut i: usize = 0;
    while i < a.len()
        invariant
            a@.len() == b@.len(),
            i <= a@.len(),
            forall|l: int| 0 <= l < i ==> a@[l] == b@[l],
        decreases a@.len() - i,
    {
        if a[i] != b[i] {
            return false;
        }
        i = i + 1;
    }
    proof {
        assert(a@ =~= b@);
    }
    true
}

/// The signed multiplicity sum of `args` in `rel` over `es`.
pub fn balance_of(es: &Vec<RelationEntry>, rel: RelationKind, args: &Vec<M31>) -> (r: i64)
    requires
        es@.len() < 0x1_0000_0000,
    ensures
        r == balance(entries_view(es@), rel, args@),
{
    let ghost all = entries_view(es@);
    let mut s: i64 = 0;
    let mut i: usize = 0;
    proof {
        assert(all.take(0) =~= Seq::<EntryView>::empty());
    }
    while i < es.len()
        invariant
            es@.len() < 0x1_0000_0000,
            all == entries_view(es@),
            i <= es@.len(),
            s == balance(all.take(i as int), rel, args@),
            -(i * 0x8000_0000) <= s <= i * 0x8000_0000,
        decreases es@.len() - i,
    {
        let e = &es[i];
        proof {
            assert(all.take(i + 1).drop_last() =~= all.take(i as int));
            assert(all.take(i + 1).last() == e@);
        }
        if e.relation == rel && args_equal(&e.args, args) {
            s = s + e.multiplicity as i64;
        }
        i = i + 1;
    }
    proof {
        assert(all.take(i as int) =~= all);
    }
    s
}

/// The consistency check used in testing: every argument tuple of every
/// relation has a zero signed multiplicity sum over `es`.
pub fn check_balance(es: &Vec<RelationEntry>) -> (r: bool)
    requires
        es@.len() < 0x1_0000_0000,
    ensures
        r == is_balanced(entries_view(es@)),
{
    let ghost all = entries_view(es@);
    let mut i: usize = 0;
    while i < es.len()
        invariant
            es@.len() < 0x1_0000_0000,
            all == entries_view(es@),
            i <= es@.len(),
            forall|l: int| 0 <= l < i ==> balance(all, #[trigger] all[l].relation, all[l].args) == 0,
        decreases es@.len() - i,
    {
        let b = balance_of(es, es[i].relation, &es[i].args);
        if b != 0 {
            proof {
                assert(all[i as int] == es@[i as int]@);
                assert(balance(all, es@[i as int].relation, es@[i as int].args@) != 0);
            }
            return false;
        }
        proof {
            assert(all[i as int] == es@[i as int]@);
        }
        i = i + 1;
    }
    proof {
        assert forall|rel: RelationKind, args: Seq<M31>| #[trigger] balance(all, rel, args) == 0 by {
            if exists|l: int| 0 <= l < all.len() && all[l].relation == rel && all[l].args == args {
                let l = choose|l: int| 0 <= l < all.len() && all[l].relation == rel && all[l].args == args;
                assert(balance(all, all[l].relation, all[l].args) == 0);
            } else {
                lemma_balance_absent(all, rel, args);
            }
        }
    }
    true
}

fn copy_args(a: &Vec<M31>) -> (r: Vec<M31>)
    ensures
        r@ == a@,
{
    let mut r: Vec<M31> = Vec::new();
    let mut i: usize = 0;
    while i < a.len()
        invariant
            i <= a@.len(),
            r@ == a@.take(i as int),
        decreases a@.len() - i,
    {
        proof {
            assert(a@.take(i + 1) =~= a@.take(i as int).push(a@[i as int]));
        }
        r.push(a[i]);
        i = i + 1;
    }
    proof {
        assert(a@.take(i as int) =~= a@);
    }
    r
}

/// The entries that the defining side of the uses `es` emits: the same
/// tuples, in the same order, with negated multiplicities.
pub fn defining_entries(es: &Vec<RelationEntry>) -> (r: Vec<RelationEntry>)
    requires
        forall|i: int| 0 <= i < es@.len() ==> (#[trigger] es@[i]).multiplicity > i32::MIN,
    ensures
        entries_view(r@) == negated(entries_view(es@)),
{
    let mut r: Vec<RelationEntry> = Vec::new();
    let mut i: usize = 0;
    while i < es.len()
        invariant
            forall|l: int| 0 <= l < es@.len() ==> (#[trigger] es@[l]).multiplicity > i32::MIN,
            i <= es@.len(),
            r@.len() == i,
            forall|l: int| 0 <= l < i ==> (#[trigger] r@[l])@ == negated(entries_view(es@))[l],
        decreases es@.len() - i,
    {
        let e = &es[i];
        let d = RelationEntry { relation: e.relation, multiplicity: -e.multiplicity, args: copy_args(&e.args) };
        proof {
            assert(d@ == negated(entries_view(es@))[i as int]);
        }
        r.push(d);
        i = i + 1;
    }
    proof {
        assert(entries_view(r@) =~= negated(entries_view(es@)));
    }
    r
}

/// Handle of the address-to-id relation: its lookup elements.
pub struct MemoryAddressToId {
    pub lookup_elements: LookupElements,
}

/// Handle of the id-to-limbs relation: its lookup elements.
pub struct MemoryIdToBig {
    pub lookup_elements: LookupElements,
}

impl MemoryAddressToId {
    pub open spec fn wf(&self) -> bool {
        self.lookup_elements.wf() && self.lookup_elements.alpha_powers@.len()
            == RelationKind::MemoryAddressToId.arity()
    }

    /// The handle for the challenges `z` and `alpha`.
    pub fn new(z: QM31, alpha: QM31) -> (r: MemoryAddressToId)
        requires
            z.wf(),
            alpha.wf(),
        ensures
            r.wf(),
            r.lookup_elements.z == z,
            r.lookup_elements.alpha == alpha,
    {
        MemoryAddressToId { lookup_elements: LookupElements::new(z, alpha, 2) }
    }
}

impl MemoryIdToBig {
    pub open spec fn wf(&self) -> bool {
        self.lookup_elements.wf() && self.lookup_elements.alpha_powers@.len()
            == RelationKind::MemoryIdToBig.arity()
    }

    /// The handle for the challenges `z` and `alpha`.
    pub fn new(z: QM31, alpha: QM31) -> (r: MemoryIdToBig)
        requires
            z.wf(),
            alpha.wf(),
        ensures
            r.wf(),
            r.lookup_elements.z == z,
            r.lookup_elements.alpha == alpha,
    {
        MemoryIdToBig { lookup_elements: LookupElements::new(z, alpha, 12) }
    }
}

} // verus!
