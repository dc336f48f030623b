//! The logarithmic-derivative sum of a set of relation entries: each entry
//! contributes `multiplicity / combine(args)`, added up as one fraction.
use vstd::prelude::*;

use crate::field::{M31, P};
use crate::lookup::{combine_spec, LookupElements, LookupError};
use crate::relation::{EntryView, EvalContext, MemoryAddressToId, MemoryIdToBig, RelationKind};
use crate::secure::{embed, qm31_add, qm31_mul, qm31_one, qm31_zero, QM31};

verus! {

/// The lookup elements of every relation, drawn once per proof and shared by
/// all components.
pub struct Relations {
    pub memory_address_to_id: MemoryAddressToId,
    pub memory_id_to_big: MemoryIdToBig,
}

impl Relations {
    pub open spec fn wf(&self) -> bool {
        self.memory_address_to_id.wf() && self.memory_id_to_big.wf()
    }

    /// The lookup elements of relation `k`.
    pub open spec fn elements_spec(&self, k: RelationKind) -> LookupElements {
        match k {
            RelationKind::MemoryAddressToId => self.memory_address_to_id.lookup_elements,
            RelationKind::MemoryIdToBig => self.memory_id_to_big.lookup_elements,
        }
    }

    pub fn elements(&self, k: RelationKind) -> (r: &LookupElements)
        ensures
            *r == self.elements_spec(k),
    {
        match k {
            RelationKind::MemoryAddressToId => &self.memory_address_to_id.lookup_elements,
            RelationKind::MemoryIdToBig => &self.memory_id_to_big.lookup_elements,
        }
    }
}

/// `numerator / denominator`, kept unreduced.
#[derive(Clone, Copy, Debug, PartialEq, Eq, Structural)]
pub struct Fraction {
    pub numerator: QM31,
    pub denominator: QM31,
}

/// `a/b + c/d = (a d + c b) / (b d)`.
#[verifier::opaque]
pub open spec fn frac_add(x: Fraction, y: Fraction) -> Fraction {
    Fraction {
        numerator: qm31_add(qm31_mul(x.numerator, y.denominator), qm31_mul(y.numerator, x.denominator)),
        denominator: qm31_mul(x.denominator, y.denominator),
    }
}

/// The base-field element congruent to the integer `m`.
pub open spec fn m31_of_int(m: int) -> M31 {
    M31 { v: (m % (P as int)) as u32 }
}

/// The empty sum, `0 / 1`.
pub open spec fn frac_zero() -> Fraction {
    Fraction { numerator: qm31_zero(), denominator: qm31_one() }
}

/// The denominator of the term of `e`: the combination of its arguments
/// under its relation's lookup elements.
#[verifier::opaque]
pub open spec fn term_denominator(rels: Relations, e: EntryView) -> QM31 {
    let el = rels.elements_spec(e.relation);
    combine_spec(el.z, el.alpha, e.args)
}

/// The sum of the terms of `es`, or `None` where some entry's combination
/// is zero.
pub open spec fn logup_sum_spec(rels: Relations, es: Seq<EntryView>) -> Option<Fraction>
    decreases es.len(),
{
    if es.len() == 0 {
        Some(frac_zero())
    } else {
        let e = es.last();
        let d = term_denominator(rels, e);
        match logup_sum_spec(rels, es.drop_last()) {
            Some(acc) => if d == qm31_zero() {
                None
            } else {
                Some(frac_add(acc, Fraction { numerator: embed(m31_of_int(e.multiplicity)), denominator: d }))
            },
            None => None,
        }
    }
}

impl Fraction {
    pub open spec fn wf(self) -> bool {
        self.numerator.wf() && self.denominator.wf()
    }

    pub fn add(self, o: Fraction) -> (r: Fraction)
        requires
            self.wf(),
            o.wf(),
        ensures
            r.wf(),
            r == frac_add(self, o),
    {
        reveal(frac_add);
        Fraction {
            numerator: self.numerator.mul(o.denominator).add(o.numerator.mul(self.denominator)),
            denominator: self.denominator.mul(o.denominator),
        }
    }
}

/// The base-field element congruent to `m`.
pub fn m31_from_i32(m: i32) -> (r: M31)
    ensures
        r.wf(),
        r == m31_of_int(m as int),
{
    if m >= 0 {
        M31::from_u32(m as u32)
    } else {
        let k: u32 = ((-(m as i64)) as u32) % P;
        if k == 0 {
            assert((m as int) % (P as int) == 0);
            M31::zero()
        } else {
            assert((m as int) % (P as int) == P - k);
            M31 { v: P - k }
        }
    }
}

/// The logarithmic-derivative sum of the entries in `eval`; an entry whose
/// combination is zero ends the sum with an error.
pub fn logup_sum(rels: &Relations, eval: &EvalContext) -> (r: Result<Fraction, LookupError>)
    requires
        rels.wf(),
        eval.wf(),
        forall|i: int, j: int|
            0 <= i < eval.entries@.len() && 0 <= j < eval.entries@[i].args@.len() ==> (#[trigger] eval.entries@[i].args@[j]).wf(),
    ensures
        r matches Ok(f) ==> logup_sum_spec(*rels, eval.view_entries()) == Some(f),
        r is Err ==> logup_sum_spec(*rels, eval.view_entries()) is None,
{
    let ghost all = eval.view_entries();
    let mut acc = Fraction { numerator: QM31::from_m31(M31::zero()), denominator: QM31::from_m31(M31::one()) };
    let mut i: usize = 0;
    proof {
        assert(all.take(0) =~= Seq::<EntryView>::empty());
    }
    while i < eval.entries.len()
        invariant
            rels.wf(),
            eval.wf(),
            forall|i: int, j: int|
                0 <= i < eval.entries@.len() && 0 <= j < eval.entries@[i].args@.len() ==> (#[trigger] eval.entries@[i].args@[j]).wf(),
            all == eval.view_entries(),
            i <= eval.entries@.len(),
            acc.wf(),
            logup_sum_spec(*rels, all.take(i as int)) == Some(acc),
        decreases eval.entries@.len() - i,
    {
        let e = &eval.entries[i];
        proof {
            assert(all.take(i + 1).drop_last() =~= all.take(i as int));
            assert(all.take(i + 1).last() == e@);
            assert(e@.wf());
        }
        let el = rels.elements(e.relation);
        proof {
            reveal(term_denominator);
        }
        match el.denominator(&e.args) {
            Ok(d) => {
                acc = acc.add(Fraction { numerator: QM31::from_m31(m31_from_i32(e.multiplicity)), denominator: d });
            },
            Err(err) => {
                proof {
                    lemma_logup_none_extends(*rels, all, (i + 1) as int);
                }
                return Err(err);
            },
        }
        i = i + 1;
    }
    proof {
        assert(all.take(i as int) =~= all);
    }
    Ok(acc)
}

/// Once a prefix has a zero combination, so does every longer prefix.
proof fn lemma_logup_none_extends(rels: Relations, es: Seq<EntryView>, k: int)
    requires
        0 <= k <= es.len(),
        logup_sum_spec(rels, es.take(k)) is None,
    ensures
        logup_sum_spec(rels, es) is None,
    decreases es.len() - k,
{
    if k < es.len() {
        let t = es.take(k + 1);
        assert(t.drop_last() =~= es.take(k));
        assert(logup_sum_spec(rels, t.drop_last()) is None);
        assert(logup_sum_spec(rels, t) is None);
        lemma_logup_none_extends(rels, es, k + 1);
    } else {
        assert(es.take(k) =~= es);
    }
}

} // verus!
