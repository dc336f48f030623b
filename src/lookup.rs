//! Lookup elements of a relation: the verifier's random `z` and `alpha`, and
//! the combination `sum_i alpha^i * args[i] - z` that is the denominator of an
//! entry's logarithmic-derivative term.
use vstd::prelude::*;

use crate::field::M31;
use crate::secure::{embed, qm31_add, qm31_mul, qm31_one, qm31_sub, qm31_zero, QM31};

verus! {

/// `x^n`.
pub open spec fn qm31_pow(x: QM31, n: nat) -> QM31
    decreases n,
{
    if n == 0 {
        qm31_one()
    } else {
        qm31_mul(qm31_pow(x, (n - 1) as nat), x)
    }
}

/// `sum_i alpha^i * args[i]`.
pub open spec fn lin_comb(alpha: QM31, args: Seq<M31>) -> QM31
    decreases args.len(),
{
    if args.len() == 0 {
        qm31_zero()
    } else {
        qm31_add(
            lin_comb(alpha, args.drop_last()),
            qm31_mul(qm31_pow(alpha, (args.len() - 1) as nat), embed(args.last())),
        )
    }
}

/// The combined value of an argument tuple: `sum_i alpha^i * args[i] - z`.
pub open spec fn combine_spec(z: QM31, alpha: QM31, args: Seq<M31>) -> QM31 {
    qm31_sub(lin_comb(alpha, args), z)
}

/// An argument tuple whose combination is zero: the lookup argument cannot
/// go on with these challenges.
#[derive(Clone, Copy, Debug, PartialEq, Eq, Structural)]
pub enum LookupError {
    ZeroDenominator,
}

/// The random elements of one relation, with the powers of `alpha` that its
/// arity needs.
pub struct LookupElements {
    pub z: QM31,
    pub alpha: QM31,
    pub alpha_powers: Vec<QM31>,
}

impl LookupElements {
    pub open spec fn wf(&self) -> bool {
        &&& self.z.wf()
        &&& self.alpha.wf()
        &&& forall|i: int|
            0 <= i < self.alpha_powers@.len() ==> (#[trigger] self.alpha_powers@[i]) == qm31_pow(
                self.alpha,
                i as nat,
            ) && self.alpha_powers@[i].wf()
    }

    /// Lookup elements for tuples of up to `n` arguments.
    pub fn new(z: QM31, alpha: QM31, n: usize) -> (r: LookupElements)
        requires
            z.wf(),
            alpha.wf(),
        ensures
            r.wf(),
            r.z == z,
            r.alpha == alpha,
            r.alpha_powers@.len() == n,
    {
        let mut powers: Vec<QM31> = Vec::new();
        let mut cur = QM31::from_m31(M31::one());
        let mut i: usize = 0;
        while i < n
            invariant
                alpha.wf(),
                i <= n,
                powers@.len() == i,
                cur == qm31_pow(alpha, i as nat),
                cur.wf(),
                forall|l: int|
                    0 <= l < i ==> (#[trigger] powers@[l]) == qm31_pow(alpha, l as nat)
                        && powers@[l].wf(),
            decreases n - i,
        {
            powers.push(cur);
            cur = cur.mul(alpha);
            i = i + 1;
        }
        LookupElements { z, alpha, alpha_powers: powers }
    }

    /// The combined value of `args`.
    pub fn combine(&self, args: &Vec<M31>) -> (r: QM31)
        requires
            self.wf(),
            args@.len() <= self.alpha_powers@.len(),
            forall|i: int| 0 <= i < args@.len() ==> (#[trigger] args@[i]).wf(),
        ensures
            r.wf(),
            r == combine_spec(self.z, self.alpha, args@),
    {
        let mut acc = QM31::from_m31(M31::zero());
        let mut i: usize = 0;
        proof {
            assert(args@.take(0) =~= Seq::<M31>::empty());
        }
        while i < args.len()
            invariant
                self.wf(),
                args@.len() <= self.alpha_powers@.len(),
                forall|l: int| 0 <= l < args@.len() ==> (#[trigger] args@[l]).wf(),
                i <= args@.len(),
                acc.wf(),
                acc == lin_comb(self.alpha, args@.take(i as int)),
            decreases args@.len() - i,
        {
            proof {
                assert(args@.take(i + 1).drop_last() =~= args@.take(i as int));
            }
            acc = acc.add(self.alpha_powers[i].mul(QM31::from_m31(args[i])));
            i = i + 1;
        }
        proof {
            assert(args@.take(i as int) =~= args@);
        }
        acc.sub(self.z)
    }

    /// The denominator of the logarithmic-derivative term of `args`; a zero
    /// denominator is reported as an error.
    pub fn denominator(&self, args: &Vec<M31>) -> (r: Result<QM31, LookupError>)
        requires
            self.wf(),
            args@.len() <= self.alpha_powers@.len(),
            forall|i: int| 0 <= i < args@.len() ==> (#[trigger] args@[i]).wf(),
        ensures
            combine_spec(self.z, self.alpha, args@) == qm31_zero() ==> r == Err::<QM31, LookupError>(
                LookupError::ZeroDenominator,
            ),
            combine_spec(self.z, self.alpha, args@) != qm31_zero() ==> r == Ok::<QM31, LookupError>(
                combine_spec(self.z, self.alpha, args@),
            ),
    {
        let c = self.combine(args);
        if c.is_zero() {
            Err(LookupError::ZeroDenominator)
        } else {
            Ok(c)
        }
    }
}

} // verus!
