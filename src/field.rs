//! The Mersenne-31 base field: integers modulo `2^31 - 1`.
use vstd::prelude::*;

verus! {

/// The field modulus, `2^31 - 1`.
pub const P: u32 = 2147483647;

/// A base-field element, held in canonical form (`v < P`).
#[derive(Clone, Copy, Debug, PartialEq, Eq, Structural)]
pub struct M31 {
    pub v: u32,
}

/// Field addition on canonical elements.
pub open spec fn m31_add(a: M31, b: M31) -> M31 {
    M31 { v: ((a.v as int + b.v as int) % (P as int)) as u32 }
}

/// Field subtraction on canonical elements.
pub open spec fn m31_sub(a: M31, b: M31) -> M31 {
    M31 { v: ((a.v as int + P as int - b.v as int) % (P as int)) as u32 }
}

/// Field multiplication on canonical elements.
pub open spec fn m31_mul(a: M31, b: M31) -> M31 {
    M31 { v: ((a.v as int * b.v as int) % (P as int)) as u32 }
}

impl M31 {
    /// The element is in canonical form.
    pub open spec fn wf(self) -> bool {
        self.v < P
    }

    /// The element congruent to `x`.
    pub fn from_u32(x: u32) -> (r: M31)
        ensures
            r.wf(),
            r.v == x % P,
    {
        M31 { v: x % P }
    }

    pub fn zero() -> (r: M31)
        ensures
            r.wf(),
            r.v == 0,
    {
        M31 { v: 0 }
    }

    pub fn one() -> (r: M31)
        ensures
            r.wf(),
            r.v == 1,
    {
        M31 { v: 1 }
    }

    pub fn add(self, o: M31) -> (r: M31)
        requires
            self.wf(),
            o.wf(),
        ensures
            r.wf(),
            r == m31_add(self, o),
    {
        let s: u32 = self.v + o.v;
        if s >= P {
            M31 { v: s - P }
        } else {
            M31 { v: s }
        }
    }

    pub fn sub(self, o: M31) -> (r: M31)
        requires
            self.wf(),
            o.wf(),
        ensures
            r.wf(),
            r == m31_sub(self, o),
    {
        if self.v >= o.v {
            M31 { v: self.v - o.v }
        } else {
            M31 { v: self.v + (P - o.v) }
        }
    }

    pub fn mul(self, o: M31) -> (r: M31)
        requires
            self.wf(),
            o.wf(),
        ensures
            r.wf(),
            r == m31_mul(self, o),
    {
        let a: u64 = self.v as u64;
        let b: u64 = o.v as u64;
        assert(a * b <= 0xffff_ffff_ffff_ffffu64) by (nonlinear_arith)
            requires
                a < 0x8000_0000u64,
                b < 0x8000_0000u64,
        ;
        let prod: u64 = a * b;
        let red: u64 = prod % (P as u64);
        M31 { v: red as u32 }
    }
}

} // verus!
