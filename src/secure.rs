//! The secure field: a degree-4 extension of the base field, built as
//! `CM31[u] / (u^2 - (2 + i))` over `CM31 = M31[i] / (i^2 + 1)`.
use vstd::prelude::*;

use crate::field::{m31_add, m31_mul, m31_sub, M31};

verus! {

/// `a + b i`.
#[derive(Clone, Copy, Debug, PartialEq, Eq, Structural)]
pub struct CM31 {
    pub a: M31,
    pub b: M31,
}

/// `a + b u`, a secure-field element.
#[derive(Clone, Copy, Debug, PartialEq, Eq, Structural)]
pub struct QM31 {
    pub a: CM31,
    pub b: CM31,
}

pub open spec fn cm31_add(x: CM31, y: CM31) -> CM31 {
    CM31 { a: m31_add(x.a, y.a), b: m31_add(x.b, y.b) }
}

pub open spec fn cm31_sub(x: CM31, y: CM31) -> CM31 {
    CM31 { a: m31_sub(x.a, y.a), b: m31_sub(x.b, y.b) }
}

pub open spec fn cm31_mul(x: CM31, y: CM31) -> CM31 {
    CM31 {
        a: m31_sub(m31_mul(x.a, y.a), m31_mul(x.b, y.b)),
        b: m31_add(m31_mul(x.a, y.b), m31_mul(x.b, y.a)),
    }
}

/// `2 + i`, the square of `u`.
pub open spec fn u_squared() -> CM31 {
    CM31 { a: M31 { v: 2 }, b: M31 { v: 1 } }
}

pub open spec fn qm31_add(x: QM31, y: QM31) -> QM31 {
    QM31 { a: cm31_add(x.a, y.a), b: cm31_add(x.b, y.b) }
}

pub open spec fn qm31_sub(x: QM31, y: QM31) -> QM31 {
    QM31 { a: cm31_sub(x.a, y.a), b: cm31_sub(x.b, y.b) }
}

pub open spec fn qm31_mul(x: QM31, y: QM31) -> QM31 {
    QM31 {
        a: cm31_add(cm31_mul(x.a, y.a), cm31_mul(u_squared(), cm31_mul(x.b, y.b))),
        b: cm31_add(cm31_mul(x.a, y.b), cm31_mul(x.b, y.a)),
    }
}

/// A base-field element seen in the secure field.
pub open spec fn embed(x: M31) -> QM31 {
    QM31 { a: CM31 { a: x, b: M31 { v: 0 } }, b: CM31 { a: M31 { v: 0 }, b: M31 { v: 0 } } }
}

pub open spec fn qm31_zero() -> QM31 {
    embed(M31 { v: 0 })
}

pub open spec fn qm31_one() -> QM31 {
    embed(M31 { v: 1 })
}

impl CM31 {
    pub open spec fn wf(self) -> bool {
        self.a.wf() && self.b.wf()
    }

    pub fn add(self, o: CM31) -> (r: CM31)
        requires
            self.wf(),
            o.wf(),
        ensures
            r.wf(),
            r == cm31_add(self, o),
    {
        CM31 { a: self.a.add(o.a), b: self.b.add(o.b) }
    }

    pub fn sub(self, o: CM31) -> (r: CM31)
        requires
            self.wf(),
            o.wf(),
        ensures
            r.wf(),
            r == cm31_sub(self, o),
    {
        CM31 { a: self.a.sub(o.a), b: self.b.sub(o.b) }
    }

    pub fn mul(self, o: CM31) -> (r: CM31)
        requires
            self.wf(),
            o.wf(),
        ensures
            r.wf(),
            r == cm31_mul(self, o),
    {
        CM31 {
            a: self.a.mul(o.a).sub(self.b.mul(o.b)),
            b: self.a.mul(o.b).add(self.b.mul(o.a)),
        }
    }
}

impl QM31 {
    pub open spec fn wf(self) -> bool {
        self.a.wf() && self.b.wf()
    }

    /// The base-field element `x` in the secure field.
    pub fn from_m31(x: M31) -> (r: QM31)
        requires
            x.wf(),
        ensures
            r.wf(),
            r == embed(x),
    {
        QM31 { a: CM31 { a: x, b: M31::zero() }, b: CM31 { a: M31::zero(), b: M31::zero() } }
    }

    /// The element with the four given coordinates, each reduced.
    pub fn from_u32s(a: u32, b: u32, c: u32, d: u32) -> (r: QM31)
        ensures
            r.wf(),
            r.a.a.v == a % crate::field::P,
            r.a.b.v == b % crate::field::P,
            r.b.a.v == c % crate::field::P,
            r.b.b.v == d % crate::field::P,
    {
        QM31 {
            a: CM31 { a: M31::from_u32(a), b: M31::from_u32(b) },
            b: CM31 { a: M31::from_u32(c), b: M31::from_u32(d) },
        }
    }

    pub fn is_zero(&self) -> (r: bool)
        ensures
            r == (*self == qm31_zero()),
    {
        self.a.a.v == 0 && self.a.b.v == 0 && self.b.a.v == 0 && self.b.b.v == 0
    }

    pub fn add(self, o: QM31) -> (r: QM31)
        requires
            self.wf(),
            o.wf(),
        ensures
            r.wf(),
            r == qm31_add(self, o),
    {
        QM31 { a: self.a.add(o.a), b: self.b.add(o.b) }
    }

    pub fn sub(self, o: QM31) -> (r: QM31)
        requires
            self.wf(),
            o.wf(),
        ensures
            r.wf(),
            r == qm31_sub(self, o),
    {
        QM31 { a: self.a.sub(o.a), b: self.b.sub(o.b) }
    }

    pub fn mul(self, o: QM31) -> (r: QM31)
        requires
            self.wf(),
            o.wf(),
        ensures
            r.wf(),
            r == qm31_mul(self, o),
    {
        let r2 = CM31 { a: M31 { v: 2 }, b: M31 { v: 1 } };
        QM31 {
            a: self.a.mul(o.a).add(r2.mul(self.b.mul(o.b))),
            b: self.a.mul(o.b).add(self.b.mul(o.a)),
        }
    }
}

} // verus!
