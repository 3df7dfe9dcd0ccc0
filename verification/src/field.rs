//! The prime field that every protocol value lives in.
//!
//! All inputs, outputs, residuals and encoded structures of the OPPRF layer
//! are elements of one finite field.  This module provides a concrete field
//! (the integers modulo a Mersenne prime) with verified addition, subtraction
//! and multiplication, together with the cancellation law that the residual
//! algebra of the composition layer rests on.

use vstd::prelude::*;
use vstd::arithmetic::div_mod::{lemma_add_mod_noop, lemma_mod_add_multiples_vanish, lemma_small_mod};

verus! {

/// The field modulus: the Mersenne prime 2^61 - 1.
pub const FIELD_MODULUS: u64 = 2305843009213693951;

/// One element of the prime field, held as its canonical representative
/// in `0 .. FIELD_MODULUS`.
#[derive(Clone, Copy, PartialEq, Eq, Structural, Debug, Hash)]
pub struct Fp {
    pub v: u64,
}

/// Addition in the field, at the specification level.
pub open spec fn spec_add(a: Fp, b: Fp) -> Fp {
    Fp { v: ((a.v + b.v) % (FIELD_MODULUS as int)) as u64 }
}

/// Subtraction in the field, at the specification level.
pub open spec fn spec_sub(a: Fp, b: Fp) -> Fp {
    Fp { v: ((a.v - b.v) % (FIELD_MODULUS as int)) as u64 }
}

/// Multiplication in the field, at the specification level.
pub open spec fn spec_mul(a: Fp, b: Fp) -> Fp {
    Fp { v: ((a.v * b.v) % (FIELD_MODULUS as int)) as u64 }
}

impl Fp {
    /// A field element is well formed when it is a canonical representative.
    pub open spec fn wf(self) -> bool {
        self.v < FIELD_MODULUS
    }

    /// The zero element.
    pub fn zero() -> (r: Fp)
        ensures
            r.wf(),
            r.v == 0,
    {
        Fp { v: 0 }
    }

    /// Builds the field element represented by an arbitrary machine word,
    /// reducing it into the canonical range.
    pub fn new(x: u64) -> (r: Fp)
        ensures
            r.wf(),
            r.v == x % FIELD_MODULUS,
    {
        Fp { v: x % FIELD_MODULUS }
    }

    /// Field addition.
    pub fn add(self, other: Fp) -> (r: Fp)
        requires
            self.wf(),
            other.wf(),
        ensures
            r == spec_add(self, other),
            r.wf(),
    {
        let s = self.v + other.v;
        let out = if s >= FIELD_MODULUS {
            s - FIELD_MODULUS
        } else {
            s
        };
        proof {
            let m = FIELD_MODULUS as int;
            if s >= FIELD_MODULUS {
                lemma_mod_add_multiples_vanish(s - m, m);
                lemma_small_mod((s - m) as nat, m as nat);
            } else {
                lemma_small_mod(s as nat, m as nat);
            }
        }
        Fp { v: out }
    }

    /// Field subtraction.
    pub fn sub(self, other: Fp) -> (r: Fp)
        requires
            self.wf(),
            other.wf(),
        ensures
            r == spec_sub(self, other),
            r.wf(),
    {
        let out = if self.v >= other.v {
            self.v - other.v
        } else {
            self.v + FIELD_MODULUS - other.v
        };
        proof {
            let m = FIELD_MODULUS as int;
            let d = self.v - other.v;
            if self.v >= other.v {
                lemma_small_mod(d as nat, m as nat);
            } else {
                lemma_mod_add_multiples_vanish(d, m);
                lemma_small_mod((d + m) as nat, m as nat);
            }
        }
        Fp { v: out }
    }

    /// Field multiplication.
    pub fn mul(self, other: Fp) -> (r: Fp)
        requires
            self.wf(),
            other.wf(),
        ensures
            r == spec_mul(self, other),
            r.wf(),
    {
        proof {
            assert((self.v as int) * (other.v as int) < 340282366920938463463374607431768211455int)
                by (nonlinear_arith)
                requires
                    self.v < 2305843009213693951u64,
                    other.v < 2305843009213693951u64,
            ;
        }
        let prod: u128 = (self.v as u128) * (other.v as u128);
        let red: u128 = prod % (FIELD_MODULUS as u128);
        Fp { v: red as u64 }
    }
}

/// The cancellation law of the residual algebra: subtracting a base value
/// from a target and then adding the base value back yields the target.
pub proof fn lemma_sub_add_cancel(z: Fp, b: Fp)
    requires
        z.wf(),
        b.wf(),
    ensures
        spec_add(spec_sub(z, b), b) == z,
{
    let m = FIELD_MODULUS as int;
    let d = (z.v - b.v) % m;
    lemma_add_mod_noop(z.v - b.v, b.v as int, m);
    lemma_small_mod(b.v as nat, m as nat);
    lemma_small_mod(z.v as nat, m as nat);
    assert((d + b.v) % m == (z.v - b.v + b.v) % m);
    assert(spec_add(spec_sub(z, b), b).v == z.v);
}

} // verus!
