//! The base oblivious PRF, as the composition layer sees it.
//!
//! The base OPRF is a separate collaborator: a two-party protocol that, after
//! its own offline and online phases, leaves the Sender with the ability to
//! evaluate a pseudorandom function `fk_base` at any input, and hands the
//! Receiver the pair `(x, fk_base(x))` for each of its queries.  Its
//! distributed derivation (and the correlated-randomness source it consumes)
//! is out of scope here; this module models only the capability both roles
//! end up with: a keyed function over the field that either side can
//! evaluate at a field element.

use vstd::prelude::*;
use crate::field::{spec_add, spec_mul, Fp};

verus! {

/// The evaluation capability of the base OPRF after its offline phase:
/// a keyed affine function over the field.  One shared value of this type
/// stands for one completed base-OPRF precomputation; handing the same
/// value to a Sender and a Receiver models the two ends of that run.
#[derive(Clone, Copy, PartialEq, Eq, Structural, Debug)]
pub struct BaseOprf {
    pub k_add: Fp,
    pub k_mul: Fp,
}

impl BaseOprf {
    /// Both key components are canonical field elements.
    pub open spec fn wf(self) -> bool {
        self.k_add.wf() && self.k_mul.wf()
    }

    /// The value of `fk_base` at `x`.
    pub open spec fn eval_spec(self, x: Fp) -> Fp {
        spec_add(self.k_add, spec_mul(self.k_mul, x))
    }

    /// Builds the capability from its two key components.
    pub fn new(k_add: Fp, k_mul: Fp) -> (r: BaseOprf)
        requires
            k_add.wf(),
            k_mul.wf(),
        ensures
            r.wf(),
            r == (BaseOprf { k_add, k_mul }),
    {
        BaseOprf { k_add, k_mul }
    }

    /// Evaluates `fk_base` at `x`.
    pub fn eval(&self, x: Fp) -> (r: Fp)
        requires
            self.wf(),
            x.wf(),
        ensures
            r == self.eval_spec(x),
            r.wf(),
    {
        self.k_add.add(self.k_mul.mul(x))
    }
}

} // verus!
