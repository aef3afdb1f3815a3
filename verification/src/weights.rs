//! The additive weight monoid used to aggregate per-node costs.
//!
//! Weights combine through a saturating addition, which is commutative and
//! associative with `empty` as its identity element, so an aggregate is
//! independent of the order in which a consumer combines partial results.

use vstd::prelude::*;

verus! {

/// A cost aggregate attached to AST nodes and their fields.
#[derive(Clone, Copy, Debug, PartialEq, Eq, Structural)]
pub struct Weights {
    pub raw: u64,
}

impl Weights {
    /// What combining two weights yields: addition saturating at `u64::MAX`.
    pub open spec fn spec_combine(self, other: Weights) -> Weights {
        if self.raw + other.raw > u64::MAX {
            Weights { raw: u64::MAX }
        } else {
            Weights { raw: (self.raw + other.raw) as u64 }
        }
    }

    /// The identity element of the weight monoid.
    pub fn empty() -> (w: Weights)
        ensures
            w == (Weights { raw: 0u64 }),
    {
        Weights { raw: 0 }
    }

    /// Combines two weights additively, saturating at the largest
    /// representable value.
    pub fn combine(self, other: Weights) -> (r: Weights)
        ensures
            r == self.spec_combine(other),
    {
        if self.raw > u64::MAX - other.raw {
            Weights { raw: u64::MAX }
        } else {
            Weights { raw: self.raw + other.raw }
        }
    }
}

/// Law: combining weights is commutative, so an aggregate does not depend on
/// the order in which two parts are taken.
pub proof fn lemma_combine_commutative(a: Weights, b: Weights)
    ensures
        a.spec_combine(b) == b.spec_combine(a),
{
}

/// Law: combining weights is associative, so an aggregate does not depend on
/// how a consumer groups partial results.
pub proof fn lemma_combine_associative(a: Weights, b: Weights, c: Weights)
    ensures
        a.spec_combine(b).spec_combine(c) == a.spec_combine(b.spec_combine(c)),
{
}

/// Law: the empty weight is an identity for combination on both sides.
pub proof fn lemma_combine_identity(a: Weights)
    ensures
        a.spec_combine(Weights { raw: 0u64 }) == a,
        (Weights { raw: 0u64 }).spec_combine(a) == a,
{
}

} // verus!
