//! Aggregation behaviors over schema'd AST nodes: index collection,
//! triviality, and weight aggregation.
//!
//! A node is either a leaf expression (with its own collected indices and
//! weight), a record whose fields each carry aggregation annotations
//! (`skip_collecting`, an optional custom weighing function, and the field's
//! own precomputed weight), or a tagged union that dispatches every behavior
//! to its active variant.

use vstd::prelude::*;

use crate::weights::Weights;

verus! {

broadcast use vstd::std_specs::vec::group_vec_axioms;

/// The closed set of custom weighing functions a field may declare in place
/// of the default "read the field's own weight" behavior. Each is invoked
/// with the field it annotates.
#[derive(Clone, Copy, Debug, PartialEq, Eq, Structural)]
pub enum WeighFn {
    /// The field contributes nothing.
    Zero,
    /// The field contributes a fixed weight, ignoring its contents.
    Constant(Weights),
    /// The field contributes its own weight combined with itself.
    Doubled,
}

/// A record field together with its aggregation annotations.
pub struct KindField {
    /// The field's own value, delegated to by `collect`.
    pub node: KindNode,
    /// Excludes the field from index collection.
    pub skip_collecting: bool,
    /// The field's own precomputed weight, the default aggregation source.
    pub weight: Weights,
    /// A custom weighing function replacing the default source.
    pub weigh_with: Option<WeighFn>,
}

/// An AST node as the aggregation synthesizer sees it.
pub enum KindNode {
    /// A primitive expression with its own collected indices and weight.
    Leaf { indices: Vec<usize>, trivial: bool, weight: Weights },
    /// A record: the `trivial` flag is declared at schema level, never
    /// computed from field contents.
    Record { trivial: bool, fields: Vec<KindField> },
    /// A closed tagged union holding its active variant.
    Union { variant: Box<KindNode> },
}

/// The indices a node's `collect` appends, in order.
pub open spec fn spec_collected(n: KindNode) -> Seq<usize>
    decreases n,
{
    match n {
        KindNode::Leaf { indices, .. } => indices@,
        KindNode::Record { fields, .. } => spec_collected_fields(fields@),
        KindNode::Union { variant } => spec_collected(*variant),
    }
}

/// The indices collected from a record's fields in declaration order;
/// a field marked `skip_collecting` contributes nothing.
pub open spec fn spec_collected_fields(fs: Seq<KindField>) -> Seq<usize>
    decreases fs,
{
    if fs.len() == 0 {
        Seq::empty()
    } else {
        spec_collected_fields(fs.drop_last()) + (if fs.last().skip_collecting {
            Seq::empty()
        } else {
            spec_collected(fs.last().node)
        })
    }
}

/// Whether a node is trivial: the declared flag for leaves and records,
/// the active variant's answer for unions.
pub open spec fn spec_trivial(n: KindNode) -> bool
    decreases n,
{
    match n {
        KindNode::Leaf { trivial, .. } => trivial,
        KindNode::Record { trivial, .. } => trivial,
        KindNode::Union { variant } => spec_trivial(*variant),
    }
}

/// A single field's contribution to the weight aggregate: its declared
/// custom weighing function's result if one is present, else the field's
/// own precomputed weight.
pub open spec fn spec_field_weight(f: KindField) -> Weights {
    match f.weigh_with {
        None => f.weight,
        Some(WeighFn::Zero) => Weights { raw: 0u64 },
        Some(WeighFn::Constant(w)) => w,
        Some(WeighFn::Doubled) => f.weight.spec_combine(f.weight),
    }
}

/// The weight aggregate of a node: a leaf's own weight, a record's fields
/// combined in declaration order starting from the identity, or the active
/// variant's aggregate for unions.
pub open spec fn spec_weights(n: KindNode) -> Weights
    decreases n,
{
    match n {
        KindNode::Leaf { weight, .. } => weight,
        KindNode::Record { fields, .. } => spec_weights_fields(fields@),
        KindNode::Union { variant } => spec_weights(*variant),
    }
}

/// The fields' weight contributions combined in declaration order.
pub open spec fn spec_weights_fields(fs: Seq<KindField>) -> Weights
    decreases fs,
{
    if fs.len() == 0 {
        Weights { raw: 0u64 }
    } else {
        spec_weights_fields(fs.drop_last()).spec_combine(spec_field_weight(fs.last()))
    }
}

impl KindNode {
    /// Appends this node's collected indices to `exprs`: a leaf appends its
    /// own indices; a record delegates to every field not marked
    /// `skip_collecting`, strictly in declaration order; a union dispatches
    /// to its active variant.
    #[verifier::loop_isolation(false)]
    pub fn collect(&self, exprs: &mut Vec<usize>)
        ensures
            final(exprs)@ == old(exprs)@ + spec_collected(*self),
        decreases *self,
    {
        match self {
            KindNode::Leaf { indices, .. } => {
                let mut i: usize = 0;
                while i < indices.len()
                    invariant
                        i <= indices@.len(),
                        exprs@ == old(exprs)@ + indices@.take(i as int),
                    decreases indices@.len() - i,
                {
                    exprs.push(indices[i]);
                    proof {
                        assert(indices@.take(i + 1) =~= indices@.take(i as int).push(
                            indices@[i as int],
                        ));
                    }
                    i += 1;
                }
                proof {
                    assert(indices@.take(indices@.len() as int) =~= indices@);
                }
            },
            KindNode::Record { fields, .. } => {
                let mut i: usize = 0;
                while i < fields.len()
                    invariant
                        i <= fields@.len(),
                        exprs@ == old(exprs)@ + spec_collected_fields(fields@.take(i as int)),
                    decreases fields@.len() - i,
                {
                    let f = &fields[i];
                    if !f.skip_collecting {
                        proof {
                            assert(decreases_to!(*self => *fields));
                            assert(decreases_to!(*fields => fields@[i as int]));
                            assert(decreases_to!(fields@[i as int] => fields@[i as int].node));
                        }
                        f.node.collect(exprs);
                    }
                    proof {
                        assert(fields@.take(i + 1).drop_last() =~= fields@.take(i as int));
                        assert(fields@.take(i + 1).last() == fields@[i as int]);
                    }
                    i += 1;
                }
                proof {
                    assert(fields@.take(fields@.len() as int) =~= fields@);
                }
            },
            KindNode::Union { variant } => {
                variant.collect(exprs);
            },
        }
    }

    /// Returns whether this node is trivial: for a record, the fixed
    /// schema-level flag; for a union, the active variant's answer.
    pub fn is_trivial(&self) -> (r: bool)
        ensures
            r == spec_trivial(*self),
        decreases *self,
    {
        match self {
            KindNode::Leaf { trivial, .. } => *trivial,
            KindNode::Record { trivial, .. } => *trivial,
            KindNode::Union { variant } => variant.is_trivial(),
        }
    }

    /// Aggregates this node's weight: starting from the identity element, a
    /// record combines in, for every field in declaration order, either the
    /// field's own precomputed weight or the result of its declared custom
    /// weighing function; a union dispatches to its active variant.
    #[verifier::loop_isolation(false)]
    pub fn evaluate_weights(&self) -> (w: Weights)
        ensures
            w == spec_weights(*self),
        decreases *self,
    {
        match self {
            KindNode::Leaf { weight, .. } => *weight,
            KindNode::Record { fields, .. } => {
                let mut w = Weights::empty();
                let mut i: usize = 0;
                while i < fields.len()
                    invariant
                        i <= fields@.len(),
                        w == spec_weights_fields(fields@.take(i as int)),
                    decreases fields@.len() - i,
                {
                    let f = &fields[i];
                    let fw = match &f.weigh_with {
                        None => f.weight,
                        Some(WeighFn::Zero) => Weights { raw: 0 },
                        Some(WeighFn::Constant(c)) => *c,
                        Some(WeighFn::Doubled) => f.weight.combine(f.weight),
                    };
                    w = w.combine(fw);
                    proof {
                        assert(fields@.take(i + 1).drop_last() =~= fields@.take(i as int));
                        assert(fields@.take(i + 1).last() == fields@[i as int]);
                    }
                    i += 1;
                }
                proof {
                    assert(fields@.take(fields@.len() as int) =~= fields@);
                }
                w
            },
            KindNode::Union { variant } => variant.evaluate_weights(),
        }
    }
}

} // verus!
