//! Evaluation dispatch over closed tagged unions.
//!
//! A union's `evaluate` dispatches unconditionally to its active variant,
//! forwarding the arguments unchanged; every variant shares the union's
//! single output type.

use vstd::prelude::*;

verus! {

/// The arguments an evaluation receives, forwarded unchanged through every
/// union layer.
pub struct EvaluationArgs {
    pub values: Vec<usize>,
}

/// An AST node as the evaluation-dispatch synthesizer sees it: a leaf
/// evaluates on its own; a union holds its active variant.
pub enum EvalNode {
    /// Evaluates to a fixed value.
    Literal(usize),
    /// Evaluates to the argument at the given position, or 0 past the end.
    Argument(usize),
    /// A closed tagged union: evaluation dispatches to the active variant.
    Union(Box<EvalNode>),
}

/// What a node evaluates to under the given arguments.
pub open spec fn spec_evaluate(n: EvalNode, args: Seq<usize>) -> usize
    decreases n,
{
    match n {
        EvalNode::Literal(v) => v,
        EvalNode::Argument(i) => if i < args.len() {
            args[i as int]
        } else {
            0
        },
        EvalNode::Union(variant) => spec_evaluate(*variant, args),
    }
}

impl EvalNode {
    /// Evaluates the node: a union dispatches unconditionally to its active
    /// variant, forwarding `args` unchanged.
    pub fn evaluate(&self, args: &EvaluationArgs) -> (r: usize)
        ensures
            r == spec_evaluate(*self, args.values@),
        decreases *self,
    {
        match self {
            EvalNode::Literal(v) => *v,
            EvalNode::Argument(i) => {
                if *i < args.values.len() {
                    args.values[*i]
                } else {
                    0
                }
            },
            EvalNode::Union(variant) => variant.evaluate(args),
        }
    }
}

/// Law: union dispatch is transparent — a union evaluates exactly as its
/// active variant does, on the same arguments.
pub proof fn lemma_union_dispatch(variant: EvalNode, args: Seq<usize>)
    ensures
        spec_evaluate(EvalNode::Union(Box::new(variant)), args) == spec_evaluate(variant, args),
{
}

} // verus!
