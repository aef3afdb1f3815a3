use geocore::kind::{KindField, KindNode, WeighFn};
use geocore::weights::Weights;

fn leaf(indices: Vec<usize>) -> KindNode {
    KindNode::Leaf { indices, trivial: false, weight: Weights { raw: 0 } }
}

fn field(node: KindNode, skip: bool, weight: u64, weigh_with: Option<WeighFn>) -> KindField {
    KindField { node, skip_collecting: skip, weight: Weights { raw: weight }, weigh_with }
}

#[test]
fn collect_skips_marked_field() {
    let record = KindNode::Record {
        trivial: false,
        fields: vec![
            field(leaf(vec![1, 2]), false, 0, None),
            field(leaf(vec![3]), true, 0, None),
            field(leaf(vec![4]), false, 0, None),
        ],
    };
    let mut exprs = Vec::new();
    record.collect(&mut exprs);
    assert_eq!(exprs, vec![1, 2, 4]);
}

#[test]
fn collect_appends_after_existing() {
    let node = leaf(vec![7, 8]);
    let mut exprs = vec![5];
    node.collect(&mut exprs);
    assert_eq!(exprs, vec![5, 7, 8]);
}

#[test]
fn collect_union_dispatches_to_variant() {
    let record = KindNode::Record {
        trivial: false,
        fields: vec![field(leaf(vec![9]), false, 0, None)],
    };
    let union = KindNode::Union { variant: Box::new(record) };
    let mut exprs = Vec::new();
    union.collect(&mut exprs);
    assert_eq!(exprs, vec![9]);
}

#[test]
fn trivial_is_declared_not_computed() {
    let record = KindNode::Record {
        trivial: true,
        fields: vec![field(leaf(vec![1]), false, 0, None)],
    };
    assert!(record.is_trivial());
    let plain = KindNode::Record { trivial: false, fields: vec![] };
    assert!(!plain.is_trivial());
    let union = KindNode::Union { variant: Box::new(record) };
    assert!(union.is_trivial());
}

#[test]
fn weights_combine_fields_with_custom_weighing() {
    // w1 = 2 from the field itself, w2 = 5 from a custom weighing function,
    // w3 = 7 from the field itself: the aggregate is 2 + 5 + 7.
    let record = KindNode::Record {
        trivial: false,
        fields: vec![
            field(leaf(vec![]), false, 2, None),
            field(leaf(vec![]), false, 100, Some(WeighFn::Constant(Weights { raw: 5 }))),
            field(leaf(vec![]), false, 7, None),
        ],
    };
    assert_eq!(record.evaluate_weights(), Weights { raw: 14 });
}

#[test]
fn weights_zero_and_doubled_weighing() {
    let record = KindNode::Record {
        trivial: false,
        fields: vec![
            field(leaf(vec![]), false, 3, Some(WeighFn::Doubled)),
            field(leaf(vec![]), false, 50, Some(WeighFn::Zero)),
        ],
    };
    assert_eq!(record.evaluate_weights(), Weights { raw: 6 });
}

#[test]
fn weights_union_dispatches() {
    let record = KindNode::Record {
        trivial: false,
        fields: vec![field(leaf(vec![]), false, 11, None)],
    };
    let union = KindNode::Union { variant: Box::new(record) };
    assert_eq!(union.evaluate_weights(), Weights { raw: 11 });
}

#[test]
fn weights_combine_saturates() {
    let a = Weights { raw: u64::MAX - 1 };
    let b = Weights { raw: 5 };
    assert_eq!(a.combine(b), Weights { raw: u64::MAX });
    assert_eq!(Weights::empty().combine(a), a);
    assert_eq!(Weights { raw: 2 }.combine(Weights { raw: 3 }), Weights { raw: 5 });
}
