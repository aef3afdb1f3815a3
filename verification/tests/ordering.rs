use geocore::definition::{contains_entity, order, CompileContext, DefNode, DefValue};
use geocore::role::DefinitionParam;

fn record(order_override: Option<usize>, fields: Vec<DefValue>) -> DefNode {
    DefNode::Record { order_override, fields }
}

fn union(order_override: Option<usize>, fields: Vec<DefValue>) -> DefNode {
    DefNode::Union { order_override, fields }
}

/// Entities 0 and 1 whose own definitions declare orders 3 and 7.
fn ctx_two_entities() -> CompileContext {
    CompileContext {
        entities: vec![record(Some(3), vec![]), record(Some(7), vec![])],
    }
}

#[test]
fn order_of_single_entity_field() {
    let ctx = CompileContext { entities: vec![record(Some(5), vec![])] };
    let node = record(None, vec![DefValue::Entity(0)]);
    assert_eq!(order(&node, &ctx), 5);
}

#[test]
fn order_keeps_only_last_entity_field() {
    // Two Entity fields referencing entities of order 3 and 7, in that
    // declaration order: the earlier result is computed but discarded.
    let ctx = ctx_two_entities();
    let node = record(None, vec![DefValue::Entity(0), DefValue::Entity(1)]);
    assert_eq!(order(&node, &ctx), 7);
}

#[test]
fn order_without_entity_field_is_zero() {
    let ctx = ctx_two_entities();
    let node = record(None, vec![DefValue::NoEntity, DefValue::Order(9)]);
    assert_eq!(order(&node, &ctx), 0);
}

#[test]
fn order_override_wins_unconditionally() {
    let ctx = ctx_two_entities();
    let node = record(Some(42), vec![DefValue::Entity(0), DefValue::Entity(1)]);
    assert_eq!(order(&node, &ctx), 42);
}

#[test]
fn order_union_single_entity_resolves() {
    let ctx = ctx_two_entities();
    let node = union(None, vec![DefValue::NoEntity, DefValue::Entity(1)]);
    assert_eq!(order(&node, &ctx), 7);
}

#[test]
fn order_union_needs_exactly_one_entity() {
    let ctx = ctx_two_entities();
    let two = union(None, vec![DefValue::Entity(0), DefValue::Entity(1)]);
    assert_eq!(order(&two, &ctx), 0);
    let none = union(None, vec![DefValue::NoEntity]);
    assert_eq!(order(&none, &ctx), 0);
}

#[test]
fn order_union_override_applies_uniformly() {
    let ctx = ctx_two_entities();
    let node = union(Some(13), vec![DefValue::Entity(0)]);
    assert_eq!(order(&node, &ctx), 13);
}

#[test]
fn contains_direct_entity_reference() {
    let ctx = ctx_two_entities();
    let node = record(None, vec![DefValue::Entity(1)]);
    assert!(contains_entity(&node, 1, &ctx));
    assert!(!contains_entity(&node, 0, &ctx));
}

#[test]
fn contains_through_entity_table() {
    // Entity 1's own definition references entity 0, so a node holding
    // entity 1 contains entity 0 recursively.
    let ctx = CompileContext {
        entities: vec![record(Some(3), vec![]), record(None, vec![DefValue::Entity(0)])],
    };
    let node = record(None, vec![DefValue::Entity(1)]);
    assert!(contains_entity(&node, 0, &ctx));
}

#[test]
fn contains_record_ignores_non_entity_fields() {
    let ctx = ctx_two_entities();
    let inner = record(None, vec![DefValue::Entity(0)]);
    let node = record(None, vec![DefValue::Expression(Box::new(inner))]);
    assert!(!contains_entity(&node, 0, &ctx));
}

#[test]
fn contains_sequence_any_element() {
    // A Sequence-role field holding two sub-definitions, one containing the
    // entity and one not.
    let ctx = ctx_two_entities();
    let with_e = record(None, vec![DefValue::Entity(0)]);
    let without = record(None, vec![DefValue::NoEntity]);
    let node = union(None, vec![DefValue::Sequence(vec![with_e, without])]);
    assert!(contains_entity(&node, 0, &ctx));
    assert!(!contains_entity(&node, 1, &ctx));
}

#[test]
fn contains_empty_sequence_is_false() {
    let ctx = ctx_two_entities();
    let node = union(None, vec![DefValue::Sequence(vec![])]);
    assert!(!contains_entity(&node, 0, &ctx));
}

#[test]
fn contains_union_role_traversal() {
    let ctx = ctx_two_entities();
    let inner = || record(None, vec![DefValue::Entity(0)]);
    let through_variable = union(None, vec![DefValue::Variable(Box::new(inner()))]);
    assert!(contains_entity(&through_variable, 0, &ctx));
    let through_map = union(None, vec![DefValue::Mapping(vec![(4, inner())])]);
    assert!(contains_entity(&through_map, 0, &ctx));
    let through_default = union(None, vec![DefValue::Expression(Box::new(inner()))]);
    assert!(contains_entity(&through_default, 0, &ctx));
    let inert = union(None, vec![DefValue::NoEntity, DefValue::Order(7)]);
    assert!(!contains_entity(&inert, 0, &ctx));
}

#[test]
fn role_annotation_parses() {
    assert_eq!(DefinitionParam::parse("entity"), Some(DefinitionParam::Entity));
    assert_eq!(DefinitionParam::parse("no_entity"), Some(DefinitionParam::NoEntity));
    assert_eq!(DefinitionParam::parse("variable"), Some(DefinitionParam::Variable));
    assert_eq!(DefinitionParam::parse("sequence"), Some(DefinitionParam::Sequence));
    assert_eq!(DefinitionParam::parse("map"), Some(DefinitionParam::Mapping));
    assert_eq!(DefinitionParam::parse("order(5)"), Some(DefinitionParam::Order(5)));
    assert_eq!(DefinitionParam::parse("order(120)"), Some(DefinitionParam::Order(120)));
}

#[test]
fn role_annotation_rejects_malformed() {
    assert_eq!(DefinitionParam::parse("bogus"), None);
    assert_eq!(DefinitionParam::parse("order()"), None);
    assert_eq!(DefinitionParam::parse("order(x)"), None);
    assert_eq!(DefinitionParam::parse("order(5"), None);
    assert_eq!(DefinitionParam::parse(""), None);
}

#[test]
fn role_default_is_expression() {
    assert_eq!(
        DefinitionParam::from_annotation(None),
        Some(DefinitionParam::Expression)
    );
    assert_eq!(
        DefinitionParam::from_annotation(Some("entity")),
        Some(DefinitionParam::Entity)
    );
}

#[test]
fn role_is_entity() {
    assert!(DefinitionParam::Entity.is_entity());
    assert!(!DefinitionParam::Variable.is_entity());
    assert!(!DefinitionParam::Order(3).is_entity());
}

#[test]
fn field_value_role() {
    assert_eq!(DefValue::Entity(2).param(), DefinitionParam::Entity);
    assert_eq!(DefValue::Order(4).param(), DefinitionParam::Order(4));
    assert_eq!(
        DefValue::Expression(Box::new(record(None, vec![]))).param(),
        DefinitionParam::Expression
    );
}
