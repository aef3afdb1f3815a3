use geocore::definition::{CompileContext, DefNode};
use geocore::evaluate::{EvalNode, EvaluationArgs};
use geocore::overload::{
    build_function_overload, build_rule_overload, convert, overload, AnyExpr, DisplayInfo,
    EmittedOverload, UserFn,
};
use geocore::parser::{parse_overload_str, GType, OverloadInput, SimpleType};

fn empty_ctx() -> CompileContext {
    CompileContext { entities: vec![] }
}

fn display(label: usize) -> DisplayInfo {
    DisplayInfo { label }
}

fn val(ty: GType, data: usize) -> AnyExpr {
    AnyExpr { ty, data }
}

fn scalar() -> GType {
    GType::Simple(SimpleType::Scalar)
}

fn distance() -> GType {
    GType::Simple(SimpleType::Distance)
}

fn point() -> GType {
    GType::Simple(SimpleType::Point)
}

fn parse_function(text: &str) -> geocore::parser::OverloadFunction {
    match parse_overload_str(text).unwrap() {
        OverloadInput::Function(f) => f,
        OverloadInput::Rule(_) => panic!("expected a function overload"),
    }
}

fn parse_rule(text: &str) -> geocore::parser::OverloadRule {
    match parse_overload_str(text).unwrap() {
        OverloadInput::Rule(r) => r,
        OverloadInput::Function(_) => panic!("expected a rule overload"),
    }
}

#[test]
fn evaluate_union_dispatches_unchanged() {
    let args = EvaluationArgs { values: vec![5, 6] };
    let node = EvalNode::Union(Box::new(EvalNode::Union(Box::new(EvalNode::Argument(1)))));
    assert_eq!(node.evaluate(&args), 6);
    assert_eq!(EvalNode::Literal(42).evaluate(&args), 42);
    assert_eq!(EvalNode::Argument(9).evaluate(&args), 0);
}

#[test]
fn convert_within_scalar_family() {
    let c = convert(&val(distance(), 8), &scalar()).unwrap();
    assert_eq!(c.ty, scalar());
    assert_eq!(c.data, 8);
}

#[test]
fn convert_rejects_incompatible_types() {
    assert_eq!(convert(&val(point(), 8), &scalar()), None);
    assert_eq!(convert(&val(point(), 8), &GType::Collection(3)), None);
}

#[test]
fn convert_identity_on_equal_types() {
    let bundle = GType::Bundle("Segment".to_string());
    let c = convert(&val(bundle.clone(), 3), &bundle).unwrap();
    assert_eq!(c.ty, bundle);
    assert_eq!(c.data, 3);
}

#[test]
fn invoke_function_wraps_user_result() {
    // Two convertible arguments, no variadic group: the wrapped function is
    // called once with both converted values plus context and display, and
    // its result comes back in the uniform envelope under the declared
    // return type.
    let spec = parse_function("(SCALAR, SCALAR) -> SCALAR : add");
    let overload = build_function_overload(spec, UserFn::SumArgs);
    let args = vec![val(distance(), 10), val(scalar(), 32)];
    let r = overload.invoke(&args, &empty_ctx(), &display(0));
    assert_eq!(r.ty, scalar());
    assert_eq!(r.data, 42);
}

#[test]
fn invoke_function_converts_fixed_arguments() {
    // The user function sees the converted value: the first argument comes
    // in under the declared SCALAR parameter type with its payload intact.
    let spec = parse_function("(SCALAR) -> SCALAR : first");
    let overload = build_function_overload(spec, UserFn::FirstArg);
    let r = overload.invoke(&vec![val(distance(), 8)], &empty_ctx(), &display(0));
    assert_eq!(r.ty, scalar());
    assert_eq!(r.data, 8);
}

#[test]
fn invoke_function_collects_variadic_group() {
    let spec = parse_function("(POINT, ...SCALAR) -> SCALAR : count");
    let overload = build_function_overload(spec, UserFn::CountArgs);
    let args = vec![
        val(point(), 1),
        val(distance(), 2),
        val(scalar(), 3),
        val(distance(), 4),
    ];
    let r = overload.invoke(&args, &empty_ctx(), &display(0));
    assert_eq!(r.data, 4);
    let sum = build_function_overload(
        parse_function("(POINT, ...SCALAR) -> SCALAR : sum"),
        UserFn::SumArgs,
    );
    assert_eq!(sum.invoke(&args, &empty_ctx(), &display(0)).data, 10);
}

#[test]
fn invoke_function_threads_display_and_context() {
    let labeled = build_function_overload(
        parse_function("() -> SCALAR : label"),
        UserFn::DisplayLabel,
    );
    assert_eq!(labeled.invoke(&vec![], &empty_ctx(), &display(17)).data, 17);

    let counting = build_function_overload(
        parse_function("() -> SCALAR : entities"),
        UserFn::EntityCount,
    );
    let ctx = CompileContext {
        entities: vec![
            DefNode::Record { order_override: Some(1), fields: vec![] },
            DefNode::Record { order_override: Some(2), fields: vec![] },
        ],
    };
    assert_eq!(counting.invoke(&vec![], &ctx, &display(0)).data, 2);
}

#[test]
fn invoke_function_keeps_signature() {
    let spec = parse_function("(POINT, ...3-P) -> SCALAR : f");
    let overload = build_function_overload(spec, UserFn::ConstFn(7));
    assert_eq!(overload.params, vec![point()]);
    assert_eq!(overload.param_group, Some(GType::Collection(3)));
    assert_eq!(overload.returned_type, scalar());
    let r = overload.invoke(
        &vec![val(point(), 0), val(GType::Collection(3), 1)],
        &empty_ctx(),
        &display(0),
    );
    assert_eq!(r.data, 7);
    assert_eq!(r.ty, scalar());
}

#[test]
fn invoke_rule_converts_both_operands() {
    let spec = parse_rule("DISTANCE lt SCALAR : cmp");
    let overload = build_rule_overload(spec, UserFn::SumArgs);
    assert_eq!(overload.params.0, distance());
    assert_eq!(overload.params.1, scalar());
    let r = overload.invoke(
        &val(scalar(), 2),
        &val(distance(), 3),
        &empty_ctx(),
        &display(0),
    );
    assert_eq!(r, 5);
}

#[test]
fn invoke_rule_returns_result_directly() {
    let spec = parse_rule("POINT eq POINT : eq_fn");
    let overload = build_rule_overload(spec, UserFn::ConstFn(1));
    let r = overload.invoke(
        &val(point(), 9),
        &val(point(), 9),
        &empty_ctx(),
        &display(0),
    );
    assert_eq!(r, 1);
}

#[test]
fn overload_compiles_text_to_record() {
    match overload("(SCALAR, SCALAR) -> SCALAR : add", UserFn::SumArgs).unwrap() {
        EmittedOverload::Function(o) => {
            assert_eq!(o.params, vec![scalar(), scalar()]);
            assert_eq!(o.returned_type, scalar());
            let r = o.invoke(
                &vec![val(scalar(), 1), val(scalar(), 2)],
                &empty_ctx(),
                &display(0),
            );
            assert_eq!(r.data, 3);
        }
        EmittedOverload::Rule(_) => panic!("expected a function overload"),
    }
    match overload("POINT eq POINT : eq_fn", UserFn::ConstFn(9)).unwrap() {
        EmittedOverload::Rule(o) => {
            assert_eq!(o.params.0, point());
            assert_eq!(o.params.1, point());
        }
        EmittedOverload::Function(_) => panic!("expected a rule overload"),
    }
    assert!(overload("POINT eq", UserFn::ConstFn(0)).is_none());
}

#[test]
fn sum_of_payloads_saturates() {
    let spec = parse_function("(SCALAR, SCALAR) -> SCALAR : add");
    let overload = build_function_overload(spec, UserFn::SumArgs);
    let args = vec![val(scalar(), usize::MAX), val(scalar(), 3)];
    let r = overload.invoke(&args, &empty_ctx(), &display(0));
    assert_eq!(r.data, usize::MAX);
}
