use geocore::parser::{
    parse_overload, parse_overload_str, GType, OverloadInput, SimpleType,
};
use geocore::token::{tokenize, Token};

fn point() -> GType {
    GType::Simple(SimpleType::Point)
}

fn scalar() -> GType {
    GType::Simple(SimpleType::Scalar)
}

#[test]
fn tokenize_punctuation_and_atoms() {
    let toks = tokenize("(POINT, ...3-P) -> SCALAR : f").unwrap();
    assert_eq!(
        toks,
        vec![
            Token::LParen,
            Token::Ident("POINT".to_string()),
            Token::Comma,
            Token::Ellipsis,
            Token::Int(3),
            Token::Minus,
            Token::Ident("P".to_string()),
            Token::RParen,
            Token::Arrow,
            Token::Ident("SCALAR".to_string()),
            Token::Colon,
            Token::Ident("f".to_string()),
        ]
    );
}

#[test]
fn tokenize_rejects_unknown_character() {
    assert_eq!(tokenize("(POINT) -> SCALAR : %"), None);
}

#[test]
fn tokenize_rejects_huge_integer() {
    assert_eq!(tokenize("99999999999999999999999999999-P"), None);
}

#[test]
fn parse_function_two_points() {
    // "(POINT, POINT) -> SCALAR { dist_fn }": params POINT, POINT, no
    // variadic group, return type SCALAR.
    let parsed = parse_overload_str("(POINT, POINT) -> SCALAR { dist_fn }").unwrap();
    match parsed {
        OverloadInput::Function(f) => {
            assert_eq!(f.params, vec![point(), point()]);
            assert_eq!(f.param_group, None);
            assert_eq!(f.return_type, scalar());
            assert_eq!(f.func, "dist_fn");
        }
        OverloadInput::Rule(_) => panic!("expected a function overload"),
    }
}

#[test]
fn parse_rule_infix() {
    // "POINT eq POINT : eq_fn": a rule overload with lhs = POINT and
    // rhs = POINT.
    let parsed = parse_overload_str("POINT eq POINT : eq_fn").unwrap();
    match parsed {
        OverloadInput::Rule(r) => {
            assert_eq!(r.lhs, point());
            assert_eq!(r.rhs, point());
            assert_eq!(r.func, "eq_fn");
        }
        OverloadInput::Function(_) => panic!("expected a rule overload"),
    }
}

#[test]
fn parse_variadic_group() {
    // "(POINT, ...3-P) -> SCALAR : f": params [POINT] and variadic group
    // Collection(3).
    let parsed = parse_overload_str("(POINT, ...3-P) -> SCALAR : f").unwrap();
    match parsed {
        OverloadInput::Function(f) => {
            assert_eq!(f.params, vec![point()]);
            assert_eq!(f.param_group, Some(GType::Collection(3)));
            assert_eq!(f.return_type, scalar());
            assert_eq!(f.func, "f");
        }
        OverloadInput::Rule(_) => panic!("expected a function overload"),
    }
}

#[test]
fn parse_empty_params_and_bundle() {
    let parsed = parse_overload_str("() -> Segment : make_segment").unwrap();
    match parsed {
        OverloadInput::Function(f) => {
            assert_eq!(f.params, vec![]);
            assert_eq!(f.param_group, None);
            assert_eq!(f.return_type, GType::Bundle("Segment".to_string()));
            assert_eq!(f.func, "make_segment");
        }
        OverloadInput::Rule(_) => panic!("expected a function overload"),
    }
}

#[test]
fn parse_all_simple_types() {
    let parsed =
        parse_overload_str("(DISTANCE, ANGLE, SCALAR, LINE, CIRCLE) -> POINT : g").unwrap();
    match parsed {
        OverloadInput::Function(f) => {
            assert_eq!(
                f.params,
                vec![
                    GType::Simple(SimpleType::Distance),
                    GType::Simple(SimpleType::Angle),
                    GType::Simple(SimpleType::Scalar),
                    GType::Simple(SimpleType::Line),
                    GType::Simple(SimpleType::Circle),
                ]
            );
            assert_eq!(f.return_type, point());
        }
        OverloadInput::Rule(_) => panic!("expected a function overload"),
    }
}

#[test]
fn parse_rule_collection_operand() {
    let parsed = parse_overload_str("3-P lies_on CIRCLE : all_on").unwrap();
    match parsed {
        OverloadInput::Rule(r) => {
            assert_eq!(r.lhs, GType::Collection(3));
            assert_eq!(r.rhs, GType::Simple(SimpleType::Circle));
            assert_eq!(r.func, "all_on");
        }
        OverloadInput::Function(_) => panic!("expected a rule overload"),
    }
}

#[test]
fn parse_rejects_missing_arrow() {
    assert_eq!(parse_overload_str("(POINT) SCALAR : f"), None);
}

#[test]
fn parse_rejects_unmatched_ellipsis() {
    assert_eq!(parse_overload_str("(POINT, ...) -> SCALAR : f"), None);
}

#[test]
fn parse_rejects_malformed_collection() {
    assert_eq!(parse_overload_str("(3-Q) -> SCALAR : f"), None);
    assert_eq!(parse_overload_str("(0-P) -> SCALAR : f"), None);
}

#[test]
fn parse_rejects_missing_body() {
    assert_eq!(parse_overload_str("(POINT) -> SCALAR"), None);
    assert_eq!(parse_overload_str("(POINT) -> SCALAR { }"), None);
}

#[test]
fn parse_rejects_trailing_tokens() {
    assert_eq!(parse_overload_str("POINT eq POINT : eq_fn extra"), None);
}

#[test]
fn parse_from_token_stream() {
    let toks = tokenize("POINT eq POINT : eq_fn").unwrap();
    let parsed = parse_overload(&toks).unwrap();
    assert!(matches!(parsed, OverloadInput::Rule(_)));
}

#[test]
fn render_gtype_tokens() {
    let mut toks = Vec::new();
    GType::Simple(SimpleType::Point).to_tokens(&mut toks);
    GType::Collection(3).to_tokens(&mut toks);
    GType::Bundle("Segment".to_string()).to_tokens(&mut toks);
    assert_eq!(
        toks,
        vec![
            Token::Ident("POINT".to_string()),
            Token::Int(3),
            Token::Minus,
            Token::Ident("P".to_string()),
            Token::Ident("Segment".to_string()),
        ]
    );
}

#[test]
fn rendered_type_parses_back() {
    let mut toks = vec![Token::LParen];
    GType::Collection(4).to_tokens(&mut toks);
    toks.push(Token::RParen);
    toks.push(Token::Arrow);
    GType::Simple(SimpleType::Scalar).to_tokens(&mut toks);
    toks.push(Token::Colon);
    toks.push(Token::Ident("f".to_string()));
    match parse_overload(&toks).unwrap() {
        OverloadInput::Function(f) => {
            assert_eq!(f.params, vec![GType::Collection(4)]);
            assert_eq!(f.return_type, GType::Simple(SimpleType::Scalar));
        }
        OverloadInput::Rule(_) => panic!("expected a function overload"),
    }
}

#[test]
fn parse_trailing_comma_params() {
    // A comma may close the parameter list: the loop stops when no further
    // type atom follows.
    let parsed = parse_overload_str("(POINT,) -> SCALAR : f").unwrap();
    match parsed {
        OverloadInput::Function(f) => {
            assert_eq!(f.params, vec![point()]);
            assert_eq!(f.param_group, None);
        }
        OverloadInput::Rule(_) => panic!("expected a function overload"),
    }
}
