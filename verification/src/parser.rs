//! Parser for the textual overload mini-language.
//!
//! An overload is either a rule — a bare type, an infix operator name
//! (accepted as opaque text), a second type, `:` and the implementing
//! function name — or a function — a parenthesized parameter list of types,
//! optionally closed by `...` and one trailing variadic element type, then
//! `->`, a return type, and the implementing function name after `:` or in
//! braces. A type atom is one of the six simple type names, an integer
//! collection form `N-P` with N at least 1, or any other identifier naming a
//! bundle. A malformed token sequence is a build-time fatal error: no
//! partial output is produced.

use vstd::prelude::*;
use vstd::string::StringExecFns;

use crate::token::Token;
use crate::token::TokenModel;
use crate::token::spec_tokenize;
use crate::token::tokenize;
use crate::token::tokens_view;

verus! {

/// The fixed six-member simple type vocabulary.
#[derive(Clone, Copy, Debug, PartialEq, Eq, Structural)]
pub enum SimpleType {
    Distance,
    Angle,
    Scalar,
    Point,
    Line,
    Circle,
}

/// One type of the overload vocabulary. Equality is structural.
#[derive(Debug, Clone, PartialEq, Eq)]
pub enum GType {
    /// One of the six simple type names.
    Simple(SimpleType),
    /// A fixed-arity collection of points, arity at least 1.
    Collection(usize),
    /// A named composite type: any identifier outside the simple set.
    Bundle(String),
}

/// The mathematical shape of a type.
pub enum GTypeModel {
    Simple(SimpleType),
    Collection(usize),
    Bundle(Seq<char>),
}

impl View for GType {
    type V = GTypeModel;

    open spec fn view(&self) -> GTypeModel {
        match self {
            GType::Simple(st) => GTypeModel::Simple(*st),
            GType::Collection(n) => GTypeModel::Collection(*n),
            GType::Bundle(name) => GTypeModel::Bundle(name@),
        }
    }
}

/// The views of a sequence of types.
pub open spec fn gtypes_view(gs: Seq<GType>) -> Seq<GTypeModel> {
    gs.map_values(|g: GType| g@)
}

/// The view of an optional type.
pub open spec fn opt_gtype_view(o: Option<GType>) -> Option<GTypeModel> {
    match o {
        None => None,
        Some(g) => Some(g@),
    }
}

/// A parsed function overload specification: fixed parameters in order, an
/// optional trailing variadic group type, the return type, and the
/// implementing function's name.
#[derive(Debug, Clone, PartialEq, Eq)]
pub struct OverloadFunction {
    pub params: Vec<GType>,
    pub param_group: Option<GType>,
    pub return_type: GType,
    pub func: String,
}

/// A parsed rule overload specification: the two operand types and the
/// implementing function's name.
#[derive(Debug, Clone, PartialEq, Eq)]
pub struct OverloadRule {
    pub lhs: GType,
    pub rhs: GType,
    pub func: String,
}

/// A parsed overload: a function or a rule.
#[derive(Debug, Clone, PartialEq, Eq)]
pub enum OverloadInput {
    Function(OverloadFunction),
    Rule(OverloadRule),
}

/// The mathematical shape of a parsed function overload.
pub struct OverloadFunctionModel {
    pub params: Seq<GTypeModel>,
    pub param_group: Option<GTypeModel>,
    pub return_type: GTypeModel,
    pub func: Seq<char>,
}

/// The mathematical shape of a parsed rule overload.
pub struct OverloadRuleModel {
    pub lhs: GTypeModel,
    pub rhs: GTypeModel,
    pub func: Seq<char>,
}

/// The mathematical shape of a parsed overload.
pub enum OverloadInputModel {
    Function(OverloadFunctionModel),
    Rule(OverloadRuleModel),
}

impl View for OverloadFunction {
    type V = OverloadFunctionModel;

    open spec fn view(&self) -> OverloadFunctionModel {
        OverloadFunctionModel {
            params: gtypes_view(self.params@),
            param_group: opt_gtype_view(self.param_group),
            return_type: self.return_type@,
            func: self.func@,
        }
    }
}

impl View for OverloadRule {
    type V = OverloadRuleModel;

    open spec fn view(&self) -> OverloadRuleModel {
        OverloadRuleModel { lhs: self.lhs@, rhs: self.rhs@, func: self.func@ }
    }
}

impl View for OverloadInput {
    type V = OverloadInputModel;

    open spec fn view(&self) -> OverloadInputModel {
        match self {
            OverloadInput::Function(f) => OverloadInputModel::Function(f@),
            OverloadInput::Rule(r) => OverloadInputModel::Rule(r@),
        }
    }
}

/// The name denoting a simple type.
pub open spec fn simple_name(st: SimpleType) -> Seq<char> {
    match st {
        SimpleType::Distance => "DISTANCE"@,
        SimpleType::Angle => "ANGLE"@,
        SimpleType::Scalar => "SCALAR"@,
        SimpleType::Point => "POINT"@,
        SimpleType::Line => "LINE"@,
        SimpleType::Circle => "CIRCLE"@,
    }
}

/// The surface token sequence denoting a type: the simple type's name, the
/// collection form `N-P`, or the bundle's name.
pub open spec fn gtype_tokens(t: GTypeModel) -> Seq<TokenModel> {
    match t {
        GTypeModel::Simple(st) => seq![TokenModel::Ident(simple_name(st))],
        GTypeModel::Collection(n) => seq![
            TokenModel::Int(n),
            TokenModel::Minus,
            TokenModel::Ident("P"@),
        ],
        GTypeModel::Bundle(name) => seq![TokenModel::Ident(name)],
    }
}

/// The simple type a name denotes, if any.
pub open spec fn simple_of(name: Seq<char>) -> Option<SimpleType> {
    if name == "DISTANCE"@ {
        Some(SimpleType::Distance)
    } else if name == "ANGLE"@ {
        Some(SimpleType::Angle)
    } else if name == "SCALAR"@ {
        Some(SimpleType::Scalar)
    } else if name == "POINT"@ {
        Some(SimpleType::Point)
    } else if name == "LINE"@ {
        Some(SimpleType::Line)
    } else if name == "CIRCLE"@ {
        Some(SimpleType::Circle)
    } else {
        None
    }
}

impl GType {
    /// Renders this type's surface form, appending its tokens to `tokens`.
    pub fn to_tokens(&self, tokens: &mut Vec<Token>)
        ensures
            tokens_view(final(tokens)@) == tokens_view(old(tokens)@) + gtype_tokens(self@),
    {
        let ghost pre = tokens@;
        match self {
            GType::Simple(st) => {
                let name = match st {
                    SimpleType::Distance => String::from_str("DISTANCE"),
                    SimpleType::Angle => String::from_str("ANGLE"),
                    SimpleType::Scalar => String::from_str("SCALAR"),
                    SimpleType::Point => String::from_str("POINT"),
                    SimpleType::Line => String::from_str("LINE"),
                    SimpleType::Circle => String::from_str("CIRCLE"),
                };
                tokens.push(Token::Ident(name));
            },
            GType::Collection(n) => {
                tokens.push(Token::Int(*n));
                tokens.push(Token::Minus);
                tokens.push(Token::Ident(String::from_str("P")));
            },
            GType::Bundle(name) => {
                tokens.push(Token::Ident(name.clone()));
            },
        }
        proof {
            assert(tokens_view(tokens@) =~= tokens_view(pre) + gtype_tokens(self@));
        }
    }
}

/// A type is well-formed for rendering: a collection has arity at least 1
/// and a bundle's name denotes no simple type.
pub open spec fn gtype_wf(t: GTypeModel) -> bool {
    match t {
        GTypeModel::Simple(_) => true,
        GTypeModel::Collection(n) => n >= 1,
        GTypeModel::Bundle(name) => simple_of(name) is None,
    }
}

/// Law: rendering and parsing are inverse — parsing a well-formed type's
/// surface token sequence yields exactly that type, consuming every token.
pub proof fn lemma_gtype_round_trip(t: GTypeModel)
    requires
        gtype_wf(t),
    ensures
        spec_parse_gtype(gtype_tokens(t), 0) == Some((t, gtype_tokens(t).len() as int)),
{
    reveal_strlit("DISTANCE");
    reveal_strlit("ANGLE");
    reveal_strlit("SCALAR");
    reveal_strlit("POINT");
    reveal_strlit("LINE");
    reveal_strlit("CIRCLE");
    reveal_strlit("P");
    assert("DISTANCE"@.len() == 8);
    assert("ANGLE"@.len() == 5);
    assert("SCALAR"@.len() == 6);
    assert("POINT"@.len() == 5);
    assert("LINE"@.len() == 4);
    assert("CIRCLE"@.len() == 6);
    assert("P"@.len() == 1);
    assert("POINT"@[0] == 'P' && "ANGLE"@[0] == 'A');
    assert("CIRCLE"@[0] == 'C' && "SCALAR"@[0] == 'S');
    match t {
        GTypeModel::Simple(st) => {
            match st {
                SimpleType::Distance => assert(simple_of("DISTANCE"@) == Some(st)),
                SimpleType::Angle => assert(simple_of("ANGLE"@) == Some(st)),
                SimpleType::Scalar => assert(simple_of("SCALAR"@) == Some(st)),
                SimpleType::Point => assert(simple_of("POINT"@) == Some(st)),
                SimpleType::Line => assert(simple_of("LINE"@) == Some(st)),
                SimpleType::Circle => assert(simple_of("CIRCLE"@) == Some(st)),
            }
        },
        GTypeModel::Collection(n) => {
            assert(simple_of("P"@) is None);
        },
        GTypeModel::Bundle(name) => {
        },
    }
}

/// The type atom starting at position `i`, with the position just past it:
/// an identifier is a simple type or a bundle; an integer must be followed
/// by `-` and `P` and be at least 1 to form a collection; anything else
/// starts no type.
pub open spec fn spec_parse_gtype(ts: Seq<TokenModel>, i: int) -> Option<(GTypeModel, int)> {
    if 0 <= i < ts.len() {
        match ts[i] {
            TokenModel::Ident(name) => match simple_of(name) {
                Some(st) => Some((GTypeModel::Simple(st), i + 1)),
                None => Some((GTypeModel::Bundle(name), i + 1)),
            },
            TokenModel::Int(n) => if i + 2 < ts.len() && ts[i + 1] is Minus && (ts[i + 2] matches
                TokenModel::Ident(p) && p == "P"@) && n >= 1 {
                Some((GTypeModel::Collection(n), i + 3))
            } else {
                None
            },
            _ => None,
        }
    } else {
        None
    }
}

/// A parsed type atom lies within the stream and advances the position.
pub proof fn lemma_parse_gtype_advances(ts: Seq<TokenModel>, i: int)
    ensures
        spec_parse_gtype(ts, i) matches Some(gj) ==> i < gj.1 <= ts.len(),
{
}

/// The comma-separated list of type atoms starting at position `i`, with
/// the position where the list stops: at the first position holding no type
/// atom, or after a type atom not followed by a comma.
pub open spec fn spec_parse_params(ts: Seq<TokenModel>, i: int) -> (Seq<GTypeModel>, int)
    decreases ts.len() - i
        when 0 <= i <= ts.len()
{
    match spec_parse_gtype(ts, i) {
        None => (Seq::empty(), i),
        Some((g, j)) => {
            proof {
                lemma_parse_gtype_advances(ts, i);
            }
            if j < ts.len() && ts[j] is Comma {
                let (rest, k) = spec_parse_params(ts, j + 1);
                (seq![g] + rest, k)
            } else {
                (seq![g], j)
            }
        },
    }
}

/// The parameter list stops within the stream.
pub proof fn lemma_parse_params_bounds(ts: Seq<TokenModel>, i: int)
    requires
        0 <= i <= ts.len(),
    ensures
        i <= spec_parse_params(ts, i).1 <= ts.len(),
    decreases ts.len() - i,
{
    match spec_parse_gtype(ts, i) {
        None => {},
        Some((g, j)) => {
            lemma_parse_gtype_advances(ts, i);
            if j < ts.len() && ts[j] is Comma {
                lemma_parse_params_bounds(ts, j + 1);
            }
        },
    }
}

/// The end of the parameter list: either a closing parenthesis, or `...`,
/// one variadic element type, and the closing parenthesis; yields the
/// optional variadic group type and the position just past `)`.
pub open spec fn spec_parse_group(ts: Seq<TokenModel>, i: int) -> Option<
    (Option<GTypeModel>, int),
> {
    if 0 <= i < ts.len() && ts[i] is RParen {
        Some((None, i + 1))
    } else if 0 <= i < ts.len() && ts[i] is Ellipsis {
        match spec_parse_gtype(ts, i + 1) {
            Some((g, j)) => if j < ts.len() && ts[j] is RParen {
                Some((Some(g), j + 1))
            } else {
                None
            },
            None => None,
        }
    } else {
        None
    }
}

/// The implementing function name closing a function overload: either `:`
/// and an identifier, or an identifier in braces; it must end the stream.
pub open spec fn spec_parse_func_body(ts: Seq<TokenModel>, m: int) -> Option<Seq<char>> {
    if m >= 0 && m + 2 == ts.len() && ts[m] is Colon && ts[m + 1] is Ident {
        Some(ts[m + 1]->Ident_0)
    } else if m >= 0 && m + 3 == ts.len() && ts[m] is LBrace && ts[m + 1] is Ident && ts[m
        + 2] is RBrace {
        Some(ts[m + 1]->Ident_0)
    } else {
        None
    }
}

/// The rule overload continuing after a leading type atom: an infix
/// operator identifier (opaque text, not further validated), a second type
/// atom, `:` and the implementing function name ending the stream.
pub open spec fn spec_parse_rule_tail(ts: Seq<TokenModel>, lhs: GTypeModel, i: int) -> Option<
    OverloadInputModel,
> {
    if 0 <= i < ts.len() && ts[i] is Ident {
        match spec_parse_gtype(ts, i + 1) {
            Some((rhs, j)) => if j + 2 == ts.len() && ts[j] is Colon && ts[j + 1] is Ident {
                Some(
                    OverloadInputModel::Rule(
                        OverloadRuleModel { lhs, rhs, func: ts[j + 1]->Ident_0 },
                    ),
                )
            } else {
                None
            },
            None => None,
        }
    } else {
        None
    }
}

/// The function overload: a parenthesized parameter list with an optional
/// variadic group, `->`, the return type, and the implementing function
/// name ending the stream.
pub open spec fn spec_parse_function(ts: Seq<TokenModel>) -> Option<OverloadInputModel> {
    if ts.len() > 0 && ts[0] is LParen {
        let pk = spec_parse_params(ts, 1);
        match spec_parse_group(ts, pk.1) {
            Some((group, k)) => if k < ts.len() && ts[k] is Arrow {
                match spec_parse_gtype(ts, k + 1) {
                    Some((ret, m)) => match spec_parse_func_body(ts, m) {
                        Some(f) => Some(
                            OverloadInputModel::Function(
                                OverloadFunctionModel {
                                    params: pk.0,
                                    param_group: group,
                                    return_type: ret,
                                    func: f,
                                },
                            ),
                        ),
                        None => None,
                    },
                    None => None,
                }
            } else {
                None
            },
            None => None,
        }
    } else {
        None
    }
}

/// The overload a token stream denotes: a rule if the stream starts with a
/// bare type atom, else a function; or nothing if the stream is malformed.
pub open spec fn spec_parse_overload(ts: Seq<TokenModel>) -> Option<OverloadInputModel> {
    match spec_parse_gtype(ts, 0) {
        Some((lhs, i)) => spec_parse_rule_tail(ts, lhs, i),
        None => spec_parse_function(ts),
    }
}

/// Decides which simple type a name denotes, if any.
fn exec_simple_of(name: &String) -> (r: Option<SimpleType>)
    ensures
        r == simple_of(name@),
{
    if *name == String::from_str("DISTANCE") {
        Some(SimpleType::Distance)
    } else if *name == String::from_str("ANGLE") {
        Some(SimpleType::Angle)
    } else if *name == String::from_str("SCALAR") {
        Some(SimpleType::Scalar)
    } else if *name == String::from_str("POINT") {
        Some(SimpleType::Point)
    } else if *name == String::from_str("LINE") {
        Some(SimpleType::Line)
    } else if *name == String::from_str("CIRCLE") {
        Some(SimpleType::Circle)
    } else {
        None
    }
}

/// Reads the type atom starting at position `i`.
fn parse_gtype(ts: &Vec<Token>, i: usize) -> (r: Option<(GType, usize)>)
    requires
        i <= ts@.len(),
    ensures
        match r {
            Some(gj) => spec_parse_gtype(tokens_view(ts@), i as int) == Some(
                (gj.0@, gj.1 as int),
            ) && i < gj.1 <= ts@.len(),
            None => spec_parse_gtype(tokens_view(ts@), i as int) is None,
        },
{
    proof {
        assert(tokens_view(ts@).len() == ts@.len());
    }
    if i >= ts.len() {
        return None;
    }
    proof {
        assert(tokens_view(ts@)[i as int] == ts@[i as int]@);
    }
    match &ts[i] {
        Token::Ident(name) => match exec_simple_of(name) {
            Some(st) => Some((GType::Simple(st), i + 1)),
            None => Some((GType::Bundle(name.clone()), i + 1)),
        },
        Token::Int(n) => {
            if ts.len() - i >= 3 {
                proof {
                    assert(tokens_view(ts@)[i + 1] == ts@[i + 1]@);
                    assert(tokens_view(ts@)[i + 2] == ts@[i + 2]@);
                }
                if matches!(&ts[i + 1], Token::Minus) {
                    if let Token::Ident(p) = &ts[i + 2] {
                        if *p == String::from_str("P") && *n >= 1 {
                            return Some((GType::Collection(*n), i + 3));
                        }
                    }
                }
            }
            None
        },
        _ => None,
    }
}

/// Reads the comma-separated parameter list starting at position `i`,
/// appending the types to `acc`; returns the position where the list stops.
fn parse_params_rec(ts: &Vec<Token>, i: usize, acc: &mut Vec<GType>) -> (k: usize)
    requires
        i <= ts@.len(),
    ensures
        ({
            let pk = spec_parse_params(tokens_view(ts@), i as int);
            k as int == pk.1 && gtypes_view(final(acc)@) == gtypes_view(old(acc)@) + pk.0 && i <= k
                <= ts@.len()
        }),
    decreases ts@.len() - i,
{
    proof {
        assert(tokens_view(ts@).len() == ts@.len());
    }
    match parse_gtype(ts, i) {
        None => {
            proof {
                assert(gtypes_view(acc@) =~= gtypes_view(acc@) + Seq::<GTypeModel>::empty());
            }
            i
        },
        Some((g, j)) => {
            let ghost gv = g@;
            let ghost pre = acc@;
            acc.push(g);
            proof {
                assert(gtypes_view(acc@) =~= gtypes_view(pre) + seq![gv]);
            }
            let comma = j < ts.len() && matches!(&ts[j], Token::Comma);
            proof {
                if (j as int) < ts@.len() {
                    assert(tokens_view(ts@)[j as int] == ts@[j as int]@);
                }
            }
            if comma {
                let k = parse_params_rec(ts, j + 1, acc);
                proof {
                    let rest = spec_parse_params(tokens_view(ts@), j + 1).0;
                    assert(gtypes_view(pre) + seq![gv] + rest =~= gtypes_view(pre) + (
                    seq![gv] + rest));
                }
                k
            } else {
                j
            }
        },
    }
}

/// Reads the end of the parameter list: `)` or `...`, the variadic element
/// type, and `)`.
fn parse_group(ts: &Vec<Token>, i: usize) -> (r: Option<(Option<GType>, usize)>)
    requires
        i <= ts@.len(),
    ensures
        match r {
            Some(gk) => spec_parse_group(tokens_view(ts@), i as int) == Some(
                (opt_gtype_view(gk.0), gk.1 as int),
            ) && gk.1 <= ts@.len(),
            None => spec_parse_group(tokens_view(ts@), i as int) is None,
        },
{
    proof {
        assert(tokens_view(ts@).len() == ts@.len());
        if (i as int) < ts@.len() {
            assert(tokens_view(ts@)[i as int] == ts@[i as int]@);
        }
    }
    if i < ts.len() && matches!(&ts[i], Token::RParen) {
        Some((None, i + 1))
    } else if i < ts.len() && matches!(&ts[i], Token::Ellipsis) {
        match parse_gtype(ts, i + 1) {
            Some((g, j)) => {
                proof {
                    if (j as int) < ts@.len() {
                        assert(tokens_view(ts@)[j as int] == ts@[j as int]@);
                    }
                }
                if j < ts.len() && matches!(&ts[j], Token::RParen) {
                    Some((Some(g), j + 1))
                } else {
                    None
                }
            },
            None => None,
        }
    } else {
        None
    }
}

/// Reads the implementing function name closing a function overload.
fn parse_func_body(ts: &Vec<Token>, m: usize) -> (r: Option<String>)
    requires
        m <= ts@.len(),
    ensures
        match r {
            Some(f) => spec_parse_func_body(tokens_view(ts@), m as int) == Some(f@),
            None => spec_parse_func_body(tokens_view(ts@), m as int) is None,
        },
{
    proof {
        assert(tokens_view(ts@).len() == ts@.len());
        if m + 1 < ts@.len() {
            assert(tokens_view(ts@)[m as int] == ts@[m as int]@);
            assert(tokens_view(ts@)[m + 1] == ts@[m + 1]@);
        }
        if m + 2 < ts@.len() {
            assert(tokens_view(ts@)[m + 2] == ts@[m + 2]@);
        }
    }
    if ts.len() - m == 2 && matches!(&ts[m], Token::Colon) {
        if let Token::Ident(f) = &ts[m + 1] {
            Some(f.clone())
        } else {
            None
        }
    } else if ts.len() - m == 3 && matches!(&ts[m], Token::LBrace) && matches!(
        &ts[m + 2],
        Token::RBrace,
    ) {
        if let Token::Ident(f) = &ts[m + 1] {
            Some(f.clone())
        } else {
            None
        }
    } else {
        None
    }
}

/// Parses one overload from a token stream: a rule if the stream starts
/// with a bare type atom, else a function; a malformed stream yields
/// nothing.
pub fn parse_overload(ts: &Vec<Token>) -> (r: Option<OverloadInput>)
    ensures
        match r {
            Some(o) => spec_parse_overload(tokens_view(ts@)) == Some(o@),
            None => spec_parse_overload(tokens_view(ts@)) is None,
        },
{
    proof {
        assert(tokens_view(ts@).len() == ts@.len());
    }
    match parse_gtype(ts, 0) {
        Some((lhs, i)) => {
            proof {
                if (i as int) < ts@.len() {
                    assert(tokens_view(ts@)[i as int] == ts@[i as int]@);
                }
            }
            if i < ts.len() && matches!(&ts[i], Token::Ident(_)) {
                match parse_gtype(ts, i + 1) {
                    Some((rhs, j)) => {
                        proof {
                            if j + 1 < ts@.len() {
                                assert(tokens_view(ts@)[j as int] == ts@[j as int]@);
                                assert(tokens_view(ts@)[j + 1] == ts@[j + 1]@);
                            }
                        }
                        if ts.len() - j == 2 && matches!(&ts[j], Token::Colon) {
                            if let Token::Ident(f) = &ts[j + 1] {
                                Some(
                                    OverloadInput::Rule(
                                        OverloadRule { lhs, rhs, func: f.clone() },
                                    ),
                                )
                            } else {
                                None
                            }
                        } else {
                            None
                        }
                    },
                    None => None,
                }
            } else {
                None
            }
        },
        None => {
            proof {
                if 0 < ts@.len() {
                    assert(tokens_view(ts@)[0] == ts@[0]@);
                }
            }
            if ts.len() > 0 && matches!(&ts[0], Token::LParen) {
                let mut params: Vec<GType> = Vec::new();
                proof {
                    assert(gtypes_view(Seq::<GType>::empty()) =~= Seq::<GTypeModel>::empty());
                    lemma_parse_params_bounds(tokens_view(ts@), 1);
                }
                let i = parse_params_rec(ts, 1, &mut params);
                proof {
                    assert(gtypes_view(params@) =~= Seq::<GTypeModel>::empty() + gtypes_view(
                        params@,
                    ));
                }
                match parse_group(ts, i) {
                    Some((group, k)) => {
                        proof {
                            if (k as int) < ts@.len() {
                                assert(tokens_view(ts@)[k as int] == ts@[k as int]@);
                            }
                        }
                        if k < ts.len() && matches!(&ts[k], Token::Arrow) {
                            match parse_gtype(ts, k + 1) {
                                Some((ret, m)) => match parse_func_body(ts, m) {
                                    Some(f) => Some(
                                        OverloadInput::Function(
                                            OverloadFunction {
                                                params,
                                                param_group: group,
                                                return_type: ret,
                                                func: f,
                                            },
                                        ),
                                    ),
                                    None => None,
                                },
                                None => None,
                            }
                        } else {
                            None
                        }
                    },
                    None => None,
                }
            } else {
                None
            }
        },
    }
}

/// Tokenizes and parses one overload from its textual form; a malformed
/// text or token sequence yields nothing.
pub fn parse_overload_str(s: &str) -> (r: Option<OverloadInput>)
    ensures
        ({
            let tok = spec_tokenize(s@, 0);
            match r {
                Some(o) => tok is Some && spec_parse_overload(tok->0) == Some(o@),
                None => tok is None || spec_parse_overload(tok->0) is None,
            }
        }),
{
    match tokenize(s) {
        None => None,
        Some(ts) => parse_overload(&ts),
    }
}

} // verus!
