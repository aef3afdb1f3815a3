//! Dispatch-table emitter: lowers parsed overload specifications into
//! runtime-callable overload records with built-in argument conversion.
//!
//! An emitted record is an immutable value holding the overload's type
//! signature and a definition that exclusively owns the user function it
//! wraps. Invoking a definition converts each dynamic argument to its
//! statically expected type, collects a variadic group when one is
//! declared, and hands the converted values, the compile context and the
//! display metadata to the user function; a function overload's result is
//! wrapped in the uniform dynamic envelope. Conversion failure is not a
//! recoverable condition: the external resolver must have verified type
//! compatibility before dispatch, so invocation demands convertibility
//! outright.

use vstd::prelude::*;

use crate::definition::CompileContext;
use crate::parser::GType;
use crate::parser::GTypeModel;
use crate::parser::OverloadFunction;
use crate::parser::OverloadInput;
use crate::parser::OverloadInputModel;
use crate::parser::OverloadRule;
use crate::parser::parse_overload_str;
use crate::parser::spec_parse_overload;
use crate::parser::SimpleType;
use crate::parser::gtypes_view;
use crate::parser::opt_gtype_view;
use crate::token::spec_tokenize;

verus! {

/// A dynamically typed value: the uniform envelope the resolver passes in
/// and receives back. The payload stands for the value itself, which the
/// geometric algorithms outside this subsystem interpret.
#[derive(Debug, Clone, PartialEq, Eq)]
pub struct AnyExpr {
    pub ty: GType,
    pub data: usize,
}

/// The mathematical shape of a dynamic value.
pub struct AnyExprModel {
    pub ty: GTypeModel,
    pub data: usize,
}

impl View for AnyExpr {
    type V = AnyExprModel;

    open spec fn view(&self) -> AnyExprModel {
        AnyExprModel { ty: self.ty@, data: self.data }
    }
}

/// The views of a sequence of dynamic values.
pub open spec fn exprs_view(vs: Seq<AnyExpr>) -> Seq<AnyExprModel> {
    vs.map_values(|v: AnyExpr| v@)
}

/// Display/diagnostic metadata threaded opaquely through overload calls.
#[derive(Clone, Copy, Debug, PartialEq, Eq, Structural)]
pub struct DisplayInfo {
    pub label: usize,
}

/// The closed set of user functions an overload definition may wrap. Each
/// is invoked once per dispatch, with the converted fixed arguments, the
/// converted variadic group when one is declared, the compile context and
/// the display metadata.
#[derive(Clone, Copy, Debug, PartialEq, Eq, Structural)]
pub enum UserFn {
    /// Returns a fixed value, ignoring every argument.
    ConstFn(usize),
    /// Returns the payload of the first fixed argument, or 0 without one.
    FirstArg,
    /// Returns the saturating sum of every argument's payload.
    SumArgs,
    /// Returns how many arguments were received, fixed and group together.
    CountArgs,
    /// Returns the display metadata's label.
    DisplayLabel,
    /// Returns how many entities the compile context holds.
    EntityCount,
}

/// Whether a type belongs to the scalar family, whose members convert into
/// one another.
pub open spec fn scalar_family(t: GTypeModel) -> bool {
    t == GTypeModel::Simple(SimpleType::Distance) || t == GTypeModel::Simple(SimpleType::Angle)
        || t == GTypeModel::Simple(SimpleType::Scalar)
}

/// Whether a value of type `from` converts to type `to`: the types are
/// equal, or both lie in the scalar family.
pub open spec fn spec_convertible(from: GTypeModel, to: GTypeModel) -> bool {
    from == to || (scalar_family(from) && scalar_family(to))
}

/// The converted value: the payload carried over under the target type.
pub open spec fn spec_convert(v: AnyExprModel, to: GTypeModel) -> AnyExprModel {
    AnyExprModel { ty: to, data: v.data }
}

/// Structural equality of two types.
pub fn gtype_eq(a: &GType, b: &GType) -> (r: bool)
    ensures
        r == (a@ == b@),
{
    match (a, b) {
        (GType::Simple(x), GType::Simple(y)) => x == y,
        (GType::Collection(x), GType::Collection(y)) => x == y,
        (GType::Bundle(x), GType::Bundle(y)) => x.eq(y),
        _ => false,
    }
}

/// A copy of a type with the same mathematical shape.
pub fn clone_gtype(t: &GType) -> (r: GType)
    ensures
        r@ == t@,
{
    match t {
        GType::Simple(s) => GType::Simple(*s),
        GType::Collection(n) => GType::Collection(*n),
        GType::Bundle(name) => GType::Bundle(name.clone()),
    }
}

/// Whether a value of type `from` converts to type `to`.
pub fn convertible(from: &GType, to: &GType) -> (r: bool)
    ensures
        r == spec_convertible(from@, to@),
{
    if gtype_eq(from, to) {
        true
    } else {
        exec_scalar_family(from) && exec_scalar_family(to)
    }
}

/// Whether the type lies in the scalar family.
fn exec_scalar_family(t: &GType) -> (r: bool)
    ensures
        r == scalar_family(t@),
{
    match t {
        GType::Simple(SimpleType::Distance) => true,
        GType::Simple(SimpleType::Angle) => true,
        GType::Simple(SimpleType::Scalar) => true,
        _ => false,
    }
}

/// The fallible conversion of the external conversion layer: the converted
/// value, or nothing where the types are incompatible.
pub fn convert(v: &AnyExpr, to: &GType) -> (r: Option<AnyExpr>)
    ensures
        match r {
            Some(c) => spec_convertible(v.ty@, to@) && c@ == spec_convert(v@, to@),
            None => !spec_convertible(v.ty@, to@),
        },
{
    if convertible(&v.ty, to) {
        Some(AnyExpr { ty: clone_gtype(to), data: v.data })
    } else {
        None
    }
}

/// The conversion a dispatched overload performs: the resolver has already
/// verified compatibility, so the value must convert.
pub fn convert_must(v: &AnyExpr, to: &GType) -> (c: AnyExpr)
    requires
        spec_convertible(v.ty@, to@),
    ensures
        c@ == spec_convert(v@, to@),
{
    AnyExpr { ty: clone_gtype(to), data: v.data }
}

/// A function overload's definition: exclusively owns the user function it
/// wraps.
#[derive(Clone, Copy, Debug, PartialEq, Eq, Structural)]
pub struct FunctionDefinition {
    pub func: UserFn,
}

/// An emitted function overload record: the return type, the wrapped
/// definition, the fixed parameter types in order, and the optional
/// variadic group element type.
#[derive(Debug, Clone, PartialEq, Eq)]
pub struct FunctionOverload {
    pub returned_type: GType,
    pub definition: FunctionDefinition,
    pub params: Vec<GType>,
    pub param_group: Option<GType>,
}

/// The mathematical shape of a function overload record.
pub struct FunctionOverloadModel {
    pub returned_type: GTypeModel,
    pub func: UserFn,
    pub params: Seq<GTypeModel>,
    pub param_group: Option<GTypeModel>,
}

impl View for FunctionOverload {
    type V = FunctionOverloadModel;

    open spec fn view(&self) -> FunctionOverloadModel {
        FunctionOverloadModel {
            returned_type: self.returned_type@,
            func: self.definition.func,
            params: gtypes_view(self.params@),
            param_group: opt_gtype_view(self.param_group),
        }
    }
}

/// A rule overload's definition: exclusively owns the user function it
/// wraps.
#[derive(Clone, Copy, Debug, PartialEq, Eq, Structural)]
pub struct RuleDefinition {
    pub func: UserFn,
}

/// An emitted rule overload record: the wrapped definition and the two
/// operand types.
#[derive(Debug)]
pub struct RuleOverload {
    pub definition: RuleDefinition,
    pub params: (GType, GType),
}

/// The mathematical shape of a rule overload record.
pub struct RuleOverloadModel {
    pub func: UserFn,
    pub params: (GTypeModel, GTypeModel),
}

impl View for RuleOverload {
    type V = RuleOverloadModel;

    open spec fn view(&self) -> RuleOverloadModel {
        RuleOverloadModel { func: self.definition.func, params: (self.params.0@, self.params.1@) }
    }
}

/// Saturating addition on the payload domain.
pub open spec fn spec_sat_add(a: usize, b: usize) -> usize {
    if a + b > usize::MAX {
        usize::MAX
    } else {
        (a + b) as usize
    }
}

/// The saturating sum of the payloads of `vs`, folded from `acc` in order.
pub open spec fn spec_sum_from(acc: usize, vs: Seq<AnyExprModel>) -> usize
    decreases vs.len(),
{
    if vs.len() == 0 {
        acc
    } else {
        spec_sum_from(spec_sat_add(acc, vs.first().data), vs.subrange(1, vs.len() as int))
    }
}

/// The group's contents, or nothing at all.
pub open spec fn group_seq(g: Option<Seq<AnyExprModel>>) -> Seq<AnyExprModel> {
    match g {
        None => Seq::empty(),
        Some(s) => s,
    }
}

/// What the wrapped user function returns, given the converted fixed
/// arguments, the converted variadic group, the compile context and the
/// display metadata.
pub open spec fn spec_apply_user_fn(
    f: UserFn,
    fixed: Seq<AnyExprModel>,
    group: Option<Seq<AnyExprModel>>,
    ctx: Seq<crate::definition::DefNode>,
    disp: DisplayInfo,
) -> usize {
    match f {
        UserFn::ConstFn(c) => c,
        UserFn::FirstArg => if fixed.len() > 0 {
            fixed[0].data
        } else {
            0
        },
        UserFn::SumArgs => spec_sum_from(spec_sum_from(0, fixed), group_seq(group)),
        UserFn::CountArgs => if fixed.len() + group_seq(group).len() > usize::MAX {
            usize::MAX
        } else {
            (fixed.len() + group_seq(group).len()) as usize
        },
        UserFn::DisplayLabel => disp.label,
        UserFn::EntityCount => if ctx.len() > usize::MAX {
            usize::MAX
        } else {
            ctx.len() as usize
        },
    }
}

/// The fixed arguments converted to the fixed parameter types, in order.
pub open spec fn spec_converted_fixed(
    args: Seq<AnyExprModel>,
    params: Seq<GTypeModel>,
) -> Seq<AnyExprModel> {
    Seq::new(params.len(), |i: int| spec_convert(args[i], params[i]))
}

/// The remaining arguments from position `k` on, each converted to the
/// group element type `g`, in order.
pub open spec fn spec_converted_group(
    args: Seq<AnyExprModel>,
    k: int,
    g: GTypeModel,
) -> Seq<AnyExprModel> {
    Seq::new((args.len() - k) as nat, |i: int| spec_convert(args[k + i], g))
}

/// The resolver's obligation before dispatch: enough arguments for the
/// fixed parameters, each fixed argument convertible to its parameter
/// type, and, with a variadic group, every remaining argument convertible
/// to the group element type; without one, no remaining arguments are
/// consumed.
pub open spec fn spec_args_ok(
    args: Seq<AnyExprModel>,
    params: Seq<GTypeModel>,
    group: Option<GTypeModel>,
) -> bool {
    &&& args.len() >= params.len()
    &&& forall|i: int|
        0 <= i < params.len() ==> spec_convertible((#[trigger] args[i]).ty, params[i])
    &&& match group {
        Some(g) => forall|i: int|
            params.len() <= i < args.len() ==> spec_convertible((#[trigger] args[i]).ty, g),
        None => true,
    }
}

/// What invoking a function overload's definition yields: the user
/// function's result on the converted arguments, wrapped in the uniform
/// envelope under the declared return type.
pub open spec fn spec_invoke_function(
    o: FunctionOverloadModel,
    args: Seq<AnyExprModel>,
    ctx: Seq<crate::definition::DefNode>,
    disp: DisplayInfo,
) -> AnyExprModel {
    let fixed = spec_converted_fixed(args, o.params);
    let group = match o.param_group {
        None => None,
        Some(g) => Some(spec_converted_group(args, o.params.len() as int, g)),
    };
    AnyExprModel { ty: o.returned_type, data: spec_apply_user_fn(o.func, fixed, group, ctx, disp) }
}

/// What invoking a rule overload's definition yields: the user function's
/// result on the two operands converted to their declared types.
pub open spec fn spec_invoke_rule(
    o: RuleOverloadModel,
    lhs: AnyExprModel,
    rhs: AnyExprModel,
    ctx: Seq<crate::definition::DefNode>,
    disp: DisplayInfo,
) -> usize {
    spec_apply_user_fn(
        o.func,
        seq![spec_convert(lhs, o.params.0), spec_convert(rhs, o.params.1)],
        None,
        ctx,
        disp,
    )
}

/// Emits the runtime record for a parsed function overload, wrapping the
/// user function that implements it. The parsed specification's function
/// name has served its purpose once the caller has chosen `func` for it.
pub fn build_function_overload(input: OverloadFunction, func: UserFn) -> (o: FunctionOverload)
    ensures
        o.returned_type@ == input.return_type@,
        gtypes_view(o.params@) == gtypes_view(input.params@),
        opt_gtype_view(o.param_group) == opt_gtype_view(input.param_group),
        o.definition.func == func,
{
    FunctionOverload {
        returned_type: input.return_type,
        definition: FunctionDefinition { func },
        params: input.params,
        param_group: input.param_group,
    }
}

/// Emits the runtime record for a parsed rule overload, wrapping the user
/// function that implements it.
pub fn build_rule_overload(input: OverloadRule, func: UserFn) -> (o: RuleOverload)
    ensures
        o.params.0@ == input.lhs@,
        o.params.1@ == input.rhs@,
        o.definition.func == func,
{
    RuleOverload { definition: RuleDefinition { func }, params: (input.lhs, input.rhs) }
}

/// An overload record emitted from its textual form: a function or a rule.
#[derive(Debug)]
pub enum EmittedOverload {
    Function(FunctionOverload),
    Rule(RuleOverload),
}

/// The emitted record carries the parsed specification's signature and
/// wraps the given user function.
pub open spec fn emitted_matches(
    e: EmittedOverload,
    parsed: OverloadInputModel,
    func: UserFn,
) -> bool {
    match (e, parsed) {
        (EmittedOverload::Function(o), OverloadInputModel::Function(f)) => o@.returned_type
            == f.return_type && o@.params == f.params && o@.param_group == f.param_group && o@.func
            == func,
        (EmittedOverload::Rule(o), OverloadInputModel::Rule(ru)) => o@.params.0 == ru.lhs
            && o@.params.1 == ru.rhs && o@.func == func,
        _ => false,
    }
}

/// Compiles one overload from its textual form, wrapping `func` as its
/// implementation: tokenizes and parses the text, then emits the matching
/// dispatch record. A malformed text is a build-time fatal error and yields
/// no record at all.
pub fn overload(text: &str, func: UserFn) -> (r: Option<EmittedOverload>)
    ensures
        ({
            let tok = spec_tokenize(text@, 0);
            match r {
                Some(e) => tok is Some && spec_parse_overload(tok->0) is Some && emitted_matches(
                    e,
                    spec_parse_overload(tok->0)->0,
                    func,
                ),
                None => tok is None || spec_parse_overload(tok->0) is None,
            }
        }),
{
    match parse_overload_str(text) {
        None => None,
        Some(OverloadInput::Function(f)) => Some(
            EmittedOverload::Function(build_function_overload(f, func)),
        ),
        Some(OverloadInput::Rule(r)) => Some(EmittedOverload::Rule(build_rule_overload(r, func))),
    }
}

/// Runs the wrapped user function on converted values.
#[verifier::loop_isolation(false)]
fn apply_user_fn(
    f: &UserFn,
    fixed: &Vec<AnyExpr>,
    group: Option<&Vec<AnyExpr>>,
    ctx: &CompileContext,
    disp: &DisplayInfo,
) -> (r: usize)
    ensures
        ({
            let gv = match group {
                None => None,
                Some(g) => Some(exprs_view(g@)),
            };
            r == spec_apply_user_fn(*f, exprs_view(fixed@), gv, ctx.entities@, *disp)
        }),
{
    match f {
        UserFn::ConstFn(c) => *c,
        UserFn::FirstArg => {
            if fixed.len() > 0 {
                fixed[0].data
            } else {
                0
            }
        },
        UserFn::SumArgs => {
            let mut acc = sum_sat(0, fixed);
            if let Some(g) = group {
                acc = sum_sat(acc, g);
            }
            acc
        },
        UserFn::CountArgs => {
            let glen = match group {
                None => 0,
                Some(g) => g.len(),
            };
            if fixed.len() > usize::MAX - glen {
                usize::MAX
            } else {
                fixed.len() + glen
            }
        },
        UserFn::DisplayLabel => disp.label,
        UserFn::EntityCount => ctx.entities.len(),
    }
}

/// Folds the payloads of `vs` into `acc` by saturating addition.
#[verifier::loop_isolation(false)]
fn sum_sat(acc: usize, vs: &Vec<AnyExpr>) -> (r: usize)
    ensures
        r == spec_sum_from(acc, exprs_view(vs@)),
{
    let ghost vseq = exprs_view(vs@);
    proof {
        assert(vseq.subrange(0, vseq.len() as int) =~= vseq);
    }
    let mut a = acc;
    let mut i: usize = 0;
    while i < vs.len()
        invariant
            i <= vseq.len(),
            spec_sum_from(a, vseq.subrange(i as int, vseq.len() as int)) == spec_sum_from(
                acc,
                vseq,
            ),
        decreases vseq.len() - i,
    {
        proof {
            let rest = vseq.subrange(i as int, vseq.len() as int);
            assert(rest.first() == vseq[i as int]);
            assert(rest.subrange(1, rest.len() as int) =~= vseq.subrange(
                i + 1,
                vseq.len() as int,
            ));
        }
        let d = vs[i].data;
        if a > usize::MAX - d {
            a = usize::MAX;
        } else {
            a = a + d;
        }
        i += 1;
    }
    proof {
        assert(vseq.subrange(vseq.len() as int, vseq.len() as int) =~= Seq::<
            AnyExprModel,
        >::empty());
    }
    a
}

impl FunctionOverload {
    /// The overload's definition, applied to dynamic arguments: converts
    /// the first k arguments to the k fixed parameter types, collects and
    /// converts every remaining argument into the variadic group when one
    /// is declared, invokes the wrapped user function exactly once with the
    /// converted values, the context and the display metadata, and wraps
    /// its result in the uniform envelope under the declared return type.
    #[verifier::loop_isolation(false)]
    pub fn invoke(&self, args: &Vec<AnyExpr>, ctx: &CompileContext, display: &DisplayInfo) -> (r:
        AnyExpr)
        requires
            spec_args_ok(exprs_view(args@), gtypes_view(self.params@), opt_gtype_view(
                self.param_group,
            )),
        ensures
            r@ == spec_invoke_function(self@, exprs_view(args@), ctx.entities@, *display),
    {
        let ghost aseq = exprs_view(args@);
        let ghost pseq = gtypes_view(self.params@);
        let mut fixed: Vec<AnyExpr> = Vec::new();
        let mut i: usize = 0;
        while i < self.params.len()
            invariant
                i <= pseq.len(),
                fixed@.len() == i,
                forall|m: int|
                    0 <= m < i ==> (#[trigger] fixed@[m])@ == spec_convert(aseq[m], pseq[m]),
            decreases pseq.len() - i,
        {
            proof {
                assert(aseq[i as int] == args@[i as int]@);
                assert(pseq[i as int] == self.params@[i as int]@);
            }
            let c = convert_must(&args[i], &self.params[i]);
            fixed.push(c);
            i += 1;
        }
        proof {
            assert(exprs_view(fixed@) =~= spec_converted_fixed(aseq, pseq));
        }
        let data = match &self.param_group {
            None => apply_user_fn(&self.definition.func, &fixed, None, ctx, display),
            Some(g) => {
                let mut grp: Vec<AnyExpr> = Vec::new();
                let mut j: usize = self.params.len();
                while j < args.len()
                    invariant
                        pseq.len() <= j <= aseq.len(),
                        grp@.len() == j - pseq.len(),
                        forall|m: int|
                            0 <= m < grp@.len() ==> (#[trigger] grp@[m])@ == spec_convert(
                                aseq[pseq.len() + m],
                                g@,
                            ),
                    decreases aseq.len() - j,
                {
                    proof {
                        assert(aseq[j as int] == args@[j as int]@);
                    }
                    let c = convert_must(&args[j], g);
                    grp.push(c);
                    j += 1;
                }
                proof {
                    assert(exprs_view(grp@) =~= spec_converted_group(aseq, pseq.len() as int, g@));
                }
                apply_user_fn(&self.definition.func, &fixed, Some(&grp), ctx, display)
            },
        };
        AnyExpr { ty: clone_gtype(&self.returned_type), data }
    }
}

impl RuleOverload {
    /// The overload's definition, applied to two dynamic operands: converts
    /// each to its declared static type and invokes the wrapped user
    /// function exactly once with the converted operands, the context and
    /// the properties metadata, returning its result directly.
    pub fn invoke(&self, lhs: &AnyExpr, rhs: &AnyExpr, ctx: &CompileContext, properties:
        &DisplayInfo) -> (r: usize)
        requires
            spec_convertible(lhs.ty@, self.params.0@),
            spec_convertible(rhs.ty@, self.params.1@),
        ensures
            r == spec_invoke_rule(self@, lhs@, rhs@, ctx.entities@, *properties),
    {
        let cl = convert_must(lhs, &self.params.0);
        let cr = convert_must(rhs, &self.params.1);
        let mut fixed: Vec<AnyExpr> = Vec::new();
        fixed.push(cl);
        fixed.push(cr);
        proof {
            assert(exprs_view(fixed@) =~= seq![
                spec_convert(lhs@, self.params.0@),
                spec_convert(rhs@, self.params.1@),
            ]);
        }
        apply_user_fn(&self.definition.func, &fixed, None, ctx, properties)
    }
}

} // verus!
