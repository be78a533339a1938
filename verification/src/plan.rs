//! Calls and constructions before and after their arguments: which argument goes where, what each
//! has to be, and what the whole is once they are checked.

use vstd::prelude::*;
use vstd::string::*;
use crate::ast;
use crate::binding::{require_task_authority, require_task_context};
use crate::checker::{copy_maybe, error_expr, failed, make, maybe, Checker};
use crate::copies::{self, field_names, field_tys, first_halves, place_of, second_halves};
use crate::generics::{instantiate_enum, instantiate_struct};
use crate::hir::{
    bindings, exprs, tys, Builtin, Ctor, EnumId, Expr, ExprKind, FnId, ReactorId, StructId, Ty, ERR,
    NONE, OK, OPTION, RESULT, SOME,
};
use crate::infer::solve;
use crate::instances::{
    all_bound, any_error, check_type_param_bounds, everything, expectation_bindings, first_open,
    holds_error, maybe_tys, name_at, nothing, nothing_bound, request_fn_instance, settle_bindings,
    settled, settled_tys, string_at, template_arity,
};
use crate::model;
use crate::pat::{err_of, field_suffix, ok_of, option_of, unfilled};
use crate::reports;
use crate::say;
use crate::span::{texts, Span};
use crate::state::State;
use crate::text::{decimal, join, joined, number};

verus! {

/// What remains to be done once the arguments are checked.
pub enum Finish {
    /// A call of a function of the program, which may build a task.
    Call { id: FnId, display: Seq<char>, ret: model::Ty },
    /// A call that never builds a task: a method, with its receiver, or a signal's body.
    Plain { callee: FnId, receiver: Option<model::Expr>, ret: model::Ty },
    Struct(StructId),
    Variant(EnumId, usize),
    /// `Some`, with the payload type the position wants.
    OptionOf(Option<model::Ty>),
    /// `Ok` or `Err`, with both types the position wants.
    ResultOf { is_ok: bool, parts: Option<(model::Ty, model::Ty)> },
    Builtin { builtin: Builtin, ret: model::Ty },
    Reactor { id: ReactorId, name: Seq<char> },
}

/// The same for a template, once inference has run.
pub enum Settle {
    Fn { template: FnId, display: Seq<char> },
    Struct(StructId),
    Variant(EnumId, usize),
}

/// What a call or construction asks of its arguments.
pub enum Plan {
    /// Nothing: it is answered.
    Done(model::Expr),
    /// The `i`-th thing wanted is the argument at `order[i]`.
    Each { wants: Seq<Option<model::Ty>>, order: Seq<usize>, finish: Finish },
    /// The same with types that mention parameters still to be settled.
    Infer {
        types: Seq<model::Ty>,
        order: Seq<usize>,
        start: Seq<Option<model::Ty>>,
        settle: Settle,
    },
    /// `send`, whose message type is known once its target is.
    Send,
    /// `latest`, whose type is its target's.
    Latest,
}

pub open spec fn wanted(types: Seq<model::Ty>) -> Seq<Option<model::Ty>> {
    Seq::new(types.len(), |i: int| Some(types[i]))
}

// ---------------------------------------------------------------- argument order

pub open spec fn named_args(args: Seq<ast::Arg>) -> nat
    decreases args.len(),
{
    if args.len() == 0 {
        0
    } else if args.last().name is Some {
        named_args(args.drop_last()) + 1
    } else {
        named_args(args.drop_last())
    }
}

/// Where named arguments go, so far, and whether one of them was refused.
pub struct Placed {
    pub s: State,
    pub order: Seq<Option<usize>>,
    pub refused: bool,
}

pub open spec fn place_args(
    s: State,
    names: Seq<Seq<char>>,
    args: Seq<ast::Arg>,
    subject: Seq<char>,
    noun: Seq<char>,
) -> Placed
    decreases args.len(),
{
    if args.len() == 0 {
        Placed { s, order: crate::pat::empty_slots(names.len()), refused: false }
    } else {
        let p = place_args(s, names, args.drop_last(), subject, noun);
        match args.last().name {
            None => Placed { refused: true, ..p },
            Some(name) => match place_of(names, name.name@) {
                None => Placed {
                    s: p.s.push(reports::no_such_arg(name.span, subject, noun, name.name@)),
                    order: p.order,
                    refused: true,
                },
                Some(i) => if p.order[i] is Some {
                    Placed {
                        s: p.s.push(reports::arg_twice(name.span, name.name@)),
                        order: p.order,
                        refused: true,
                    }
                } else {
                    Placed { order: p.order.update(i, Some((args.len() - 1) as usize)), ..p }
                },
            },
        }
    }
}

pub open spec fn in_order(n: nat) -> Seq<usize> {
    Seq::new(n, |i: int| i as usize)
}

pub open spec fn filled(order: Seq<Option<usize>>) -> Seq<usize> {
    Seq::new(
        order.len(),
        |i: int|
            match order[i] {
                Some(k) => k,
                None => 0,
            },
    )
}

/// Declaration order mapped onto the order the arguments were written in. Arguments are either
/// all positional or all named.
#[verifier::opaque]
pub open spec fn argument_order(
    s: State,
    names: Seq<Seq<char>>,
    args: Seq<ast::Arg>,
    subject: Seq<char>,
    noun: Seq<char>,
    span: Span,
) -> (State, Option<Seq<usize>>) {
    let named = named_args(args);
    if named != 0 && named != args.len() {
        (s.push(reports::mixed_args(span)), None)
    } else if named == 0 {
        if args.len() != names.len() {
            (
                s.push(
                    reports::arg_count(
                        span,
                        subject,
                        decimal(names.len()),
                        noun,
                        field_suffix(names.len()),
                        decimal(args.len()),
                    ),
                ),
                None,
            )
        } else {
            (s, Some(in_order(args.len())))
        }
    } else {
        let p = place_args(s, names, args, subject, noun);
        let missing = unfilled(names, p.order);
        if missing.len() > 0 {
            (
                p.s.push(
                    reports::missing_args(
                        span,
                        noun,
                        field_suffix(missing.len()),
                        joined(missing, ", "@),
                    ),
                ),
                None,
            )
        } else if p.refused {
            (p.s, None)
        } else {
            (p.s, Some(filled(p.order)))
        }
    }
}

// ---------------------------------------------------------------- constructions

/// An argument order, or the end of the matter.
pub open spec fn each_of(
    r: (State, Option<Seq<usize>>),
    wants: Seq<Option<model::Ty>>,
    finish: Finish,
    span: Span,
) -> (State, Plan) {
    match r.1 {
        None => (r.0, Plan::Done(failed(span))),
        Some(order) => (r.0, Plan::Each { wants, order, finish }),
    }
}

#[verifier::opaque]
pub open spec fn plan_struct(
    s: State,
    id: StructId,
    args: Seq<ast::Arg>,
    expected: Option<model::Ty>,
    span: Span,
) -> (State, Plan) {
    if s.struct_params(id).len() > 0 {
        plan_generic_struct(s, id, args, expected, span)
    } else {
        each_of(
            argument_order(
                s,
                field_names(s.struct_fields(id)),
                args,
                s.struct_name(id),
                "field"@,
                span,
            ),
            wanted(field_tys(s.struct_fields(id))),
            Finish::Struct(id),
            span,
        )
    }
}

/// A template infers its arguments from the expectation, or else from the fields.
#[verifier::opaque]
pub open spec fn plan_generic_struct(
    s: State,
    template: StructId,
    args: Seq<ast::Arg>,
    expected: Option<model::Ty>,
    span: Span,
) -> (State, Plan) {
    let display = s.struct_name(template);
    let (s1, found) = expectation_bindings(
        s,
        model::Ty::Struct(template),
        display,
        s.struct_params(template).len(),
        expected,
        span,
    );
    match found {
        None => (s1, Plan::Done(failed(span))),
        Some(start) => {
            let (s2, order) = argument_order(
                s1,
                field_names(s.struct_fields(template)),
                args,
                display,
                "field"@,
                span,
            );
            match order {
                None => (s2, Plan::Done(failed(span))),
                Some(order) => (
                    s2,
                    Plan::Infer {
                        types: field_tys(s.struct_fields(template)),
                        order,
                        start,
                        settle: Settle::Struct(template),
                    },
                ),
            }
        },
    }
}

#[verifier::opaque]
pub open spec fn plan_variant(
    s: State,
    id: EnumId,
    index: usize,
    args: Seq<ast::Arg>,
    expected: Option<model::Ty>,
    span: Span,
) -> (State, Plan) {
    if s.enum_params(id).len() > 0 {
        plan_generic_variant(s, id, index, args, expected, span)
    } else {
        each_of(
            argument_order(
                s,
                field_names(s.variant_fields(id, index as int)),
                args,
                s.enum_name(id) + "."@ + s.variant_name(id, index as int),
                "field"@,
                span,
            ),
            wanted(field_tys(s.variant_fields(id, index as int))),
            Finish::Variant(id, index),
            span,
        )
    }
}

#[verifier::opaque]
pub open spec fn plan_generic_variant(
    s: State,
    template: EnumId,
    index: usize,
    args: Seq<ast::Arg>,
    expected: Option<model::Ty>,
    span: Span,
) -> (State, Plan) {
    let display = s.enum_name(template);
    let (s1, found) = expectation_bindings(
        s,
        model::Ty::Enum(template),
        display,
        s.enum_params(template).len(),
        expected,
        span,
    );
    match found {
        None => (s1, Plan::Done(failed(span))),
        Some(start) => {
            let (s2, order) = argument_order(
                s1,
                field_names(s.variant_fields(template, index as int)),
                args,
                display + "."@ + s.variant_name(template, index as int),
                "field"@,
                span,
            );
            match order {
                None => (s2, Plan::Done(failed(span))),
                Some(order) => (
                    s2,
                    Plan::Infer {
                        types: field_tys(s.variant_fields(template, index as int)),
                        order,
                        start,
                        settle: Settle::Variant(template, index),
                    },
                ),
            }
        },
    }
}

/// Whether an argument list is one positional argument.
pub open spec fn one_positional(args: Seq<ast::Arg>) -> bool {
    args.len() == 1 && args[0].name is None
}

/// Where nothing says what type a constructor builds.
pub open spec fn uninferable(s: State, span: Span, what: Seq<char>, example: Seq<char>) -> (
    State,
    model::Expr,
) {
    (s.push(reports::uninferable(span, what, example)), failed(span))
}

/// `Some` and `None`: the payload type comes from the position.
#[verifier::opaque]
pub open spec fn plan_option(
    s: State,
    some: bool,
    args: Seq<ast::Arg>,
    expected: Option<model::Ty>,
    span: Span,
) -> (State, Plan) {
    match expected {
        Some(ty) => if ty is Option || ty is Error {
            plan_option_of(
                s,
                some,
                args,
                if ty is Option {
                    Some(option_of(ty))
                } else {
                    None
                },
                span,
            )
        } else {
            (
                s.push(reports::mismatch(span, s.ty_name(ty), "Option"@)),
                Plan::Done(failed(span)),
            )
        },
        None => plan_option_of(s, some, args, None, span),
    }
}

pub open spec fn plan_option_of(
    s: State,
    some: bool,
    args: Seq<ast::Arg>,
    inner: Option<model::Ty>,
    span: Span,
) -> (State, Plan) {
    if !some {
        if args.len() > 0 {
            (s.push(reports::none_takes_nothing(span)), Plan::Done(failed(span)))
        } else {
            match inner {
                None => {
                    let (s1, e) = uninferable(s, span, "None"@, "Option<I64>"@);
                    (s1, Plan::Done(e))
                },
                Some(t) => (
                    s,
                    Plan::Done(
                        model::Expr {
                            kind: model::ExprKind::Construct {
                                ctor: Ctor::Variant(EnumId(OPTION), NONE),
                                args: seq![],
                            },
                            ty: model::Ty::Option(Box::new(t)),
                            span,
                        },
                    ),
                ),
            }
        }
    } else if !one_positional(args) {
        (s.push(reports::takes_one_positional(span, "Some"@)), Plan::Done(failed(span)))
    } else {
        (
            s,
            Plan::Each { wants: seq![inner], order: seq![0], finish: Finish::OptionOf(inner) },
        )
    }
}

/// `Ok` and `Err`: both types come from the position.
#[verifier::opaque]
pub open spec fn plan_result(
    s: State,
    is_ok: bool,
    args: Seq<ast::Arg>,
    expected: Option<model::Ty>,
    span: Span,
) -> (State, Plan) {
    match expected {
        Some(ty) => if ty is Result || ty is Error {
            plan_result_of(
                s,
                is_ok,
                args,
                if ty is Result {
                    Some((ok_of(ty), err_of(ty)))
                } else {
                    None
                },
                span,
            )
        } else {
            (
                s.push(reports::mismatch(span, s.ty_name(ty), "Result"@)),
                Plan::Done(failed(span)),
            )
        },
        None => plan_result_of(s, is_ok, args, None, span),
    }
}

pub open spec fn result_word(is_ok: bool) -> Seq<char> {
    if is_ok {
        "Ok"@
    } else {
        "Err"@
    }
}

pub open spec fn side(is_ok: bool, parts: Option<(model::Ty, model::Ty)>) -> Option<model::Ty> {
    match parts {
        Some((ok, err)) => Some(
            if is_ok {
                ok
            } else {
                err
            },
        ),
        None => None,
    }
}

pub open spec fn plan_result_of(
    s: State,
    is_ok: bool,
    args: Seq<ast::Arg>,
    parts: Option<(model::Ty, model::Ty)>,
    span: Span,
) -> (State, Plan) {
    if !one_positional(args) {
        (
            s.push(reports::takes_one_positional(span, result_word(is_ok))),
            Plan::Done(failed(span)),
        )
    } else {
        (
            s,
            Plan::Each {
                wants: seq![side(is_ok, parts)],
                order: seq![0],
                finish: Finish::ResultOf { is_ok, parts },
            },
        )
    }
}

// ---------------------------------------------------------------- afterwards

pub open spec fn task_ty(t: model::Ty) -> model::Ty {
    model::Ty::Task(Box::new(t))
}

/// A call or construction whose arguments are checked.
#[verifier::opaque]
pub open spec fn conclude(
    s: State,
    finish: Finish,
    args: Seq<model::Expr>,
    span: Span,
) -> (State, model::Expr) {
    match finish {
        Finish::Call { id, display, ret } => {
            let kind = model::ExprKind::Call { callee: id, args };
            if s.fn_is_task(id) {
                (
                    require_task_authority(s, display, s.fn_uses(id), span).0,
                    model::Expr { kind, ty: task_ty(ret), span },
                )
            } else {
                (s, model::Expr { kind, ty: ret, span })
            }
        },
        Finish::Plain { callee, receiver, ret } => {
            let args = match receiver {
                Some(r) => seq![r] + args,
                None => args,
            };
            (s, model::Expr { kind: model::ExprKind::Call { callee, args }, ty: ret, span })
        },
        Finish::Struct(id) => (
            s,
            model::Expr {
                kind: model::ExprKind::Construct { ctor: Ctor::Struct(id), args },
                ty: model::Ty::Struct(id),
                span,
            },
        ),
        Finish::Variant(id, index) => (
            s,
            model::Expr {
                kind: model::ExprKind::Construct { ctor: Ctor::Variant(id, index), args },
                ty: model::Ty::Enum(id),
                span,
            },
        ),
        Finish::OptionOf(inner) => {
            let t = match inner {
                Some(t) => t,
                None => if args.len() > 0 {
                    args[0].ty
                } else {
                    model::Ty::Error
                },
            };
            (
                s,
                model::Expr {
                    kind: model::ExprKind::Construct {
                        ctor: Ctor::Variant(EnumId(OPTION), SOME),
                        args,
                    },
                    ty: model::Ty::Option(Box::new(t)),
                    span,
                },
            )
        },
        Finish::ResultOf { is_ok, parts } => match parts {
            None => uninferable(s, span, result_word(is_ok), "Result<I64, LoadError>"@),
            Some((ok, err)) => (
                s,
                model::Expr {
                    kind: model::ExprKind::Construct {
                        ctor: Ctor::Variant(
                            EnumId(RESULT),
                            if is_ok {
                                OK
                            } else {
                                ERR
                            },
                        ),
                        args,
                    },
                    ty: model::Ty::Result(Box::new(ok), Box::new(err)),
                    span,
                },
            ),
        },
        Finish::Builtin { builtin, ret } => (
            s,
            model::Expr { kind: model::ExprKind::Builtin { builtin, args }, ty: ret, span },
        ),
        Finish::Reactor { id, name } => (
            require_task_authority(s, name, s.reactor_uses(id), span).0,
            model::Expr {
                kind: model::ExprKind::SpawnReactor { reactor: id, args },
                ty: model::Ty::Reactor(id),
                span,
            },
        ),
    }
}

/// A template whose arguments are checked: settled, instantiated, and called or built.
#[verifier::opaque]
pub open spec fn conclude_inferred(
    s: State,
    settle: Settle,
    args: Seq<model::Expr>,
    b: Seq<Option<model::Ty>>,
    span: Span,
) -> (State, model::Expr) {
    match settle {
        Settle::Struct(template) => {
            let (s1, found) = settle_bindings(
                s,
                b,
                s.struct_params(template),
                s.struct_name(template),
                span,
            );
            match found {
                None => (s1, failed(span)),
                Some(found) => {
                    let (s2, made) = instantiate_struct(s1, template, found, span, 0);
                    match made {
                        None => (s2, failed(span)),
                        Some(id) => (
                            s2,
                            model::Expr {
                                kind: model::ExprKind::Construct { ctor: Ctor::Struct(id), args },
                                ty: model::Ty::Struct(id),
                                span,
                            },
                        ),
                    }
                },
            }
        },
        Settle::Variant(template, index) => {
            let (s1, found) = settle_bindings(
                s,
                b,
                s.enum_params(template),
                s.enum_name(template),
                span,
            );
            match found {
                None => (s1, failed(span)),
                Some(found) => {
                    let (s2, made) = instantiate_enum(s1, template, found, span, 0);
                    match made {
                        None => (s2, failed(span)),
                        Some(id) => (
                            s2,
                            model::Expr {
                                kind: model::ExprKind::Construct {
                                    ctor: Ctor::Variant(id, index),
                                    args,
                                },
                                ty: model::Ty::Enum(id),
                                span,
                            },
                        ),
                    }
                },
            }
        },
        Settle::Fn { template, display } => conclude_generic_fn(
            s,
            template,
            display,
            args,
            b,
            span,
        ),
    }
}

#[verifier::opaque]
pub open spec fn conclude_generic_fn(
    s: State,
    template: FnId,
    display: Seq<char>,
    args: Seq<model::Expr>,
    b: Seq<Option<model::Ty>>,
    span: Span,
) -> (State, model::Expr) {
    match place_of(b, None) {
        Some(i) => (
            s.push(
                reports::call_uninferable(
                    span,
                    name_at(s.fn_type_params(template), i),
                    display,
                ),
            ),
            failed(span),
        ),
        None => if any_error(settled(b)) {
            (s, failed(span))
        } else {
            let s1 = check_type_param_bounds(s, template, settled(b), span);
            let (s2, id) = request_fn_instance(s1, template, settled(b), span, 0);
            let ret = s2.signature(id).1;
            let kind = model::ExprKind::Call { callee: id, args };
            if s.fn_is_task(template) {
                (
                    require_task_context(s2, display, span).0,
                    model::Expr { kind, ty: task_ty(ret), span },
                )
            } else {
                (s2, model::Expr { kind, ty: ret, span })
            }
        },
    }
}

/// The call itself, once the callee is a known function.
#[verifier::opaque]
pub open spec fn plan_fn(
    s: State,
    id: FnId,
    display: Seq<char>,
    explicit: Option<Seq<model::Ty>>,
    args: Seq<ast::Arg>,
    expected: Option<model::Ty>,
    span: Span,
) -> (State, Plan) {
    if s.fn_type_params(id).len() > 0 {
        plan_generic_fn(s, id, display, explicit, args, expected, span)
    } else if explicit is Some {
        (s.push(reports::no_type_args(span, display)), Plan::Done(failed(span)))
    } else {
        each_of(
            argument_order(
                s,
                first_halves(s.signature(id).0),
                args,
                display,
                "parameter"@,
                span,
            ),
            wanted(second_halves(s.signature(id).0)),
            Finish::Call { id, display, ret: s.signature(id).1 },
            span,
        )
    }
}

/// A call of a generic function: type arguments written out, or solved from the expectation and
/// then from the arguments, left to right.
#[verifier::opaque]
pub open spec fn plan_generic_fn(
    s: State,
    template: FnId,
    display: Seq<char>,
    explicit: Option<Seq<model::Ty>>,
    args: Seq<ast::Arg>,
    expected: Option<model::Ty>,
    span: Span,
) -> (State, Plan) {
    let params = s.signature(template).0;
    let ret = s.signature(template).1;
    let count = s.fn_type_params(template).len();
    let (s1, order) = argument_order(
        s,
        first_halves(params),
        args,
        display,
        "parameter"@,
        span,
    );
    match order {
        None => (s1, Plan::Done(failed(span))),
        Some(order) => {
            let settle = Settle::Fn { template, display };
            let types = second_halves(params);
            match explicit {
                Some(explicit) => {
                    let (s2, fits) = template_arity(s1, display, count, explicit.len(), span);
                    if !fits || any_error(explicit) {
                        (s2, Plan::Done(failed(span)))
                    } else {
                        (s2, Plan::Infer { types, order, start: all_bound(explicit), settle })
                    }
                },
                None => {
                    let start = match expected {
                        Some(want) => solve(
                            s1,
                            if s.fn_is_task(template) {
                                task_ty(ret)
                            } else {
                                ret
                            },
                            want,
                            nothing_bound(count),
                            s1.made(),
                        ),
                        None => nothing_bound(count),
                    };
                    (s1, Plan::Infer { types, order, start, settle })
                },
            }
        },
    }
}

/// A plan with no arguments to check.
#[verifier::opaque]
pub open spec fn without_arguments(s: State, plan: Plan, span: Span) -> (State, model::Expr) {
    match plan {
        Plan::Done(e) => (s, e),
        Plan::Each { finish, .. } => conclude(s, finish, seq![], span),
        Plan::Infer { start, settle, .. } => conclude_inferred(s, settle, seq![], start, span),
        _ => (s, failed(span)),
    }
}

// ---------------------------------------------------------------- carrying it out

/// The executable side of [`Finish`].
pub enum FinishMade {
    Call { id: FnId, display: String, ret: Ty },
    Plain { callee: FnId, receiver: Option<Expr>, ret: Ty },
    Struct(StructId),
    Variant(EnumId, usize),
    OptionOf(Option<Ty>),
    ResultOf { is_ok: bool, parts: Option<(Ty, Ty)> },
    Builtin { builtin: Builtin, ret: Ty },
    Reactor { id: ReactorId, name: String },
}

pub open spec fn maybe_pair(p: Option<(Ty, Ty)>) -> Option<(model::Ty, model::Ty)> {
    match p {
        Some((a, b)) => Some((a@, b@)),
        None => None,
    }
}

pub open spec fn maybe_expr(e: Option<Expr>) -> Option<model::Expr> {
    match e {
        Some(e) => Some(e@),
        None => None,
    }
}

impl FinishMade {
    pub open spec fn view(&self) -> Finish {
        match *self {
            FinishMade::Call { id, display, ret } => Finish::Call {
                id,
                display: display@,
                ret: ret@,
            },
            FinishMade::Plain { callee, receiver, ret } => Finish::Plain {
                callee,
                receiver: maybe_expr(receiver),
                ret: ret@,
            },
            FinishMade::Struct(id) => Finish::Struct(id),
            FinishMade::Variant(id, index) => Finish::Variant(id, index),
            FinishMade::OptionOf(t) => Finish::OptionOf(maybe(t)),
            FinishMade::ResultOf { is_ok, parts } => Finish::ResultOf {
                is_ok,
                parts: maybe_pair(parts),
            },
            FinishMade::Builtin { builtin, ret } => Finish::Builtin { builtin, ret: ret@ },
            FinishMade::Reactor { id, name } => Finish::Reactor { id, name: name@ },
        }
    }
}

/// The executable side of [`Settle`].
pub enum SettleMade {
    Fn { template: FnId, display: String },
    Struct(StructId),
    Variant(EnumId, usize),
}

impl SettleMade {
    pub open spec fn view(&self) -> Settle {
        match *self {
            SettleMade::Fn { template, display } => Settle::Fn { template, display: display@ },
            SettleMade::Struct(id) => Settle::Struct(id),
            SettleMade::Variant(id, index) => Settle::Variant(id, index),
        }
    }
}

/// The executable side of [`Plan`].
pub enum PlanMade {
    Done(Expr),
    Each { wants: Vec<Option<Ty>>, order: Vec<usize>, finish: FinishMade },
    Infer { types: Vec<Ty>, order: Vec<usize>, start: Vec<Option<Ty>>, settle: SettleMade },
    Send,
    Latest,
}

impl PlanMade {
    pub open spec fn view(&self) -> Plan {
        match *self {
            PlanMade::Done(e) => Plan::Done(e@),
            PlanMade::Each { wants, order, finish } => Plan::Each {
                wants: bindings(wants@),
                order: order@,
                finish: finish@,
            },
            PlanMade::Infer { types, order, start, settle } => Plan::Infer {
                types: tys(types@),
                order: order@,
                start: bindings(start@),
                settle: settle@,
            },
            PlanMade::Send => Plan::Send,
            PlanMade::Latest => Plan::Latest,
        }
    }
}

pub open spec fn maybe_order(r: Option<Vec<usize>>) -> Option<Seq<usize>> {
    match r {
        Some(v) => Some(v@),
        None => None,
    }
}

pub fn wanted_tys(types: Vec<Ty>) -> (r: Vec<Option<Ty>>)
    ensures
        bindings(r@) == wanted(tys(types@)),
{
    let r = everything(types);
    proof {
        reveal(all_bound);
    }
    assert(bindings(r@) =~= wanted(tys(types@)));
    r
}

fn done_with(span: Span) -> (r: PlanMade)
    ensures
        r@ == Plan::Done(failed(span)),
{
    PlanMade::Done(error_expr(span))
}

fn ending(n: usize) -> (r: &'static str)
    ensures
        r@ == field_suffix(n as nat),
{
    if n == 1 {
        ""
    } else {
        "s"
    }
}

fn count_named(args: &Vec<ast::Arg>) -> (r: usize)
    ensures
        r == named_args(args@),
{
    let mut n: usize = 0;
    let ghost all = args@;
    assert(all.take(0) =~= seq![]);
    for i in 0..args.len()
        invariant
            all == args@,
            n <= i,
            n == named_args(all.take(i as int)),
    {
        assert(all.take(i + 1).drop_last() =~= all.take(i as int));
        if args[i].name.is_some() {
            n = n + 1;
        }
    }
    assert(all.take(args.len() as int) =~= all);
    n
}

fn list_unfilled(names: &Vec<String>, slots: &Vec<Option<usize>>) -> (r: Vec<String>)
    requires
        slots.len() == names.len(),
    ensures
        texts(r@) == unfilled(texts(names@), slots@),
{
    let mut r: Vec<String> = Vec::new();
    let ghost all = slots@;
    assert(all.take(0) =~= seq![]);
    assert(texts(r@) =~= seq![]);
    for i in 0..slots.len()
        invariant
            all == slots@,
            slots.len() == names.len(),
            texts(r@) == unfilled(texts(names@), all.take(i as int)),
    {
        let ghost before = texts(r@);
        assert(all.take(i + 1).drop_last() =~= all.take(i as int));
        if slots[i].is_none() {
            r.push(names[i].clone());
            assert(texts(r@) =~= before.push(names@[i as int]@));
        }
    }
    assert(all.take(slots.len() as int) =~= all);
    r
}

fn fill(order: &Vec<Option<usize>>) -> (r: Vec<usize>)
    ensures
        r@ == filled(order@),
{
    let mut r: Vec<usize> = Vec::new();
    for i in 0..order.len()
        invariant
            r.len() == i,
            forall|j: int| 0 <= j < i ==> #[trigger] r@[j] == filled(order@)[j],
    {
        match order[i] {
            Some(k) => r.push(k),
            None => r.push(0),
        }
    }
    assert(r@ =~= filled(order@));
    r
}

fn count_up(n: usize) -> (r: Vec<usize>)
    ensures
        r@ == in_order(n as nat),
{
    let mut r: Vec<usize> = Vec::new();
    for i in 0..n
        invariant
            r.len() == i,
            forall|j: int| 0 <= j < i ==> #[trigger] r@[j] == j,
    {
        r.push(i);
    }
    assert(r@ =~= in_order(n as nat));
    r
}

pub fn is_one_positional(args: &Vec<ast::Arg>) -> (r: bool)
    ensures
        r == one_positional(args@),
{
    args.len() == 1 && args[0].name.is_none()
}

impl Checker {
    fn place_args(
        &mut self,
        names: &Vec<String>,
        args: &Vec<ast::Arg>,
        subject: &str,
        noun: &str,
    ) -> (r: (Vec<Option<usize>>, bool))
        ensures
            final(self)@ == place_args(old(self)@, texts(names@), args@, subject@, noun@).s,
            r.0@ == place_args(old(self)@, texts(names@), args@, subject@, noun@).order,
            r.1 == place_args(old(self)@, texts(names@), args@, subject@, noun@).refused,
            r.0.len() == names.len(),
    {
        let mut order: Vec<Option<usize>> = Vec::new();
        for i in 0..names.len()
            invariant
                order.len() == i,
                forall|j: int| 0 <= j < i ==> order@[j] is None,
        {
            order.push(None);
        }
        let ghost start = self@;
        let ghost all = args@;
        let mut refused: bool = false;
        assert(all.take(0) =~= seq![]);
        assert(order@ =~= crate::pat::empty_slots(texts(names@).len()));
        for i in 0..args.len()
            invariant
                all == args@,
                order.len() == names.len(),
                self@ == place_args(
                    start,
                    texts(names@),
                    all.take(i as int),
                    subject@,
                    noun@,
                ).s,
                order@ == place_args(
                    start,
                    texts(names@),
                    all.take(i as int),
                    subject@,
                    noun@,
                ).order,
                refused == place_args(
                    start,
                    texts(names@),
                    all.take(i as int),
                    subject@,
                    noun@,
                ).refused,
        {
            assert(all.take(i + 1).drop_last() =~= all.take(i as int));
            assert(all.take(i + 1).last() == args@[i as int]);
            match &args[i].name {
                None => {
                    refused = true;
                },
                Some(name) => match copies::place(names, name.name.as_str()) {
                    None => {
                        self.push(
                            say::no_such_arg(name.span, subject, noun, name.name.as_str()),
                        );
                        refused = true;
                    },
                    Some(k) => {
                        if order[k].is_some() {
                            self.push(say::arg_twice(name.span, name.name.as_str()));
                            refused = true;
                        } else {
                            order.set(k, Some(i));
                        }
                    },
                },
            }
        }
        assert(all.take(args.len() as int) =~= all);
        (order, refused)
    }

    pub fn argument_order(
        &mut self,
        names: &Vec<String>,
        args: &Vec<ast::Arg>,
        subject: &str,
        noun: &str,
        span: Span,
    ) -> (r: Option<Vec<usize>>)
        ensures
            final(self)@ == argument_order(
                old(self)@,
                texts(names@),
                args@,
                subject@,
                noun@,
                span,
            ).0,
            maybe_order(r) == argument_order(
                old(self)@,
                texts(names@),
                args@,
                subject@,
                noun@,
                span,
            ).1,
    {
        proof {
            reveal(argument_order);
        }
        let named: usize = count_named(args);
        assert(texts(names@).len() == names@.len());
        if named != 0 && named != args.len() {
            self.push(say::mixed_args(span));
            return None;
        }
        if named == 0 {
            if args.len() != names.len() {
                let want = number(names.len());
                let found = number(args.len());
                self.push(
                    say::arg_count(
                        span,
                        subject,
                        want.as_str(),
                        noun,
                        ending(names.len()),
                        found.as_str(),
                    ),
                );
                return None;
            }
            return Some(count_up(args.len()));
        }
        let (order, refused) = self.place_args(names, args, subject, noun);
        let missing = list_unfilled(names, &order);
        assert(texts(missing@).len() == missing@.len());
        if missing.len() > 0 {
            let list = join(&missing, ", ");
            self.push(say::missing_args(span, noun, ending(missing.len()), list.as_str()));
            return None;
        }
        if refused {
            return None;
        }
        Some(fill(&order))
    }

    fn uninferable(&mut self, span: Span, what: &str, example: &str) -> (r: Expr)
        ensures
            final(self)@ == uninferable(old(self)@, span, what@, example@).0,
            r@ == uninferable(old(self)@, span, what@, example@).1,
    {
        self.push(say::uninferable(span, what, example));
        error_expr(span)
    }

    pub fn plan_struct(
        &mut self,
        id: StructId,
        args: &Vec<ast::Arg>,
        expected: &Option<Ty>,
        span: Span,
    ) -> (r: PlanMade)
        ensures
            final(self)@ == plan_struct(old(self)@, id, args@, maybe(*expected), span).0,
            r@ == plan_struct(old(self)@, id, args@, maybe(*expected), span).1,
    {
        proof {
            reveal(plan_struct);
        }
        let params = self.struct_params(id);
        assert(texts(params@).len() == params@.len());
        if params.len() > 0 {
            return self.plan_generic_struct(id, args, expected, span);
        }
        let fields = self.struct_fields(id);
        let (names, types) = copies::field_lists(&fields);
        let display = self.struct_name(id);
        match self.argument_order(&names, args, display.as_str(), "field", span) {
            None => done_with(span),
            Some(order) => PlanMade::Each {
                wants: wanted_tys(types),
                order,
                finish: FinishMade::Struct(id),
            },
        }
    }

    fn plan_generic_struct(
        &mut self,
        template: StructId,
        args: &Vec<ast::Arg>,
        expected: &Option<Ty>,
        span: Span,
    ) -> (r: PlanMade)
        ensures
            final(self)@ == plan_generic_struct(
                old(self)@,
                template,
                args@,
                maybe(*expected),
                span,
            ).0,
            r@ == plan_generic_struct(old(self)@, template, args@, maybe(*expected), span).1,
    {
        proof {
            reveal(plan_generic_struct);
        }
        let params = self.struct_params(template);
        assert(texts(params@).len() == params@.len());
        let fields = self.struct_fields(template);
        let (names, types) = copies::field_lists(&fields);
        let display = self.struct_name(template);
        let start = match self.expectation_bindings(
            &Ty::Struct(template),
            display.as_str(),
            params.len(),
            expected,
            span,
        ) {
            None => {
                return done_with(span);
            },
            Some(start) => start,
        };
        match self.argument_order(&names, args, display.as_str(), "field", span) {
            None => done_with(span),
            Some(order) => PlanMade::Infer {
                types,
                order,
                start,
                settle: SettleMade::Struct(template),
            },
        }
    }

    pub fn plan_variant(
        &mut self,
        id: EnumId,
        index: usize,
        args: &Vec<ast::Arg>,
        expected: &Option<Ty>,
        span: Span,
    ) -> (r: PlanMade)
        ensures
            final(self)@ == plan_variant(
                old(self)@,
                id,
                index,
                args@,
                maybe(*expected),
                span,
            ).0,
            r@ == plan_variant(old(self)@, id, index, args@, maybe(*expected), span).1,
    {
        proof {
            reveal(plan_variant);
        }
        let params = self.enum_params(id);
        assert(texts(params@).len() == params@.len());
        if params.len() > 0 {
            return self.plan_generic_variant(id, index, args, expected, span);
        }
        let fields = self.variant_fields(id, index);
        let (names, types) = copies::field_lists(&fields);
        let subject = self.enum_name(id).concat(".").concat(self.variant_name(id, index).as_str());
        match self.argument_order(&names, args, subject.as_str(), "field", span) {
            None => done_with(span),
            Some(order) => PlanMade::Each {
                wants: wanted_tys(types),
                order,
                finish: FinishMade::Variant(id, index),
            },
        }
    }

    fn plan_generic_variant(
        &mut self,
        template: EnumId,
        index: usize,
        args: &Vec<ast::Arg>,
        expected: &Option<Ty>,
        span: Span,
    ) -> (r: PlanMade)
        ensures
            final(self)@ == plan_generic_variant(
                old(self)@,
                template,
                index,
                args@,
                maybe(*expected),
                span,
            ).0,
            r@ == plan_generic_variant(
                old(self)@,
                template,
                index,
                args@,
                maybe(*expected),
                span,
            ).1,
    {
        proof {
            reveal(plan_generic_variant);
        }
        let params = self.enum_params(template);
        assert(texts(params@).len() == params@.len());
        let fields = self.variant_fields(template, index);
        let (names, types) = copies::field_lists(&fields);
        let display = self.enum_name(template);
        let subject = display.clone().concat(".").concat(
            self.variant_name(template, index).as_str(),
        );
        let start = match self.expectation_bindings(
            &Ty::Enum(template),
            display.as_str(),
            params.len(),
            expected,
            span,
        ) {
            None => {
                return done_with(span);
            },
            Some(start) => start,
        };
        match self.argument_order(&names, args, subject.as_str(), "field", span) {
            None => done_with(span),
            Some(order) => PlanMade::Infer {
                types,
                order,
                start,
                settle: SettleMade::Variant(template, index),
            },
        }
    }

    pub fn plan_option(
        &mut self,
        some: bool,
        args: &Vec<ast::Arg>,
        expected: &Option<Ty>,
        span: Span,
    ) -> (r: PlanMade)
        ensures
            final(self)@ == plan_option(old(self)@, some, args@, maybe(*expected), span).0,
            r@ == plan_option(old(self)@, some, args@, maybe(*expected), span).1,
    {
        proof {
            reveal(plan_option);
        }
        let inner: Option<Ty> = match expected {
            None => None,
            Some(Ty::Option(t)) => Some(t.copy()),
            Some(Ty::Error) => None,
            Some(other) => {
                let want = self.ty_name(other);
                self.push(say::mismatch(span, want.as_str(), "Option"));
                return done_with(span);
            },
        };
        self.plan_option_of(some, args, inner, span)
    }

    fn plan_option_of(
        &mut self,
        some: bool,
        args: &Vec<ast::Arg>,
        inner: Option<Ty>,
        span: Span,
    ) -> (
    r: PlanMade)
        ensures
            final(self)@ == plan_option_of(old(self)@, some, args@, maybe(inner), span).0,
            r@ == plan_option_of(old(self)@, some, args@, maybe(inner), span).1,
    {
        if !some {
            if args.len() > 0 {
                self.push(say::none_takes_nothing(span));
                return done_with(span);
            }
            return match inner {
                None => PlanMade::Done(self.uninferable(span, "None", "Option<I64>")),
                Some(t) => {
                    let none: Vec<Expr> = Vec::new();
                    assert(exprs(none@) =~= seq![]);
                    PlanMade::Done(
                        make(
                            ExprKind::Construct {
                                ctor: Ctor::Variant(EnumId(OPTION), NONE),
                                args: none,
                            },
                            Ty::Option(Box::new(t)),
                            span,
                        ),
                    )
                },
            };
        }
        if !is_one_positional(args) {
            self.push(say::takes_one_positional(span, "Some"));
            return done_with(span);
        }
        let (wants, order) = one_want(copy_maybe(&inner));
        PlanMade::Each { wants, order, finish: FinishMade::OptionOf(inner) }
    }

    pub fn plan_result(
        &mut self,
        is_ok: bool,
        args: &Vec<ast::Arg>,
        expected: &Option<Ty>,
        span: Span,
    ) -> (r: PlanMade)
        ensures
            final(self)@ == plan_result(old(self)@, is_ok, args@, maybe(*expected), span).0,
            r@ == plan_result(old(self)@, is_ok, args@, maybe(*expected), span).1,
    {
        proof {
            reveal(plan_result);
        }
        let parts: Option<(Ty, Ty)> = match expected {
            None => None,
            Some(Ty::Result(ok, err)) => Some((ok.copy(), err.copy())),
            Some(Ty::Error) => None,
            Some(other) => {
                let want = self.ty_name(other);
                self.push(say::mismatch(span, want.as_str(), "Result"));
                return done_with(span);
            },
        };
        self.plan_result_of(is_ok, args, parts, span)
    }

    fn plan_result_of(
        &mut self,
        is_ok: bool,
        args: &Vec<ast::Arg>,
        parts: Option<(Ty, Ty)>,
        span: Span,
    ) -> (r: PlanMade)
        ensures
            final(self)@ == plan_result_of(old(self)@, is_ok, args@, maybe_pair(parts), span).0,
            r@ == plan_result_of(old(self)@, is_ok, args@, maybe_pair(parts), span).1,
    {
        if !is_one_positional(args) {
            let word = if is_ok {
                "Ok"
            } else {
                "Err"
            };
            self.push(say::takes_one_positional(span, word));
            return done_with(span);
        }
        let want: Option<Ty> = match &parts {
            Some((ok, err)) => {
                if is_ok {
                    Some(ok.copy())
                } else {
                    Some(err.copy())
                }
            },
            None => None,
        };
        let (wants, order) = one_want(want);
        PlanMade::Each { wants, order, finish: FinishMade::ResultOf { is_ok, parts } }
    }

    pub fn conclude(&mut self, finish: FinishMade, args: Vec<Expr>, span: Span) -> (r: Expr)
        ensures
            final(self)@ == conclude(old(self)@, finish@, exprs(args@), span).0,
            r@ == conclude(old(self)@, finish@, exprs(args@), span).1,
    {
        proof {
            reveal(conclude);
        }
        match finish {
            FinishMade::Call { id, display, ret } => {
                if self.fn_is_task(id) {
                    let needs = self.fn_uses(id);
                    let _ = self.require_task_authority(display.as_str(), &needs, span);
                    return make(
                        ExprKind::Call { callee: id, args },
                        Ty::Task(Box::new(ret)),
                        span,
                    );
                }
                make(ExprKind::Call { callee: id, args }, ret, span)
            },
            FinishMade::Plain { callee, receiver, ret } => {
                let args = with_receiver(receiver, args);
                make(ExprKind::Call { callee, args }, ret, span)
            },
            FinishMade::Struct(id) => make(
                ExprKind::Construct { ctor: Ctor::Struct(id), args },
                Ty::Struct(id),
                span,
            ),
            FinishMade::Variant(id, index) => make(
                ExprKind::Construct { ctor: Ctor::Variant(id, index), args },
                Ty::Enum(id),
                span,
            ),
            FinishMade::OptionOf(inner) => {
                let t = match inner {
                    Some(t) => t,
                    None => first_type(&args),
                };
                make(
                    ExprKind::Construct { ctor: Ctor::Variant(EnumId(OPTION), SOME), args },
                    Ty::Option(Box::new(t)),
                    span,
                )
            },
            FinishMade::ResultOf { is_ok, parts } => match parts {
                None => {
                    let word = if is_ok {
                        "Ok"
                    } else {
                        "Err"
                    };
                    self.uninferable(span, word, "Result<I64, LoadError>")
                },
                Some((ok, err)) => {
                    let variant: usize = if is_ok {
                        OK
                    } else {
                        ERR
                    };
                    make(
                        ExprKind::Construct {
                            ctor: Ctor::Variant(EnumId(RESULT), variant),
                            args,
                        },
                        Ty::Result(Box::new(ok), Box::new(err)),
                        span,
                    )
                },
            },
            FinishMade::Builtin { builtin, ret } => make(
                ExprKind::Builtin { builtin, args },
                ret,
                span,
            ),
            FinishMade::Reactor { id, name } => {
                let needs = self.reactor_uses(id);
                let _ = self.require_task_authority(name.as_str(), &needs, span);
                make(ExprKind::SpawnReactor { reactor: id, args }, Ty::Reactor(id), span)
            },
        }
    }

    pub fn conclude_inferred(
        &mut self,
        settle: SettleMade,
        args: Vec<Expr>,
        b: &Vec<Option<Ty>>,
        span: Span,
    ) -> (r: Expr)
        ensures
            final(self)@ == conclude_inferred(
                old(self)@,
                settle@,
                exprs(args@),
                bindings(b@),
                span,
            ).0,
            r@ == conclude_inferred(
                old(self)@,
                settle@,
                exprs(args@),
                bindings(b@),
                span,
            ).1,
    {
        proof {
            reveal(conclude_inferred);
        }
        match settle {
            SettleMade::Struct(template) => {
                let params = self.struct_params(template);
                let display = self.struct_name(template);
                let found = match self.settle_bindings(b, &params, display.as_str(), span) {
                    None => {
                        return error_expr(span);
                    },
                    Some(found) => found,
                };
                match self.instantiate_struct(template, found, span, 0) {
                    None => {
                        return error_expr(span);
                    },
                    Some(id) => {
                        return make(
                            ExprKind::Construct { ctor: Ctor::Struct(id), args },
                            Ty::Struct(id),
                            span,
                        );
                    },
                }
            },
            SettleMade::Variant(template, index) => {
                let params = self.enum_params(template);
                let display = self.enum_name(template);
                let found = match self.settle_bindings(b, &params, display.as_str(), span) {
                    None => {
                        return error_expr(span);
                    },
                    Some(found) => found,
                };
                match self.instantiate_enum(template, found, span, 0) {
                    None => {
                        return error_expr(span);
                    },
                    Some(id) => {
                        return make(
                            ExprKind::Construct { ctor: Ctor::Variant(id, index), args },
                            Ty::Enum(id),
                            span,
                        );
                    },
                }
            },
            SettleMade::Fn { template, display } => {
                return self.conclude_generic_fn(template, display.as_str(), args, b, span);
            },
        }
    }

    fn conclude_generic_fn(
        &mut self,
        template: FnId,
        display: &str,
        args: Vec<Expr>,
        b: &Vec<Option<Ty>>,
        span: Span,
    ) -> (r: Expr)
        ensures
            final(self)@ == conclude_generic_fn(
                old(self)@,
                template,
                display@,
                exprs(args@),
                bindings(b@),
                span,
            ).0,
            r@ == conclude_generic_fn(
                old(self)@,
                template,
                display@,
                exprs(args@),
                bindings(b@),
                span,
            ).1,
    {
        proof {
            reveal(conclude_generic_fn);
        }
        let is_task = self.fn_is_task(template);
        if let Some(i) = first_open(b) {
            let params = self.fn_type_params(template);
            let param = string_at(&params, i);
            self.push(say::call_uninferable(span, param.as_str(), display));
            return error_expr(span);
        }
        let found = settled_tys(b);
        if holds_error(&found) {
            return error_expr(span);
        }
        self.check_type_param_bounds(template, &found, span);
        let id = self.request_fn_instance(template, found, span, 0);
        let (_, ret) = self.signature(id);
        if is_task {
            let _ = self.require_task_context(display, span);
            return make(ExprKind::Call { callee: id, args }, Ty::Task(Box::new(ret)), span);
        }
        make(ExprKind::Call { callee: id, args }, ret, span)
    }

    pub fn plan_fn(
        &mut self,
        id: FnId,
        display: &str,
        explicit: Option<Vec<Ty>>,
        args: &Vec<ast::Arg>,
        expected: &Option<Ty>,
        span: Span,
    ) -> (r: PlanMade)
        ensures
            final(self)@ == plan_fn(
                old(self)@,
                id,
                display@,
                maybe_tys(explicit),
                args@,
                maybe(*expected),
                span,
            ).0,
            r@ == plan_fn(
                old(self)@,
                id,
                display@,
                maybe_tys(explicit),
                args@,
                maybe(*expected),
                span,
            ).1,
    {
        proof {
            reveal(plan_fn);
        }
        let type_params = self.fn_type_params(id);
        assert(texts(type_params@).len() == type_params@.len());
        if type_params.len() > 0 {
            return self.plan_generic_fn(id, display, explicit, args, expected, span);
        }
        if explicit.is_some() {
            self.push(say::no_type_args(span, display));
            return done_with(span);
        }
        let (params, ret) = self.signature(id);
        let (names, types) = copies::named_lists(&params);
        match self.argument_order(&names, args, display, "parameter", span) {
            None => done_with(span),
            Some(order) => PlanMade::Each {
                wants: wanted_tys(types),
                order,
                finish: FinishMade::Call { id, display: display.to_owned(), ret },
            },
        }
    }

    fn plan_generic_fn(
        &mut self,
        template: FnId,
        display: &str,
        explicit: Option<Vec<Ty>>,
        args: &Vec<ast::Arg>,
        expected: &Option<Ty>,
        span: Span,
    ) -> (r: PlanMade)
        ensures
            final(self)@ == plan_generic_fn(
                old(self)@,
                template,
                display@,
                maybe_tys(explicit),
                args@,
                maybe(*expected),
                span,
            ).0,
            r@ == plan_generic_fn(
                old(self)@,
                template,
                display@,
                maybe_tys(explicit),
                args@,
                maybe(*expected),
                span,
            ).1,
    {
        proof {
            reveal(plan_generic_fn);
        }
        let type_params = self.fn_type_params(template);
        assert(texts(type_params@).len() == type_params@.len());
        let is_task = self.fn_is_task(template);
        let (params, ret) = self.signature(template);
        let (names, types) = copies::named_lists(&params);
        let order = match self.argument_order(&names, args, display, "parameter", span) {
            None => {
                return done_with(span);
            },
            Some(order) => order,
        };
        let settle = SettleMade::Fn { template, display: display.to_owned() };
        if let Some(explicit) = explicit {
            assert(tys(explicit@).len() == explicit@.len());
            let fits = self.template_arity(display, type_params.len(), explicit.len(), span);
            if !fits || holds_error(&explicit) {
                return done_with(span);
            }
            return PlanMade::Infer { types, order, start: everything(explicit), settle };
        }
        let mut start = nothing(type_params.len());
        if let Some(want) = expected {
            let effective = if is_task {
                Ty::Task(Box::new(ret))
            } else {
                ret
            };
            let made: usize = self.made();
            self.solve(&effective, want, &mut start, made);
        }
        PlanMade::Infer { types, order, start, settle }
    }

    pub fn without_arguments(&mut self, plan: PlanMade, span: Span) -> (r: Expr)
        ensures
            final(self)@ == without_arguments(old(self)@, plan@, span).0,
            r@ == without_arguments(old(self)@, plan@, span).1,
    {
        proof {
            reveal(without_arguments);
        }
        let none: Vec<Expr> = Vec::new();
        assert(exprs(none@) =~= seq![]);
        match plan {
            PlanMade::Done(e) => e,
            PlanMade::Each { finish, .. } => self.conclude(finish, none, span),
            PlanMade::Infer { start, settle, .. } => self.conclude_inferred(
                settle,
                none,
                &start,
                span,
            ),
            _ => error_expr(span),
        }
    }
}

fn one_want(want: Option<Ty>) -> (r: (Vec<Option<Ty>>, Vec<usize>))
    ensures
        bindings(r.0@) == seq![maybe(want)],
        r.1@ == seq![0usize],
{
    let mut wants: Vec<Option<Ty>> = Vec::new();
    let ghost w = maybe(want);
    wants.push(want);
    assert(bindings(wants@) =~= seq![w]);
    let mut order: Vec<usize> = Vec::new();
    order.push(0);
    assert(order@ =~= seq![0usize]);
    (wants, order)
}

fn with_receiver(receiver: Option<Expr>, args: Vec<Expr>) -> (r: Vec<Expr>)
    ensures
        exprs(r@) == match maybe_expr(receiver) {
            Some(e) => seq![e] + exprs(args@),
            None => exprs(args@),
        },
{
    match receiver {
        None => args,
        Some(e) => {
            let mut r: Vec<Expr> = Vec::new();
            let ghost first = e@;
            let ghost given = exprs(args@);
            r.push(e);
            let mut args = args;
            r.append(&mut args);
            assert(exprs(r@) =~= seq![first] + given);
            r
        },
    }
}

fn first_type(args: &Vec<Expr>) -> (r: Ty)
    ensures
        r@ == (if exprs(args@).len() > 0 {
            exprs(args@)[0].ty
        } else {
            model::Ty::Error
        }),
{
    if args.len() > 0 {
        proof {
            args@[0].look();
        }
        args[0].ty.copy()
    } else {
        Ty::Error
    }
}

// ---------------------------------------------------------------- laws

/// An argument order takes every argument exactly once: it is as long as the argument list, and no
/// two places take the same argument.
pub proof fn argument_order_is_a_permutation(
    s: State,
    names: Seq<Seq<char>>,
    args: Seq<ast::Arg>,
    subject: Seq<char>,
    noun: Seq<char>,
    span: Span,
    i: int,
    j: int,
)
    requires
        args.len() <= usize::MAX,
        argument_order(s, names, args, subject, noun, span).1 is Some,
        0 <= i < j < names.len(),
    ensures
        argument_order(s, names, args, subject, noun, span).1->0.len() == names.len(),
        argument_order(s, names, args, subject, noun, span).1->0[i] < args.len(),
        argument_order(s, names, args, subject, noun, span).1->0[i] != argument_order(
            s,
            names,
            args,
            subject,
            noun,
            span,
        ).1->0[j],
{
    reveal(argument_order);
    if named_args(args) != 0 {
        let p = place_args(s, names, args, subject, noun);
        placed_once(s, names, args, subject, noun, i, j);
        nothing_unfilled(names, p.order, i);
        nothing_unfilled(names, p.order, j);
    }
}

/// A named argument goes to the parameter of its name.
pub proof fn named_arguments_go_by_name(
    s: State,
    names: Seq<Seq<char>>,
    args: Seq<ast::Arg>,
    subject: Seq<char>,
    noun: Seq<char>,
    span: Span,
    i: int,
)
    requires
        args.len() <= usize::MAX,
        named_args(args) > 0,
        argument_order(s, names, args, subject, noun, span).1 is Some,
        0 <= i < names.len(),
    ensures
        ({
            let k = argument_order(s, names, args, subject, noun, span).1->0[i] as int;
            k < args.len() && args[k].name is Some && args[k].name->0.name@ == names[i]
        }),
{
    reveal(argument_order);
    let p = place_args(s, names, args, subject, noun);
    placed_by_name(s, names, args, subject, noun, i);
    nothing_unfilled(names, p.order, i);
}

proof fn placed_once(
    s: State,
    names: Seq<Seq<char>>,
    args: Seq<ast::Arg>,
    subject: Seq<char>,
    noun: Seq<char>,
    i: int,
    j: int,
)
    requires
        args.len() <= usize::MAX,
        0 <= i < names.len(),
        0 <= j < names.len(),
        i != j,
    ensures
        place_args(s, names, args, subject, noun).order.len() == names.len(),
        place_args(s, names, args, subject, noun).order[i] matches Some(k) ==> k < args.len(),
        place_args(s, names, args, subject, noun).order[j] matches Some(k) ==> k < args.len(),
        place_args(s, names, args, subject, noun).order[i] is None || place_args(
            s,
            names,
            args,
            subject,
            noun,
        ).order[i] != place_args(s, names, args, subject, noun).order[j],
    decreases args.len(),
{
    if args.len() > 0 {
        placed_once(s, names, args.drop_last(), subject, noun, i, j);
        match args.last().name {
            Some(name) => copies::place_is_first(names, name.name@),
            None => {},
        }
    }
}

proof fn placed_by_name(
    s: State,
    names: Seq<Seq<char>>,
    args: Seq<ast::Arg>,
    subject: Seq<char>,
    noun: Seq<char>,
    i: int,
)
    requires
        args.len() <= usize::MAX,
        0 <= i < names.len(),
    ensures
        place_args(s, names, args, subject, noun).order.len() == names.len(),
        place_args(s, names, args, subject, noun).order[i] matches Some(k) ==> k < args.len()
            && args[k as int].name is Some && args[k as int].name->0.name@ == names[i],
    decreases args.len(),
{
    if args.len() > 0 {
        placed_by_name(s, names, args.drop_last(), subject, noun, i);
        match args.last().name {
            Some(name) => copies::place_is_first(names, name.name@),
            None => {},
        }
    }
}

proof fn nothing_unfilled(names: Seq<Seq<char>>, slots: Seq<Option<usize>>, i: int)
    requires
        unfilled(names, slots).len() == 0,
        0 <= i < slots.len(),
    ensures
        slots[i] is Some,
    decreases slots.len(),
{
    if i < slots.len() - 1 {
        nothing_unfilled(names, slots.drop_last(), i);
    }
}

} // verus!
