//! The steps of checking that do not look into a subexpression: operators, loops, propagation,
//! assignment, effects, and whether a match covers everything.

use vstd::prelude::*;
use vstd::string::*;
use crate::ast;
use crate::binding::{expect, is_error, is_never, no_borrowed_arguments, owned, owned_ty};
use crate::checker::{copy_maybe, error_expr, failed, loops_of, make, maybe, Checker, LoopCtx};
use crate::hir::{
    arms_of, bindings, pats, variants_of, Arm, BinOp, EnumId, Expr, ExprKind, LocalId, LocalRole,
    Pat, PatKind, StmtKind, TraitId, Ty, UnOp, EQ, OPTION, RESULT,
};
use crate::infer::{bind_params, mentions_unbound, solve};
use crate::instances::{holds_trait, substitute_bindings, with_opaque_note};
use crate::model;
use crate::reports;
use crate::say;
use crate::span::{texts, Report, Span};
use crate::state::{Loop, State};
use crate::text::{join, joined};

verus! {

// ---------------------------------------------------------------- operators

/// What an unary operator makes of an operand's type.
pub open spec fn unary_meaning(op: ast::UnOp, ty: model::Ty) -> Option<(UnOp, model::Ty)> {
    match (op, ty) {
        (ast::UnOp::Neg, model::Ty::I64) => Some((UnOp::Neg, model::Ty::I64)),
        (ast::UnOp::Neg, model::Ty::F64) => Some((UnOp::Neg, model::Ty::F64)),
        (ast::UnOp::Not, model::Ty::Bool) => Some((UnOp::Not, model::Ty::Bool)),
        _ => None,
    }
}

#[verifier::opaque]
pub open spec fn unary_of(s: State, op: ast::UnOp, inner: model::Expr, span: Span) -> (
    State,
    model::Expr,
) {
    if inner.ty is Error {
        (s, failed(span))
    } else {
        match unary_meaning(op, inner.ty) {
            Some((op, ty)) => (
                s,
                model::Expr {
                    kind: model::ExprKind::Unary { op, expr: Box::new(inner) },
                    ty,
                    span,
                },
            ),
            None => (
                s.push(
                    with_opaque_note(
                        s,
                        reports::op_does_not_apply(span, op.text(), s.ty_name(inner.ty)),
                        inner.ty,
                    ),
                ),
                failed(span),
            ),
        }
    }
}

/// A borrow is its operand, wearing a type that says the call it is handed to will not take it.
#[verifier::opaque]
pub open spec fn borrow_of(inner: model::Expr, span: Span) -> model::Expr {
    model::Expr {
        kind: inner.kind,
        ty: if inner.ty is Ref || inner.ty is Error || inner.ty is Never {
            inner.ty
        } else {
            model::Ty::Ref(Box::new(inner.ty))
        },
        span,
    }
}

pub open spec fn ordered_ty(ty: model::Ty) -> bool {
    ty is I64 || ty is F64 || ty is Str || ty is Bytes
}

/// Whether `==` applies: to the scalar types, and to a parameter bounded by `Eq`.
pub open spec fn equatable(s: State, ty: model::Ty) -> bool {
    match ty {
        model::Ty::Param { index, .. } => s.bounds_of(index).contains(TraitId(EQ)),
        _ => ordered_ty(ty) || ty is Bool,
    }
}

/// What a binary operator makes of its left operand's type.
#[verifier::opaque]
pub open spec fn binary_meaning(s: State, op: ast::BinOp, ty: model::Ty) -> Option<
    (BinOp, model::Ty),
> {
    match op {
        ast::BinOp::Add => match ty {
            model::Ty::I64 => Some((BinOp::AddInt, model::Ty::I64)),
            model::Ty::F64 => Some((BinOp::AddFloat, model::Ty::F64)),
            model::Ty::Str => Some((BinOp::Concat, model::Ty::Str)),
            model::Ty::Bytes => Some((BinOp::Concat, model::Ty::Bytes)),
            _ => None,
        },
        ast::BinOp::Sub => match ty {
            model::Ty::I64 => Some((BinOp::SubInt, model::Ty::I64)),
            model::Ty::F64 => Some((BinOp::SubFloat, model::Ty::F64)),
            _ => None,
        },
        ast::BinOp::Mul => match ty {
            model::Ty::I64 => Some((BinOp::MulInt, model::Ty::I64)),
            model::Ty::F64 => Some((BinOp::MulFloat, model::Ty::F64)),
            _ => None,
        },
        ast::BinOp::Div => match ty {
            model::Ty::I64 => Some((BinOp::DivInt, model::Ty::I64)),
            model::Ty::F64 => Some((BinOp::DivFloat, model::Ty::F64)),
            _ => None,
        },
        ast::BinOp::Rem => match ty {
            model::Ty::I64 => Some((BinOp::RemInt, model::Ty::I64)),
            model::Ty::F64 => Some((BinOp::RemFloat, model::Ty::F64)),
            _ => None,
        },
        ast::BinOp::Eq => if equatable(s, ty) {
            Some((BinOp::Eq, model::Ty::Bool))
        } else {
            None
        },
        ast::BinOp::Ne => if equatable(s, ty) {
            Some((BinOp::Ne, model::Ty::Bool))
        } else {
            None
        },
        ast::BinOp::Lt => if ordered_ty(ty) {
            Some((BinOp::Lt, model::Ty::Bool))
        } else {
            None
        },
        ast::BinOp::Le => if ordered_ty(ty) {
            Some((BinOp::Le, model::Ty::Bool))
        } else {
            None
        },
        ast::BinOp::Gt => if ordered_ty(ty) {
            Some((BinOp::Gt, model::Ty::Bool))
        } else {
            None
        },
        ast::BinOp::Ge => if ordered_ty(ty) {
            Some((BinOp::Ge, model::Ty::Bool))
        } else {
            None
        },
        _ => None,
    }
}

/// The result of an operator is determined by its operand: it is the operand's own type, or a
/// truth value.
pub proof fn operators_keep_or_judge(s: State, op: ast::BinOp, ty: model::Ty)
    requires
        binary_meaning(s, op, ty) is Some,
    ensures
        (binary_meaning(s, op, ty)->0).1 == ty || (binary_meaning(s, op, ty)->0).1
            == model::Ty::Bool,
{
    reveal(binary_meaning);
}

#[verifier::opaque]
pub open spec fn binary_of(
    s: State,
    op: ast::BinOp,
    lhs: model::Expr,
    rhs: model::Expr,
    span: Span,
) -> (State, model::Expr) {
    if lhs.ty is Error || rhs.ty is Error {
        (s, failed(span))
    } else {
        match binary_meaning(s, op, lhs.ty) {
            Some((op, ty)) => (
                s,
                model::Expr {
                    kind: model::ExprKind::Binary {
                        op,
                        lhs: Box::new(lhs),
                        rhs: Box::new(rhs),
                    },
                    ty,
                    span,
                },
            ),
            None => (
                s.push(
                    with_opaque_note(
                        s,
                        if op == ast::BinOp::Eq || op == ast::BinOp::Ne {
                            reports::equality_does_not_apply(span, op.text(), s.ty_name(lhs.ty))
                        } else {
                            reports::op_does_not_apply(span, op.text(), s.ty_name(lhs.ty))
                        },
                        lhs.ty,
                    ),
                ),
                failed(span),
            ),
        }
    }
}

/// Only `Bytes` can be indexed.
#[verifier::opaque]
pub open spec fn not_indexable(s: State, base: model::Expr, span: Span) -> Report {
    with_opaque_note(s, reports::not_indexable(span, s.ty_name(base.ty)), base.ty)
}

// ---------------------------------------------------------------- tasks

#[verifier::opaque]
pub open spec fn await_of(s: State, task: model::Expr, span: Span) -> (State, model::Expr) {
    match task.ty {
        model::Ty::Error => (s, failed(span)),
        model::Ty::Task(produced) => (
            s,
            model::Expr {
                kind: model::ExprKind::Await { expr: Box::new(task) },
                ty: *produced,
                span,
            },
        ),
        _ => (
            s.push(
                with_opaque_note(
                    s,
                    reports::await_not_task(span, s.ty_name(task.ty)),
                    task.ty,
                ),
            ),
            failed(span),
        ),
    }
}

#[verifier::opaque]
pub open spec fn spawn_of(s: State, task: model::Expr, span: Span) -> (State, model::Expr) {
    if task.ty is Error {
        (s, failed(span))
    } else {
        let s1 = no_borrowed_arguments(s, task, "spawn"@, "runs after this line"@);
        match task.ty {
            model::Ty::Task(produced) => if *produced is Unit {
                (
                    s1,
                    model::Expr {
                        kind: model::ExprKind::Spawn { expr: Box::new(task) },
                        ty: model::Ty::Unit,
                        span,
                    },
                )
            } else {
                (s1.push(reports::spawn_produces(span, s1.ty_name(*produced))), failed(span))
            },
            _ => (s1.push(reports::spawn_not_task(span, s1.ty_name(task.ty))), failed(span)),
        }
    }
}

// ---------------------------------------------------------------- propagation

#[verifier::opaque]
pub open spec fn try_of(s: State, inner: model::Expr, span: Span) -> (State, model::Expr) {
    match (inner.ty, s.ret) {
        (model::Ty::Error, _) => (s, failed(span)),
        (model::Ty::Result(ok, err), model::Ty::Result(_, ret_err)) => if *err != *ret_err {
            (
                s.push(reports::fails_differently(span, s.ty_name(*err), s.ty_name(*ret_err))),
                failed(span),
            )
        } else {
            (
                s,
                model::Expr {
                    kind: model::ExprKind::Try {
                        expr: Box::new(inner),
                        enum_id: EnumId(RESULT),
                    },
                    ty: *ok,
                    span,
                },
            )
        },
        (model::Ty::Option(some), model::Ty::Option(_)) => (
            s,
            model::Expr {
                kind: model::ExprKind::Try { expr: Box::new(inner), enum_id: EnumId(OPTION) },
                ty: *some,
                span,
            },
        ),
        (model::Ty::Result(_, _), ret) => (
            s.push(reports::cannot_propagate(span, s.ty_name(ret))),
            failed(span),
        ),
        (model::Ty::Option(_), ret) => (
            s.push(reports::cannot_propagate(span, s.ty_name(ret))),
            failed(span),
        ),
        _ => (
            s.push(
                with_opaque_note(
                    s,
                    reports::try_not_applicable(span, s.ty_name(inner.ty)),
                    inner.ty,
                ),
            ),
            failed(span),
        ),
    }
}

// ---------------------------------------------------------------- loops

impl State {
    #[verifier::opaque]
    pub open spec fn open_loop(self, is_loop: bool, result: Option<model::Ty>) -> State {
        State {
            loops: self.loops.push(
                Loop { is_loop, result, saw_break: false, first_value: None },
            ),
            ..self
        }
    }

    #[verifier::opaque]
    pub open spec fn close_loop(self) -> State {
        State {
            loops: if self.loops.len() == 0 {
                self.loops
            } else {
                self.loops.drop_last()
            },
            ..self
        }
    }

    /// The innermost loop.
    #[verifier::opaque]
    pub open spec fn top_loop(self) -> Option<Loop> {
        if self.loops.len() == 0 {
            None
        } else {
            Some(self.loops.last())
        }
    }

    #[verifier::opaque]
    pub open spec fn with_top_loop(self, l: Loop) -> State {
        State {
            loops: if self.loops.len() == 0 {
                self.loops
            } else {
                self.loops.drop_last().push(l)
            },
            ..self
        }
    }
}

/// What a `loop` produces: nothing, ever, when nothing leaves it.
pub open spec fn loop_ty(l: Option<Loop>) -> model::Ty {
    match l {
        Some(l) => if l.saw_break {
            match l.result {
                Some(t) => t,
                None => model::Ty::Unit,
            }
        } else {
            model::Ty::Never
        },
        None => model::Ty::Never,
    }
}

/// The innermost loop after a `break` with a value: the first settles the loop's type.
pub open spec fn broken_with(l: Loop, ty: model::Ty, span: Span) -> Loop {
    Loop {
        is_loop: l.is_loop,
        result: match l.result {
            Some(t) => Some(t),
            None => if ty is Never || ty is Error {
                None
            } else {
                Some(ty)
            },
        },
        saw_break: true,
        first_value: match l.first_value {
            Some(at) => Some(at),
            None => Some(span),
        },
    }
}

#[verifier::opaque]
pub open spec fn break_with(s: State, value: model::Expr, span: Span) -> (State, model::Expr) {
    (
        match s.top_loop() {
            Some(l) => s.with_top_loop(broken_with(l, value.ty, span)),
            None => s,
        },
        model::Expr {
            kind: model::ExprKind::Break { value: Some(Box::new(value)) },
            ty: model::Ty::Never,
            span,
        },
    )
}

pub open spec fn bare_break(span: Span) -> model::Expr {
    model::Expr {
        kind: model::ExprKind::Break { value: None },
        ty: model::Ty::Never,
        span,
    }
}

/// A value cannot leave a `while`.
#[verifier::opaque]
pub open spec fn break_of_while(s: State) -> State {
    match s.top_loop() {
        Some(l) => s.with_top_loop(Loop { saw_break: true, ..l }),
        None => s,
    }
}

/// A `break` without a value, where the loop may already produce one.
#[verifier::opaque]
pub open spec fn break_bare(s: State, span: Span) -> State {
    match s.top_loop() {
        None => s,
        Some(l) => match l.result {
            Some(t) => {
                let s1 = s.with_top_loop(Loop { saw_break: true, ..l });
                if l.is_loop && !model::Ty::Unit.fits(t) {
                    let r = reports::break_needs_value(span, s1.ty_name(t));
                    s1.push(
                        match l.first_value {
                            Some(at) => r.secondary(at, "the loop's type was settled here"@),
                            None => r,
                        },
                    )
                } else {
                    s1
                }
            },
            None => s.with_top_loop(
                Loop {
                    saw_break: true,
                    result: if l.is_loop {
                        Some(model::Ty::Unit)
                    } else {
                        None
                    },
                    ..l
                },
            ),
        },
    }
}

#[verifier::opaque]
pub open spec fn check_continue(s: State, span: Span) -> (State, model::Expr) {
    if s.top_loop() is None {
        (s.push(reports::continue_outside(span)), failed(span))
    } else {
        (s, model::Expr { kind: model::ExprKind::Continue, ty: model::Ty::Never, span })
    }
}

#[verifier::opaque]
pub open spec fn while_of(
    s: State,
    cond: model::Expr,
    body: model::Expr,
    expected: Option<model::Ty>,
    span: Span,
) -> (State, model::Expr) {
    let refused = match expected {
        Some(want) => !model::Ty::Unit.fits(want),
        None => false,
    };
    if refused {
        (s.push(reports::while_is_unit(span, s.ty_name(expected->0))), failed(span))
    } else {
        (
            s,
            model::Expr {
                kind: model::ExprKind::While { cond: Box::new(cond), body: Box::new(body) },
                ty: model::Ty::Unit,
                span,
            },
        )
    }
}

// ---------------------------------------------------------------- branches

/// What an `else` has to be: what the position wants, or what the first branch is.
#[verifier::opaque]
pub open spec fn else_expected(expected: Option<model::Ty>, ty: model::Ty) -> Option<model::Ty> {
    match expected {
        Some(t) => Some(t),
        None => if ty is Never {
            None
        } else {
            Some(ty)
        },
    }
}

#[verifier::opaque]
pub open spec fn if_else_of(
    cond: model::Expr,
    body: model::Expr,
    els: model::Expr,
    span: Span,
) -> model::Expr {
    model::Expr {
        ty: if body.ty is Never {
            els.ty
        } else {
            body.ty
        },
        kind: model::ExprKind::If {
            cond: Box::new(cond),
            then: Box::new(body),
            els: Some(Box::new(els)),
        },
        span,
    }
}

#[verifier::opaque]
pub open spec fn if_of(s: State, cond: model::Expr, body: model::Expr, span: Span) -> (
    State,
    model::Expr,
) {
    (
        if body.ty.fits(model::Ty::Unit) {
            s
        } else {
            s.push(reports::if_without_else(span, s.ty_name(body.ty)))
        },
        model::Expr {
            kind: model::ExprKind::If { cond: Box::new(cond), then: Box::new(body), els: None },
            ty: model::Ty::Unit,
            span,
        },
    )
}

/// What the arms of a match agree on, after one more.
pub open spec fn agreed(result: Option<model::Ty>, ty: model::Ty) -> Option<model::Ty> {
    match result {
        Some(t) => Some(t),
        None => if ty is Never || ty is Error {
            None
        } else {
            Some(ty)
        },
    }
}

// ---------------------------------------------------------------- coverage

/// The patterns an arm tries, outermost only. A guarded arm covers nothing.
pub open spec fn tops(arm: model::Arm) -> Seq<model::Pat> {
    if arm.guard is Some {
        seq![]
    } else {
        match arm.pat.kind {
            model::PatKind::Or(alts) => alts,
            _ => seq![arm.pat],
        }
    }
}

/// Whether a pattern matches every value.
pub open spec fn irrefutable(p: model::Pat) -> bool {
    p.kind is Wild || p.kind is Bind || p.kind is Struct
}

pub open spec fn any_irrefutable(list: Seq<model::Pat>) -> bool
    decreases list.len(),
{
    list.len() > 0 && (any_irrefutable(list.drop_last()) || irrefutable(list.last()))
}

pub open spec fn variants_named(list: Seq<model::Pat>) -> Seq<usize>
    decreases list.len(),
{
    if list.len() == 0 {
        seq![]
    } else {
        match list.last().kind {
            model::PatKind::Variant { variant, .. } => variants_named(list.drop_last()).push(
                variant,
            ),
            _ => variants_named(list.drop_last()),
        }
    }
}

pub open spec fn all_caught(arms: Seq<model::Arm>) -> bool
    decreases arms.len(),
{
    arms.len() > 0 && (all_caught(arms.drop_last()) || any_irrefutable(tops(arms.last())))
}

pub open spec fn covered(arms: Seq<model::Arm>) -> Seq<usize>
    decreases arms.len(),
{
    if arms.len() == 0 {
        seq![]
    } else {
        covered(arms.drop_last()) + variants_named(tops(arms.last()))
    }
}

/// The variants no arm names.
pub open spec fn uncovered(
    name: Seq<char>,
    variants: Seq<model::VariantDef>,
    seen: Seq<usize>,
) -> Seq<Seq<char>>
    decreases variants.len(),
{
    if variants.len() == 0 {
        seq![]
    } else {
        let before = uncovered(name, variants.drop_last(), seen);
        if seen.contains((variants.len() - 1) as usize) {
            before
        } else {
            before.push(name + "."@ + variants.last().name)
        }
    }
}

/// The enum a value is matched as, and how it is called.
pub open spec fn matched_as(s: State, ty: model::Ty) -> Option<(EnumId, Seq<char>)> {
    match ty {
        model::Ty::Enum(id) => Some((id, s.enum_name(id))),
        model::Ty::Option(_) => Some((EnumId(OPTION), "Option"@)),
        model::Ty::Result(_, _) => Some((EnumId(RESULT), "Result"@)),
        _ => None,
    }
}

/// Top-level coverage: every variant is named by an arm, or an arm matches everything.
#[verifier::opaque]
pub open spec fn check_exhaustive(
    s: State,
    arms: Seq<model::Arm>,
    ty: model::Ty,
    span: Span,
) -> State {
    if ty is Error || ty is Never || all_caught(arms) {
        s
    } else {
        match matched_as(s, ty) {
            None => s.push(reports::needs_catch_all(span, s.ty_name(ty))),
            Some((id, name)) => {
                let missing = uncovered(name, s.enum_variants(id), covered(arms));
                if missing.len() > 0 {
                    s.push(reports::not_exhaustive(span, joined(missing, ", "@)))
                } else {
                    s
                }
            },
        }
    }
}

/// A match that is not reported names every variant, or catches everything, or is on a value
/// whose type was already reported or which never comes.
pub proof fn silent_matches_cover(s: State, arms: Seq<model::Arm>, id: EnumId, span: Span, k: int)
    requires
        s.current < s.errors.len(),
        check_exhaustive(s, arms, model::Ty::Enum(id), span) == s,
        0 <= k < s.enum_variants(id).len(),
        s.enum_variants(id).len() <= usize::MAX,
    ensures
        all_caught(arms) || covered(arms).contains(k as usize),
{
    reveal(check_exhaustive);
    reveal(State::push);
    if !all_caught(arms) {
        let missing = uncovered(s.enum_name(id), s.enum_variants(id), covered(arms));
        if missing.len() > 0 {
            let r = reports::not_exhaustive(span, joined(missing, ", "@));
            let at = s.current as int;
            assert(s.push(r).errors[at].len() == s.errors[at].len() + 1);
        }
        nothing_uncovered(s.enum_name(id), s.enum_variants(id), covered(arms), k);
    }
}

proof fn nothing_uncovered(
    name: Seq<char>,
    variants: Seq<model::VariantDef>,
    seen: Seq<usize>,
    k: int,
)
    requires
        uncovered(name, variants, seen).len() == 0,
        0 <= k < variants.len() <= usize::MAX,
    ensures
        seen.contains(k as usize),
    decreases variants.len(),
{
    if k < variants.len() - 1 {
        nothing_uncovered(name, variants.drop_last(), seen, k);
    }
}

// ---------------------------------------------------------------- effects

pub open spec fn refused_effect(span: Span) -> model::StmtKind {
    model::StmtKind::Expr(failed(span))
}

/// `after deliver(m) -> delivered`, once the work is built.
#[verifier::opaque]
pub open spec fn after_of(
    s: State,
    task: model::Expr,
    reply: Option<ast::Ident>,
    span: Span,
) -> (State, model::StmtKind) {
    if task.ty is Error {
        (s, refused_effect(span))
    } else {
        let s1 = no_borrowed_arguments(
            s,
            task,
            "after"@,
            "starts once the snapshot is published"@,
        );
        match task.ty {
            model::Ty::Task(produced) => match reply {
                None => if *produced is Unit {
                    (s1, model::StmtKind::After { task, reply: None })
                } else {
                    (
                        s1.push(reports::effect_dropped(span, s1.ty_name(*produced))),
                        refused_effect(span),
                    )
                },
                Some(name) => answered_effect(s1, task, *produced, name, span),
            },
            _ => (
                s1.push(reports::after_not_task(task.span, s1.ty_name(task.ty))),
                refused_effect(span),
            ),
        }
    }
}

/// An effect whose result comes back on an input.
#[verifier::opaque]
pub open spec fn answered_effect(
    s: State,
    task: model::Expr,
    produced: model::Ty,
    name: ast::Ident,
    span: Span,
) -> (State, model::StmtKind) {
    match s.reactor {
        None => (s, refused_effect(span)),
        Some(id) => match s.input_place(id, name.name@) {
            None => (
                s.push(reports::effect_no_input(name.span, s.reactor_name(id), name.name@)),
                refused_effect(span),
            ),
            Some(i) => {
                let wanted = crate::path::input_ty(s, id, i);
                if produced.fits(wanted) {
                    (s, model::StmtKind::After { task, reply: Some(i as usize) })
                } else {
                    (
                        s.push(
                            reports::effect_does_not_fit(
                                span,
                                s.ty_name(produced),
                                name.name@,
                                s.ty_name(wanted),
                            ),
                        ),
                        refused_effect(span),
                    )
                }
            },
        },
    }
}

// ---------------------------------------------------------------- assignment

/// Why a local that is not `mut` cannot be assigned.
pub open spec fn unassignable(name: Seq<char>, role: LocalRole, span: Span) -> Report {
    match role {
        LocalRole::Signal => reports::assign_signal(span, name),
        LocalRole::Param => reports::assign_param(span, name),
        LocalRole::State(_) => reports::assign_state(span, name),
        LocalRole::Message => reports::assign_message(span, name),
        LocalRole::Ordinary => reports::assign_immutable(span, name),
    }
}

/// An assignment target must be a `mut` local, or a chain of fields rooted at one that does not
/// lead through a shared value.
pub open spec fn assignable(s: State, place: model::Expr, span: Span) -> State
    decreases place,
{
    match place.kind {
        model::ExprKind::Local(id) => if id.0 < s.locals.len() {
            let local = s.locals[id.0 as int];
            if local.mutable {
                s
            } else {
                s.push(unassignable(local.name, local.role, span))
            }
        } else {
            s
        },
        model::ExprKind::Field { base, .. } => if owned(base.ty) is Shared {
            s.push(reports::assign_through_shared(span))
        } else {
            assignable(s, *base, span)
        },
        model::ExprKind::Error => s,
        _ => s.push(reports::assign_not_place(span)),
    }
}

#[verifier::opaque]
pub open spec fn check_assignable(s: State, place: model::Expr, span: Span) -> State {
    assignable(s, place, span)
}

// ---------------------------------------------------------------- inferred arguments

/// The state of an argument list whose types are still being settled.
pub struct Inferred {
    pub s: State,
    pub args: Seq<model::Expr>,
    pub b: Seq<Option<model::Ty>>,
}

/// An argument checked before its type was settled: solved, and then held against what solving
/// settled.
#[verifier::opaque]
pub open spec fn after_synthesis(
    s: State,
    found: model::Expr,
    param: model::Ty,
    b: Seq<Option<model::Ty>>,
    at: Span,
    span: Span,
) -> (State, model::Expr, Seq<Option<model::Ty>>) {
    let b1 = solve(s, param, found.ty, b, s.made());
    if mentions_unbound(s, param, b1, s.made()) {
        (
            s.push(reports::mismatch(at, s.ty_name(param), s.ty_name(found.ty))),
            failed(at),
            bind_params(s, param, b1, model::Ty::Error, s.made()),
        )
    } else {
        let (s1, want) = substitute_bindings(s, param, b1, span);
        let (s2, e) = expect(s1, found, Some(want), at);
        (s2, e, b1)
    }
}

// ---------------------------------------------------------------- carrying it out

impl Checker {
    pub fn unary_of(&mut self, op: ast::UnOp, inner: Expr, span: Span) -> (r: Expr)
        ensures
            final(self)@ == unary_of(old(self)@, op, inner@, span).0,
            r@ == unary_of(old(self)@, op, inner@, span).1,
    {
        proof {
            reveal(unary_of);
            inner.look();
        }
        if is_error(&inner.ty) {
            return error_expr(span);
        }
        let meaning: Option<(UnOp, Ty)> = match (op, &inner.ty) {
            (ast::UnOp::Neg, Ty::I64) => Some((UnOp::Neg, Ty::I64)),
            (ast::UnOp::Neg, Ty::F64) => Some((UnOp::Neg, Ty::F64)),
            (ast::UnOp::Not, Ty::Bool) => Some((UnOp::Not, Ty::Bool)),
            _ => None,
        };
        match meaning {
            Some((op, ty)) => {
                return make(ExprKind::Unary { op, expr: Box::new(inner) }, ty, span);
            },
            None => {},
        }
        let name = self.ty_name(&inner.ty);
        let d = say::op_does_not_apply(span, op.written(), name.as_str());
        let d = self.with_opaque_note(d, &inner.ty);
        self.push(d);
        error_expr(span)
    }

    fn equatable(&self, ty: &Ty) -> (r: bool)
        ensures
            r == equatable(self@, ty@),
    {
        match ty {
            Ty::Param { index, .. } => {
                let bounds = self.bounds_of(*index);
                holds_trait(&bounds, TraitId(EQ))
            },
            Ty::I64 | Ty::F64 | Ty::Str | Ty::Bytes | Ty::Bool => true,
            _ => false,
        }
    }

    fn binary_meaning(&self, op: ast::BinOp, ty: &Ty) -> (r: Option<(BinOp, Ty)>)
        ensures
            match binary_meaning(self@, op, ty@) {
                Some((op, t)) => r matches Some(got) && got.0 == op && got.1@ == t,
                None => r is None,
            },
    {
        proof {
            reveal(binary_meaning);
        }
        match op {
            ast::BinOp::Add => match ty {
                Ty::I64 => Some((BinOp::AddInt, Ty::I64)),
                Ty::F64 => Some((BinOp::AddFloat, Ty::F64)),
                Ty::Str => Some((BinOp::Concat, Ty::Str)),
                Ty::Bytes => Some((BinOp::Concat, Ty::Bytes)),
                _ => None,
            },
            ast::BinOp::Sub => match ty {
                Ty::I64 => Some((BinOp::SubInt, Ty::I64)),
                Ty::F64 => Some((BinOp::SubFloat, Ty::F64)),
                _ => None,
            },
            ast::BinOp::Mul => match ty {
                Ty::I64 => Some((BinOp::MulInt, Ty::I64)),
                Ty::F64 => Some((BinOp::MulFloat, Ty::F64)),
                _ => None,
            },
            ast::BinOp::Div => match ty {
                Ty::I64 => Some((BinOp::DivInt, Ty::I64)),
                Ty::F64 => Some((BinOp::DivFloat, Ty::F64)),
                _ => None,
            },
            ast::BinOp::Rem => match ty {
                Ty::I64 => Some((BinOp::RemInt, Ty::I64)),
                Ty::F64 => Some((BinOp::RemFloat, Ty::F64)),
                _ => None,
            },
            ast::BinOp::Eq => {
                if self.equatable(ty) {
                    Some((BinOp::Eq, Ty::Bool))
                } else {
                    None
                }
            },
            ast::BinOp::Ne => {
                if self.equatable(ty) {
                    Some((BinOp::Ne, Ty::Bool))
                } else {
                    None
                }
            },
            ast::BinOp::Lt => {
                if is_ordered(ty) {
                    Some((BinOp::Lt, Ty::Bool))
                } else {
                    None
                }
            },
            ast::BinOp::Le => {
                if is_ordered(ty) {
                    Some((BinOp::Le, Ty::Bool))
                } else {
                    None
                }
            },
            ast::BinOp::Gt => {
                if is_ordered(ty) {
                    Some((BinOp::Gt, Ty::Bool))
                } else {
                    None
                }
            },
            ast::BinOp::Ge => {
                if is_ordered(ty) {
                    Some((BinOp::Ge, Ty::Bool))
                } else {
                    None
                }
            },
            _ => None,
        }
    }

    pub fn binary_of(&mut self, op: ast::BinOp, lhs: Expr, rhs: Expr, span: Span) -> (r: Expr)
        ensures
            final(self)@ == binary_of(old(self)@, op, lhs@, rhs@, span).0,
            r@ == binary_of(old(self)@, op, lhs@, rhs@, span).1,
    {
        proof {
            reveal(binary_of);
            lhs.look();
            rhs.look();
        }
        if is_error(&lhs.ty) || is_error(&rhs.ty) {
            return error_expr(span);
        }
        if let Some((op, ty)) = self.binary_meaning(op, &lhs.ty) {
            return make(
                ExprKind::Binary { op, lhs: Box::new(lhs), rhs: Box::new(rhs) },
                ty,
                span,
            );
        }
        let name = self.ty_name(&lhs.ty);
        let d = if op == ast::BinOp::Eq || op == ast::BinOp::Ne {
            say::equality_does_not_apply(span, op.written(), name.as_str())
        } else {
            say::op_does_not_apply(span, op.written(), name.as_str())
        };
        let d = self.with_opaque_note(d, &lhs.ty);
        self.push(d);
        error_expr(span)
    }

    pub fn not_indexable(&mut self, base: &Expr, span: Span)
        ensures
            final(self)@ == old(self)@.push(not_indexable(old(self)@, base@, span)),
    {
        proof {
            reveal(not_indexable);
            base.look();
        }
        let name = self.ty_name(&base.ty);
        let d = say::not_indexable(span, name.as_str());
        let d = self.with_opaque_note(d, &base.ty);
        self.push(d);
    }

    pub fn await_of(&mut self, task: Expr, span: Span) -> (r: Expr)
        ensures
            final(self)@ == await_of(old(self)@, task@, span).0,
            r@ == await_of(old(self)@, task@, span).1,
    {
        proof {
            reveal(await_of);
            task.look();
        }
        match &task.ty {
            Ty::Error => error_expr(span),
            Ty::Task(produced) => {
                let ty = produced.copy();
                make(ExprKind::Await { expr: Box::new(task) }, ty, span)
            },
            _ => {
                let name = self.ty_name(&task.ty);
                let d = say::await_not_task(span, name.as_str());
                let d = self.with_opaque_note(d, &task.ty);
                self.push(d);
                error_expr(span)
            },
        }
    }

    pub fn spawn_of(&mut self, task: Expr, span: Span) -> (r: Expr)
        ensures
            final(self)@ == spawn_of(old(self)@, task@, span).0,
            r@ == spawn_of(old(self)@, task@, span).1,
    {
        proof {
            reveal(spawn_of);
            task.look();
        }
        if is_error(&task.ty) {
            return error_expr(span);
        }
        self.no_borrowed_arguments(&task, "spawn", "runs after this line");
        match &task.ty {
            Ty::Task(produced) => {
                if let Ty::Unit = **produced {
                    return make(ExprKind::Spawn { expr: Box::new(task) }, Ty::Unit, span);
                }
                let name = self.ty_name(produced);
                self.push(say::spawn_produces(span, name.as_str()));
            },
            _ => {
                let name = self.ty_name(&task.ty);
                self.push(say::spawn_not_task(span, name.as_str()));
            },
        }
        error_expr(span)
    }

    pub fn try_of(&mut self, inner: Expr, span: Span) -> (r: Expr)
        ensures
            final(self)@ == try_of(old(self)@, inner@, span).0,
            r@ == try_of(old(self)@, inner@, span).1,
    {
        proof {
            reveal(try_of);
            inner.look();
        }
        let ret = self.ret();
        match (&inner.ty, &ret) {
            (Ty::Error, _) => error_expr(span),
            (Ty::Result(ok, err), Ty::Result(_, ret_err)) => {
                if !err.equals(ret_err) {
                    let fails = self.ty_name(err);
                    let wanted = self.ty_name(ret_err);
                    self.push(say::fails_differently(span, fails.as_str(), wanted.as_str()));
                    return error_expr(span);
                }
                let ty = ok.copy();
                make(
                    ExprKind::Try { expr: Box::new(inner), enum_id: EnumId(RESULT) },
                    ty,
                    span,
                )
            },
            (Ty::Option(some), Ty::Option(_)) => {
                let ty = some.copy();
                make(
                    ExprKind::Try { expr: Box::new(inner), enum_id: EnumId(OPTION) },
                    ty,
                    span,
                )
            },
            (Ty::Result(_, _), _) => {
                let name = self.ty_name(&ret);
                self.push(say::cannot_propagate(span, name.as_str()));
                error_expr(span)
            },
            (Ty::Option(_), _) => {
                let name = self.ty_name(&ret);
                self.push(say::cannot_propagate(span, name.as_str()));
                error_expr(span)
            },
            _ => {
                let name = self.ty_name(&inner.ty);
                let d = say::try_not_applicable(span, name.as_str());
                let d = self.with_opaque_note(d, &inner.ty);
                self.push(d);
                error_expr(span)
            },
        }
    }

    pub fn open_loop(&mut self, is_loop: bool, result: Option<Ty>)
        ensures
            final(self)@ == old(self)@.open_loop(is_loop, maybe(result)),
    {
        proof {
            reveal(Checker::view);
            reveal(State::open_loop);
        }
        let frame = LoopCtx { is_loop, result, saw_break: false, first_value: None };
        let ghost view = frame@;
        self.loops.push(frame);
        assert(loops_of(self.loops@) =~= loops_of(old(self).loops@).push(view));
    }

    pub fn close_loop(&mut self)
        ensures
            final(self)@ == old(self)@.close_loop(),
    {
        proof {
            reveal(Checker::view);
            reveal(State::close_loop);
        }
        if self.loops.len() > 0 {
            let _ = self.loops.pop();
            assert(loops_of(self.loops@) =~= loops_of(old(self).loops@).drop_last());
        }
    }

    pub fn top_loop(&self) -> (r: Option<LoopCtx>)
        ensures
            match self@.top_loop() {
                Some(l) => r matches Some(got) && got@ == l,
                None => r is None,
            },
    {
        proof {
            reveal(Checker::view);
            reveal(State::top_loop);
        }
        let n: usize = self.loops.len();
        if n == 0 {
            return None;
        }
        let l = &self.loops[n - 1];
        Some(
            LoopCtx {
                is_loop: l.is_loop,
                result: copy_maybe(&l.result),
                saw_break: l.saw_break,
                first_value: l.first_value,
            },
        )
    }

    fn set_top_loop(&mut self, l: LoopCtx)
        ensures
            final(self)@ == old(self)@.with_top_loop(l@),
    {
        proof {
            reveal(Checker::view);
            reveal(State::with_top_loop);
        }
        let n: usize = self.loops.len();
        if n > 0 {
            let ghost view = l@;
            self.loops.set(n - 1, l);
            assert(loops_of(self.loops@) =~= loops_of(old(self).loops@).drop_last().push(view));
        }
    }

    pub fn break_with(&mut self, value: Expr, span: Span) -> (r: Expr)
        ensures
            final(self)@ == break_with(old(self)@, value@, span).0,
            r@ == break_with(old(self)@, value@, span).1,
    {
        proof {
            reveal(break_with);
            value.look();
        }
        if let Some(l) = self.top_loop() {
            let result: Option<Ty> = match l.result {
                Some(t) => Some(t),
                None => {
                    if is_never(&value.ty) || is_error(&value.ty) {
                        None
                    } else {
                        Some(value.ty.copy())
                    }
                },
            };
            let first_value = match l.first_value {
                Some(at) => Some(at),
                None => Some(span),
            };
            self.set_top_loop(
                LoopCtx { is_loop: l.is_loop, result, saw_break: true, first_value },
            );
        }
        make(ExprKind::Break { value: Some(Box::new(value)) }, Ty::Never, span)
    }

    pub fn break_of_while(&mut self)
        ensures
            final(self)@ == break_of_while(old(self)@),
    {
        proof {
            reveal(break_of_while);
        }
        if let Some(l) = self.top_loop() {
            self.set_top_loop(
                LoopCtx {
                    is_loop: l.is_loop,
                    result: l.result,
                    saw_break: true,
                    first_value: l.first_value,
                },
            );
        }
    }

    pub fn break_bare(&mut self, span: Span)
        ensures
            final(self)@ == break_bare(old(self)@, span),
    {
        proof {
            reveal(break_bare);
        }
        let l = match self.top_loop() {
            None => {
                return ;
            },
            Some(l) => l,
        };
        match l.result {
            Some(t) => {
                let copy = t.copy();
                self.set_top_loop(
                    LoopCtx {
                        is_loop: l.is_loop,
                        result: Some(copy),
                        saw_break: true,
                        first_value: l.first_value,
                    },
                );
                if l.is_loop && !Ty::Unit.fits(&t) {
                    let name = self.ty_name(&t);
                    let d = say::break_needs_value(span, name.as_str());
                    let d = match l.first_value {
                        Some(at) => d.secondary(at, "the loop's type was settled here"),
                        None => d,
                    };
                    self.push(d);
                }
            },
            None => {
                let result = if l.is_loop {
                    Some(Ty::Unit)
                } else {
                    None
                };
                self.set_top_loop(
                    LoopCtx {
                        is_loop: l.is_loop,
                        result,
                        saw_break: true,
                        first_value: l.first_value,
                    },
                );
            },
        }
    }

    pub fn check_continue(&mut self, span: Span) -> (r: Expr)
        ensures
            final(self)@ == check_continue(old(self)@, span).0,
            r@ == check_continue(old(self)@, span).1,
    {
        proof {
            reveal(check_continue);
        }
        if self.top_loop().is_none() {
            self.push(say::continue_outside(span));
            return error_expr(span);
        }
        make(ExprKind::Continue, Ty::Never, span)
    }

    pub fn while_of(&mut self, cond: Expr, body: Expr, expected: &Option<Ty>, span: Span) -> (r:
        Expr)
        ensures
            final(self)@ == while_of(old(self)@, cond@, body@, maybe(*expected), span).0,
            r@ == while_of(old(self)@, cond@, body@, maybe(*expected), span).1,
    {
        proof {
            reveal(while_of);
        }
        if let Some(want) = expected {
            if !Ty::Unit.fits(want) {
                let name = self.ty_name(want);
                self.push(say::while_is_unit(span, name.as_str()));
                return error_expr(span);
            }
        }
        make(
            ExprKind::While { cond: Box::new(cond), body: Box::new(body) },
            Ty::Unit,
            span,
        )
    }

    pub fn if_of(&mut self, cond: Expr, body: Expr, span: Span) -> (r: Expr)
        ensures
            final(self)@ == if_of(old(self)@, cond@, body@, span).0,
            r@ == if_of(old(self)@, cond@, body@, span).1,
    {
        proof {
            reveal(if_of);
            body.look();
        }
        if !body.ty.fits(&Ty::Unit) {
            let name = self.ty_name(&body.ty);
            self.push(say::if_without_else(span, name.as_str()));
        }
        make(
            ExprKind::If { cond: Box::new(cond), then: Box::new(body), els: None },
            Ty::Unit,
            span,
        )
    }

    pub fn check_exhaustive(&mut self, arms: &Vec<Arm>, ty: &Ty, span: Span)
        ensures
            final(self)@ == check_exhaustive(old(self)@, arms_of(arms@), ty@, span),
    {
        proof {
            reveal(check_exhaustive);
        }
        if is_error(ty) || is_never(ty) || catches_all(arms) {
            return ;
        }
        let (id, name) = match ty {
            Ty::Enum(id) => (*id, self.enum_name(*id)),
            Ty::Option(_) => (EnumId(OPTION), "Option".to_owned()),
            Ty::Result(_, _) => (EnumId(RESULT), "Result".to_owned()),
            _ => {
                let name = self.ty_name(ty);
                self.push(say::needs_catch_all(span, name.as_str()));
                return ;
            },
        };
        let seen = covered_by(arms);
        let variants = self.enum_variants(id);
        let ghost all = variants_of(variants@);
        let mut missing: Vec<String> = Vec::new();
        assert(all.take(0) =~= seq![]);
        assert(texts(missing@) =~= seq![]);
        for i in 0..variants.len()
            invariant
                all == variants_of(variants@),
                texts(missing@) == uncovered(name@, all.take(i as int), seen@),
        {
            let ghost before = texts(missing@);
            assert(all.take(i + 1).drop_last() =~= all.take(i as int));
            assert(all.take(i + 1).last() == variants@[i as int]@);
            if !holds_index(&seen, i) {
                missing.push(name.clone().concat(".").concat(variants[i].name.as_str()));
                assert(texts(missing@) =~= before.push(
                    name@ + "."@ + variants@[i as int].name@,
                ));
            }
        }
        assert(all.take(variants.len() as int) =~= all);
        assert(texts(missing@).len() == missing@.len());
        if missing.len() > 0 {
            let list = join(&missing, ", ");
            self.push(say::not_exhaustive(span, list.as_str()));
        }
    }

    pub fn after_of(&mut self, task: Expr, reply: &Option<ast::Ident>, span: Span) -> (r: StmtKind)
        ensures
            final(self)@ == after_of(old(self)@, task@, *reply, span).0,
            stmt_kind(r) == after_of(old(self)@, task@, *reply, span).1,
    {
        proof {
            reveal(after_of);
            task.look();
        }
        if is_error(&task.ty) {
            return StmtKind::Expr(error_expr(span));
        }
        self.no_borrowed_arguments(&task, "after", "starts once the snapshot is published");
        let produced = match &task.ty {
            Ty::Task(produced) => produced.copy(),
            _ => {
                let name = self.ty_name(&task.ty);
                self.push(say::after_not_task(task.span, name.as_str()));
                return StmtKind::Expr(error_expr(span));
            },
        };
        match reply {
            None => {
                if let Ty::Unit = produced {
                    return StmtKind::After { task, reply: None };
                }
                let name = self.ty_name(&produced);
                self.push(say::effect_dropped(span, name.as_str()));
                StmtKind::Expr(error_expr(span))
            },
            Some(name) => self.answered_effect(task, &produced, name, span),
        }
    }

    fn answered_effect(&mut self, task: Expr, produced: &Ty, name: &ast::Ident, span: Span) -> (r:
        StmtKind)
        ensures
            final(self)@ == answered_effect(old(self)@, task@, produced@, *name, span).0,
            stmt_kind(r) == answered_effect(old(self)@, task@, produced@, *name, span).1,
    {
        proof {
            reveal(answered_effect);
        }
        let id = match self.reactor() {
            None => {
                return StmtKind::Expr(error_expr(span));
            },
            Some(id) => id,
        };
        let index: usize = match self.input_place(id, name.name.as_str()) {
            None => {
                let reactor = self.reactor_name(id);
                self.push(
                    say::effect_no_input(name.span, reactor.as_str(), name.name.as_str()),
                );
                return StmtKind::Expr(error_expr(span));
            },
            Some(index) => index,
        };
        let wanted = match self.input(id, index) {
            Some((_, ty)) => ty,
            None => Ty::Error,
        };
        assert(wanted@ == crate::path::input_ty(self@, id, index as int));
        if produced.fits(&wanted) {
            return StmtKind::After { task, reply: Some(index) };
        }
        let made = self.ty_name(produced);
        let want = self.ty_name(&wanted);
        self.push(
            say::effect_does_not_fit(span, made.as_str(), name.name.as_str(), want.as_str()),
        );
        StmtKind::Expr(error_expr(span))
    }

    fn local_parts(&self, id: LocalId) -> (r: Option<(String, bool, LocalRole)>)
        ensures
            match r {
                Some((name, mutable, role)) => id.0 < self@.locals.len() && {
                    let l = self@.locals[id.0 as int];
                    l.name == name@ && l.mutable == mutable && l.role == role
                },
                None => id.0 >= self@.locals.len(),
            },
    {
        proof {
            reveal(Checker::view);
        }
        if id.index() < self.locals.len() {
            let l = &self.locals[id.index()];
            Some((l.name.clone(), l.mutable, l.role))
        } else {
            None
        }
    }

    fn assignable(&mut self, place: &Expr, span: Span)
        ensures
            final(self)@ == assignable(old(self)@, place@, span),
        decreases place,
    {
        proof {
            place.look();
        }
        match &place.kind {
            ExprKind::Local(id) => {
                if let Some((name, mutable, role)) = self.local_parts(*id) {
                    if !mutable {
                        let d = match role {
                            LocalRole::Signal => say::assign_signal(span, name.as_str()),
                            LocalRole::Param => say::assign_param(span, name.as_str()),
                            LocalRole::State(_) => say::assign_state(span, name.as_str()),
                            LocalRole::Message => say::assign_message(span, name.as_str()),
                            LocalRole::Ordinary => say::assign_immutable(span, name.as_str()),
                        };
                        self.push(d);
                    }
                }
            },
            ExprKind::Field { base, .. } => {
                proof {
                    base.look();
                }
                if let Ty::Shared(_) = owned_ty(&base.ty) {
                    self.push(say::assign_through_shared(span));
                    return ;
                }
                self.assignable(base, span);
            },
            ExprKind::Error => {},
            _ => self.push(say::assign_not_place(span)),
        }
    }

    pub fn check_assignable(&mut self, place: &Expr, span: Span)
        ensures
            final(self)@ == check_assignable(old(self)@, place@, span),
    {
        proof {
            reveal(check_assignable);
        }
        self.assignable(place, span);
    }

    pub fn after_synthesis(
        &mut self,
        found: Expr,
        param: &Ty,
        b: &mut Vec<Option<Ty>>,
        at: Span,
        span: Span,
    ) -> (r: Expr)
        ensures
            final(self)@ == after_synthesis(
                old(self)@,
                found@,
                param@,
                bindings(old(b)@),
                at,
                span,
            ).0,
            r@ == after_synthesis(
                old(self)@,
                found@,
                param@,
                bindings(old(b)@),
                at,
                span,
            ).1,
            bindings(final(b)@) == after_synthesis(
                old(self)@,
                found@,
                param@,
                bindings(old(b)@),
                at,
                span,
            ).2,
    {
        proof {
            reveal(after_synthesis);
            found.look();
        }
        let made: usize = self.made();
        self.solve(param, &found.ty, b, made);
        if self.mentions_unbound(param, b, made) {
            let want = self.ty_name(param);
            let got = self.ty_name(&found.ty);
            self.bind_params(param, b, &Ty::Error, made);
            self.push(say::mismatch(at, want.as_str(), got.as_str()));
            return error_expr(at);
        }
        let want = self.substitute_bindings(param, b, span);
        self.expect(found, &Some(want), at)
    }
}

pub open spec fn stmt_kind(k: StmtKind) -> model::StmtKind {
    match k {
        StmtKind::Let { local, value } => model::StmtKind::Let { local, value: value@ },
        StmtKind::Assign { place, value } => model::StmtKind::Assign {
            place: place@,
            value: value@,
        },
        StmtKind::After { task, reply } => model::StmtKind::After { task: task@, reply },
        StmtKind::Expr(e) => model::StmtKind::Expr(e@),
    }
}

pub fn borrow_expr(inner: Expr, span: Span) -> (r: Expr)
    ensures
        r@ == borrow_of(inner@, span),
{
    proof {
        reveal(borrow_of);
        inner.look();
    }
    let ty = match inner.ty {
        Ty::Ref(t) => Ty::Ref(t),
        Ty::Error => Ty::Error,
        Ty::Never => Ty::Never,
        owned => Ty::Ref(Box::new(owned)),
    };
    make(inner.kind, ty, span)
}

pub fn else_wants(expected: &Option<Ty>, ty: &Ty) -> (r: Option<Ty>)
    ensures
        maybe(r) == else_expected(maybe(*expected), ty@),
{
    proof {
        reveal(else_expected);
    }
    match expected {
        Some(t) => Some(t.copy()),
        None => {
            if is_never(ty) {
                None
            } else {
                Some(ty.copy())
            }
        },
    }
}

pub fn if_else(cond: Expr, body: Expr, els: Expr, span: Span) -> (r: Expr)
    ensures
        r@ == if_else_of(cond@, body@, els@, span),
{
    proof {
        reveal(if_else_of);
        body.look();
        els.look();
    }
    let ty = if is_never(&body.ty) {
        els.ty.copy()
    } else {
        body.ty.copy()
    };
    make(
        ExprKind::If { cond: Box::new(cond), then: Box::new(body), els: Some(Box::new(els)) },
        ty,
        span,
    )
}

fn is_ordered(ty: &Ty) -> (r: bool)
    ensures
        r == ordered_ty(ty@),
{
    match ty {
        Ty::I64 | Ty::F64 | Ty::Str | Ty::Bytes => true,
        _ => false,
    }
}

fn holds_index(list: &Vec<usize>, x: usize) -> (r: bool)
    ensures
        r == list@.contains(x),
{
    for i in 0..list.len()
        invariant
            forall|j: int| 0 <= j < i ==> list@[j] != x,
    {
        if list[i] == x {
            return true;
        }
    }
    false
}

fn matches_all(p: &Pat) -> (r: bool)
    ensures
        r == irrefutable(p@),
{
    match &p.kind {
        PatKind::Wild => true,
        PatKind::Bind(_) => true,
        PatKind::Struct { .. } => true,
        _ => false,
    }
}

fn any_matches_all(list: &Vec<Pat>) -> (r: bool)
    ensures
        r == any_irrefutable(pats(list@)),
{
    let ghost all = pats(list@);
    let mut found: bool = false;
    assert(all.take(0) =~= seq![]);
    for i in 0..list.len()
        invariant
            all == pats(list@),
            found == any_irrefutable(all.take(i as int)),
    {
        assert(all.take(i + 1).drop_last() =~= all.take(i as int));
        assert(all.take(i + 1).last() == list@[i as int]@);
        if matches_all(&list[i]) {
            found = true;
        }
    }
    assert(all.take(list.len() as int) =~= all);
    found
}

fn add_variants(list: &Vec<Pat>, seen: &mut Vec<usize>)
    ensures
        final(seen)@ == old(seen)@ + variants_named(pats(list@)),
{
    let ghost all = pats(list@);
    let ghost start = seen@;
    assert(all.take(0) =~= seq![]);
    assert(seen@ =~= start + seq![]);
    for i in 0..list.len()
        invariant
            all == pats(list@),
            seen@ == start + variants_named(all.take(i as int)),
    {
        assert(all.take(i + 1).drop_last() =~= all.take(i as int));
        assert(all.take(i + 1).last() == list@[i as int]@);
        if let PatKind::Variant { variant, .. } = &list[i].kind {
            let ghost before = variants_named(all.take(i as int));
            seen.push(*variant);
            assert((start + before).push(*variant) =~= start + before.push(*variant));
        }
    }
    assert(all.take(list.len() as int) =~= all);
}

/// What a single pattern covers.
proof fn one_pattern(p: model::Pat)
    ensures
        any_irrefutable(seq![p]) == irrefutable(p),
        variants_named(seq![p]) == match p.kind {
            model::PatKind::Variant { variant, .. } => seq![variant],
            _ => seq![],
        },
{
    let one = seq![p];
    assert(one.drop_last() =~= seq![]);
    assert(variants_named(one.drop_last()) == Seq::<usize>::empty());
    assert(!any_irrefutable(one.drop_last()));
    assert(one.last() == p);
    match p.kind {
        model::PatKind::Variant { variant, .. } => {
            assert(variants_named(one) =~= seq![variant]);
        },
        _ => {},
    }
}

fn catches_all(arms: &Vec<Arm>) -> (r: bool)
    ensures
        r == all_caught(arms_of(arms@)),
{
    let ghost all = arms_of(arms@);
    let mut found: bool = false;
    assert(all.take(0) =~= seq![]);
    for i in 0..arms.len()
        invariant
            all == arms_of(arms@),
            found == all_caught(all.take(i as int)),
    {
        assert(all.take(i + 1).drop_last() =~= all.take(i as int));
        assert(all.take(i + 1).last() == arms@[i as int]@);
        if arms[i].guard.is_none() {
            match &arms[i].pat.kind {
                PatKind::Or(alts) => {
                    if any_matches_all(alts) {
                        found = true;
                    }
                },
                _ => {
                    proof {
                        one_pattern(arms@[i as int].pat@);
                    }
                    if matches_all(&arms[i].pat) {
                        found = true;
                    }
                },
            }
        }
    }
    assert(all.take(arms.len() as int) =~= all);
    found
}

fn covered_by(arms: &Vec<Arm>) -> (r: Vec<usize>)
    ensures
        r@ == covered(arms_of(arms@)),
{
    let ghost all = arms_of(arms@);
    let mut seen: Vec<usize> = Vec::new();
    assert(all.take(0) =~= seq![]);
    assert(seen@ =~= seq![]);
    for i in 0..arms.len()
        invariant
            all == arms_of(arms@),
            seen@ == covered(all.take(i as int)),
    {
        let ghost before = seen@;
        assert(all.take(i + 1).drop_last() =~= all.take(i as int));
        assert(all.take(i + 1).last() == arms@[i as int]@);
        if arms[i].guard.is_none() {
            match &arms[i].pat.kind {
                PatKind::Or(alts) => add_variants(alts, &mut seen),
                PatKind::Variant { variant, .. } => {
                    proof {
                        one_pattern(arms@[i as int].pat@);
                    }
                    seen.push(*variant);
                    assert(seen@ =~= before + seq![*variant]);
                },
                _ => {
                    proof {
                        one_pattern(arms@[i as int].pat@);
                        assert(before + seq![] =~= before);
                    }
                },
            }
        } else {
            assert(before + seq![] =~= before);
        }
    }
    assert(all.take(arms.len() as int) =~= all);
    seen
}

} // verus!
