//! Expressions and statements. Checking is bidirectional: an expression takes the type its
//! position wants, when there is one, and says what type it is when there is none.

use vstd::prelude::*;
use vstd::string::*;
use crate::ast;
use crate::binding::{declare_local, expect, is_error, is_never, owned, owned_ty};
use crate::call::{plan_method, plan_path, plan_spawn_reactor};
use crate::checker::{copy_maybe, error_expr, failed, make, maybe, Checker};
use crate::hir::{
    arms_of, bindings, exprs, stmts_of, tys, Arm, Builtin, Expr, ExprKind, Stmt, StmtKind, Ty,
};
use crate::infer::mentions_unbound;
use crate::instances::{maybe_tys, substitute_bindings};
use crate::model;
use crate::pat::pattern;
use crate::path::{check_path, field_access};
use crate::plan::{conclude, conclude_inferred, Plan, PlanMade};
use crate::reports;
use crate::resolve::{resolve_all, resolve_ty};
use crate::say;
use crate::span::Span;
use crate::state::{Ctx, State};
use crate::steps::{
    after_of, after_synthesis, agreed, await_of, bare_break, binary_of, borrow_expr, borrow_of,
    break_bare, break_of_while, break_with, check_assignable, check_continue, check_exhaustive,
    else_expected, else_wants, if_else, if_else_of, if_of, loop_ty, not_indexable, refused_effect,
    spawn_of, stmt_kind, try_of, unary_of, while_of, Inferred,
};
use crate::turns::{impure, impure_report, unterminating, unterminating_report};

verus! {

/// A checked expression, fitted to what its position wants. One that was already reported is not
/// reported again.
pub open spec fn check_expr(s: State, e: ast::Expr, expected: Option<model::Ty>) -> (
    State,
    model::Expr,
)
    decreases e, 4nat, 0nat,
{
    let (s1, x) = check_kind(s, e, expected);
    if x.kind is Error {
        (s1, x)
    } else {
        expect(s1, x, expected, e.span)
    }
}

pub open spec fn plain(kind: model::ExprKind, ty: model::Ty, span: Span) -> model::Expr {
    model::Expr { kind, ty, span }
}

pub open spec fn check_kind(s: State, e: ast::Expr, expected: Option<model::Ty>) -> (
    State,
    model::Expr,
)
    decreases e, 3nat, 0nat,
{
    let span = e.span;
    match e.kind {
        ast::ExprKind::Unit => (s, plain(model::ExprKind::Unit, model::Ty::Unit, span)),
        ast::ExprKind::Int(v) => (s, plain(model::ExprKind::Int(v), model::Ty::I64, span)),
        ast::ExprKind::Float(v) => (s, plain(model::ExprKind::Float(v), model::Ty::F64, span)),
        ast::ExprKind::Str(v) => (s, plain(model::ExprKind::Str(v@), model::Ty::Str, span)),
        ast::ExprKind::Bool(v) => (s, plain(model::ExprKind::Bool(v), model::Ty::Bool, span)),
        ast::ExprKind::Path(path) => check_path(s, path, expected),
        ast::ExprKind::Continue => check_continue(s, span),
        ast::ExprKind::Lambda { .. } => (s.push(reports::lambda(span)), failed(span)),
        ast::ExprKind::Block(block) => check_block(s, block, expected, span),
        ast::ExprKind::SpawnReactor { path, args } => {
            let (s1, plan) = plan_spawn_reactor(s, path, args@, span);
            run_plan(s1, plan, args@, span)
        },
        ast::ExprKind::Field { .. } => check_operand(s, e),
        ast::ExprKind::Unary { .. } => check_operand(s, e),
        ast::ExprKind::Binary { .. } => check_operand(s, e),
        ast::ExprKind::Index { .. } => check_operand(s, e),
        ast::ExprKind::Try(_) => check_operand(s, e),
        ast::ExprKind::Call { .. } => check_call(s, e, expected),
        ast::ExprKind::If { .. } => check_if(s, e, expected),
        ast::ExprKind::Match { .. } => check_match(s, e, expected),
        ast::ExprKind::While { .. } => check_loops(s, e, expected),
        ast::ExprKind::Loop { .. } => check_loops(s, e, expected),
        ast::ExprKind::Break { .. } => check_break(s, e),
        ast::ExprKind::Await(_) => check_tasks(s, e, expected),
        ast::ExprKind::Scope(_) => check_tasks(s, e, expected),
        ast::ExprKind::Spawn(_) => check_tasks(s, e, expected),
    }
}

/// Projections and operators.
pub open spec fn check_operand(s: State, e: ast::Expr) -> (State, model::Expr)
    decreases e, 2nat, 0nat,
{
    let span = e.span;
    match e.kind {
        ast::ExprKind::Field { base, name } => {
            let (s1, b) = check_expr(s, *base, None);
            field_access(s1, b, name, span)
        },
        ast::ExprKind::Unary { op, expr } => if op == ast::UnOp::RefMut {
            check_expr(s.push(reports::exclusive_borrow(span)), *expr, None)
        } else {
            let (s1, x) = check_expr(s, *expr, None);
            if op == ast::UnOp::Ref {
                (s1, borrow_of(x, span))
            } else {
                unary_of(s1, op, x, span)
            }
        },
        ast::ExprKind::Binary { op, lhs, rhs } => if op == ast::BinOp::And || op
            == ast::BinOp::Or {
            let (s1, l) = check_expr(s, *lhs, Some(model::Ty::Bool));
            let (s2, r) = check_expr(s1, *rhs, Some(model::Ty::Bool));
            (
                s2,
                plain(
                    model::ExprKind::ShortCircuit {
                        and: op == ast::BinOp::And,
                        lhs: Box::new(l),
                        rhs: Box::new(r),
                    },
                    model::Ty::Bool,
                    span,
                ),
            )
        } else {
            let (s1, l) = check_expr(s, *lhs, None);
            let (s2, r) = check_expr(s1, *rhs, Some(l.ty));
            binary_of(s2, op, l, r, span)
        },
        ast::ExprKind::Index { base, index } => {
            let (s1, b) = check_expr(s, *base, None);
            if b.ty is Error {
                (s1, failed(span))
            } else if owned(b.ty) is Bytes {
                let (s2, i) = check_expr(s1, *index, Some(model::Ty::I64));
                (
                    s2,
                    plain(
                        model::ExprKind::Builtin { builtin: Builtin::BytesAt, args: seq![b, i] },
                        model::Ty::I64,
                        span,
                    ),
                )
            } else {
                (s1.push(not_indexable(s1, b, span)), failed(span))
            }
        },
        ast::ExprKind::Try(inner) => {
            let (s1, x) = check_expr(s, *inner, None);
            try_of(s1, x, span)
        },
        _ => (s, failed(span)),
    }
}

/// Type arguments written at a call.
#[verifier::opaque]
pub open spec fn explicit_types(s: State, list: Seq<ast::Type>) -> (State, Option<Seq<model::Ty>>) {
    if list.len() == 0 {
        (s, None)
    } else {
        let (s1, found) = resolve_all(s, list);
        (s1, Some(found))
    }
}

/// A call: of a name, or of a method on whatever expression produced the value.
pub open spec fn check_call(s: State, e: ast::Expr, expected: Option<model::Ty>) -> (
    State,
    model::Expr,
)
    decreases e, 2nat, 0nat,
{
    let span = e.span;
    match e.kind {
        ast::ExprKind::Call { callee, type_args, args } => {
            let (s1, explicit) = explicit_types(s, type_args@);
            match callee.kind {
                ast::ExprKind::Path(path) => {
                    let (s2, plan) = plan_path(s1, path, explicit, args@, expected, span);
                    run_plan(s2, plan, args@, span)
                },
                ast::ExprKind::Field { base, name } => {
                    let (s2, receiver) = check_expr(s1, *base, None);
                    let (s3, plan) = plan_method(s2, receiver, name, explicit, args@, span);
                    run_plan(s3, plan, args@, span)
                },
                _ => (s1.push(reports::not_callable(callee.span)), failed(span)),
            }
        },
        _ => (s, failed(span)),
    }
}

/// Check the arguments a plan asks for, and finish it.
pub open spec fn run_plan(s: State, plan: Plan, args: Seq<ast::Arg>, span: Span) -> (
    State,
    model::Expr,
)
    decreases args, 3nat, 0nat,
{
    match plan {
        Plan::Done(x) => (s, x),
        Plan::Each { wants, order, finish } => {
            let (s1, checked) = check_each(s, wants, order, args, span);
            conclude(s1, finish, checked, span)
        },
        Plan::Infer { types, order, start, settle } => {
            let p = check_inferred(s, types, order, args, start, span);
            conclude_inferred(p.s, settle, p.args, p.b, span)
        },
        Plan::Send => check_send(s, args, span),
        Plan::Latest => check_latest(s, args, span),
    }
}

/// Arguments in declaration order, each against the type its place wants.
pub open spec fn check_each(
    s: State,
    wants: Seq<Option<model::Ty>>,
    order: Seq<usize>,
    args: Seq<ast::Arg>,
    span: Span,
) -> (State, Seq<model::Expr>)
    decreases args, 1nat, wants.len(),
{
    if wants.len() == 0 {
        (s, seq![])
    } else {
        let (s1, done) = check_each(s, wants.drop_last(), order, args, span);
        let k = order[wants.len() - 1] as int;
        if wants.len() <= order.len() && k < args.len() {
            let (s2, x) = check_expr(s1, args[k].value, wants.last());
            (s2, done.push(x))
        } else {
            (s1, done.push(failed(span)))
        }
    }
}

/// Arguments in declaration order, where the types mention parameters still to be settled.
pub open spec fn check_inferred(
    s: State,
    types: Seq<model::Ty>,
    order: Seq<usize>,
    args: Seq<ast::Arg>,
    start: Seq<Option<model::Ty>>,
    span: Span,
) -> Inferred
    decreases args, 1nat, types.len(),
{
    if types.len() == 0 {
        Inferred { s, args: seq![], b: start }
    } else {
        let p = check_inferred(s, types.drop_last(), order, args, start, span);
        let ty = types.last();
        let k = order[types.len() - 1] as int;
        if types.len() <= order.len() && k < args.len() {
            if mentions_unbound(p.s, ty, p.b, p.s.made()) {
                let (s1, x) = check_expr(p.s, args[k].value, None);
                let (s2, y, b) = after_synthesis(s1, x, ty, p.b, args[k].value.span, span);
                Inferred { s: s2, args: p.args.push(y), b }
            } else {
                let (s1, want) = substitute_bindings(p.s, ty, p.b, span);
                let (s2, x) = check_expr(s1, args[k].value, Some(want));
                Inferred { s: s2, args: p.args.push(x), b: p.b }
            }
        } else {
            Inferred { s: p.s, args: p.args.push(failed(span)), b: p.b }
        }
    }
}

/// `send(gate.opened, message)` builds a task: a full mailbox may suspend the sender.
pub open spec fn check_send(s: State, args: Seq<ast::Arg>, span: Span) -> (State, model::Expr)
    decreases args, 2nat, 0nat,
{
    if args.len() != 2 {
        (s, failed(span))
    } else {
        let (s1, target) = check_expr(s, args[0].value, None);
        match target.ty {
            model::Ty::Error => (s1, failed(span)),
            model::Ty::Input(message) => {
                let (s2, value) = check_expr(s1, args[1].value, Some(*message));
                (
                    s2,
                    plain(
                        model::ExprKind::Builtin {
                            builtin: Builtin::Send,
                            args: seq![target, value],
                        },
                        model::Ty::Task(Box::new(model::Ty::Unit)),
                        span,
                    ),
                )
            },
            _ => (
                s1.push(reports::send_not_input(args[0].span, s1.ty_name(target.ty))),
                failed(span),
            ),
        }
    }
}

/// `latest(gate.snapshot)`: the last published value of an exported signal.
pub open spec fn check_latest(s: State, args: Seq<ast::Arg>, span: Span) -> (State, model::Expr)
    decreases args, 2nat, 0nat,
{
    if args.len() != 1 {
        (s, failed(span))
    } else {
        let (s1, target) = check_expr(s, args[0].value, None);
        match target.ty {
            model::Ty::Error => (s1, failed(span)),
            model::Ty::Signal(element) => (
                s1,
                plain(
                    model::ExprKind::Builtin { builtin: Builtin::Latest, args: seq![target] },
                    *element,
                    span,
                ),
            ),
            _ => (
                s1.push(reports::latest_not_signal(args[0].span, s1.ty_name(target.ty))),
                failed(span),
            ),
        }
    }
}

// ---------------------------------------------------------------- control flow

pub open spec fn check_if(s: State, e: ast::Expr, expected: Option<model::Ty>) -> (
    State,
    model::Expr,
)
    decreases e, 2nat, 0nat,
{
    match e.kind {
        ast::ExprKind::If { cond, then, els } => {
            let (s1, c) = check_expr(s, *cond, Some(model::Ty::Bool));
            let (s2, t) = check_block(s1, then, expected, then.span);
            match els {
                Some(els) => {
                    let (s3, x) = check_expr(s2, *els, else_expected(expected, t.ty));
                    (s3, if_else_of(c, t, x, e.span))
                },
                None => if_of(s2, c, t, e.span),
            }
        },
        _ => (s, failed(e.span)),
    }
}

/// A loop cannot appear in a turn, which has to end. The frame opens before a condition: a
/// `break` there leaves this loop.
pub open spec fn check_loops(s: State, e: ast::Expr, expected: Option<model::Ty>) -> (
    State,
    model::Expr,
)
    decreases e, 2nat, 0nat,
{
    let span = e.span;
    match e.kind {
        ast::ExprKind::While { cond, body } => if s.ctx.is_turn() {
            (s.push(unterminating_report("while"@, span)), failed(span))
        } else {
            let (s1, c) = check_expr(s.open_loop(false, None), *cond, Some(model::Ty::Bool));
            let (s2, b) = check_block(s1, body, Some(model::Ty::Unit), body.span);
            while_of(s2.close_loop(), c, b, expected, span)
        },
        ast::ExprKind::Loop { body } => if s.ctx.is_turn() {
            (s.push(unterminating_report("loop"@, span)), failed(span))
        } else {
            let (s1, b) = check_block(
                s.open_loop(true, expected),
                body,
                Some(model::Ty::Unit),
                body.span,
            );
            (
                s1.close_loop(),
                plain(
                    model::ExprKind::Loop { body: Box::new(b) },
                    loop_ty(s1.top_loop()),
                    span,
                ),
            )
        },
        _ => (s, failed(span)),
    }
}

pub open spec fn check_break(s: State, e: ast::Expr) -> (State, model::Expr)
    decreases e, 2nat, 0nat,
{
    let span = e.span;
    match (e.kind, s.top_loop()) {
        (ast::ExprKind::Break { value }, Some(l)) => match value {
            Some(value) => if l.is_loop {
                let (s1, x) = check_expr(s, *value, l.result);
                break_with(s1, x, span)
            } else {
                let (s1, x) = check_expr(
                    s.push(reports::break_value_in_while(span)),
                    *value,
                    None,
                );
                (break_of_while(s1), bare_break(span))
            },
            None => (break_bare(s, span), bare_break(span)),
        },
        _ => (s.push(reports::break_outside(span)), failed(span)),
    }
}

pub open spec fn check_match(s: State, e: ast::Expr, expected: Option<model::Ty>) -> (
    State,
    model::Expr,
)
    decreases e, 2nat, 0nat,
{
    let span = e.span;
    match e.kind {
        ast::ExprKind::Match { scrutinee, arms } => {
            let (s1, x) = check_expr(s, *scrutinee, None);
            if arms@.len() == 0 {
                (s1.push(reports::empty_match(span)), failed(span))
            } else {
                let p = check_arms(s1, arms@, x.ty, expected);
                (
                    check_exhaustive(p.s, p.arms, x.ty, span),
                    plain(
                        model::ExprKind::Match { scrutinee: Box::new(x), arms: p.arms },
                        match p.result {
                            Some(t) => t,
                            None => model::Ty::Never,
                        },
                        span,
                    ),
                )
            }
        },
        _ => (s, failed(span)),
    }
}

/// The arms of a match so far, and the type they agree on.
pub struct Arms {
    pub s: State,
    pub arms: Seq<model::Arm>,
    pub result: Option<model::Ty>,
}

pub open spec fn check_arms(
    s: State,
    arms: Seq<ast::Arm>,
    ty: model::Ty,
    expected: Option<model::Ty>,
) -> Arms
    decreases arms, 1nat, 0nat,
{
    if arms.len() == 0 {
        Arms { s, arms: seq![], result: expected }
    } else {
        let p = check_arms(s, arms.drop_last(), ty, expected);
        let (s1, arm) = check_arm(p.s, arms.last(), ty, p.result);
        Arms { s: s1, arms: p.arms.push(arm), result: agreed(p.result, arm.body.ty) }
    }
}

/// An arm: its pattern's names are in scope in its guard and its body.
pub open spec fn check_arm(
    s: State,
    arm: ast::Arm,
    ty: model::Ty,
    result: Option<model::Ty>,
) -> (State, model::Arm)
    decreases arm, 5nat, 0nat,
{
    let (s1, pat) = pattern(s.open_scope(), arm.pat, ty);
    let (s2, guard) = match arm.guard {
        Some(g) => {
            let (s2, x) = check_expr(s1, g, Some(model::Ty::Bool));
            (s2, Some(x))
        },
        None => (s1, None),
    };
    let (s3, body) = check_expr(s2, arm.body, result);
    (s3.close_scope(), model::Arm { pat, guard, body, span: arm.span })
}

/// Waiting, starting, and scoping tasks: all of it only inside a `task fn`.
pub open spec fn check_tasks(s: State, e: ast::Expr, expected: Option<model::Ty>) -> (
    State,
    model::Expr,
)
    decreases e, 2nat, 0nat,
{
    let span = e.span;
    match e.kind {
        ast::ExprKind::Await(inner) => if s.ctx.is_turn() {
            (s.push(impure_report("await"@, "suspends"@, span)), failed(span))
        } else if !s.ctx.may_suspend() {
            (s.push(reports::await_outside(span)), failed(span))
        } else {
            let (s1, task) = check_expr(s, *inner, None);
            await_of(s1, task, span)
        },
        ast::ExprKind::Scope(block) => if s.ctx.is_turn() {
            (s.push(impure_report("scope"@, "starts tasks"@, span)), failed(span))
        } else if !s.ctx.may_suspend() {
            (s.push(reports::scope_outside(span)), failed(span))
        } else {
            let (s1, body) = check_block(
                s.with_scope_depth(deeper(s.scope_depth)),
                block,
                expected,
                block.span,
            );
            (
                s1.with_scope_depth(s.scope_depth),
                plain(model::ExprKind::Scope { body: Box::new(body) }, body.ty, span),
            )
        },
        ast::ExprKind::Spawn(inner) => if s.ctx.is_turn() {
            (s.push(impure_report("spawn"@, "starts a task"@, span)), failed(span))
        } else if !s.ctx.may_suspend() {
            (s.push(reports::spawn_outside(span)), failed(span))
        } else {
            let (s1, task) = check_expr(s, *inner, None);
            spawn_of(s1, task, span)
        },
        _ => (s, failed(span)),
    }
}

pub open spec fn deeper(n: usize) -> usize {
    if n < usize::MAX {
        (n + 1) as usize
    } else {
        n
    }
}

// ---------------------------------------------------------------- blocks

/// The statements of a block so far, and whether one of them does not come back.
pub struct Stmts {
    pub s: State,
    pub done: Seq<model::Stmt>,
    pub diverges: bool,
}

/// A block: a trailing expression is its value, and everything before it a statement.
pub open spec fn check_block(
    s: State,
    block: ast::Block,
    expected: Option<model::Ty>,
    span: Span,
) -> (State, model::Expr)
    decreases block, 3nat, 0nat,
{
    let all = block.stmts@;
    if all.len() > 0 && all.last().kind is Expr {
        let p = check_stmts(s.open_scope(), all.drop_last());
        let (s1, tail) = check_tail(p.s, all.last(), expected);
        (
            s1.close_scope(),
            plain(
                model::ExprKind::Block { stmts: p.done, tail: Some(Box::new(tail)) },
                tail.ty,
                span,
            ),
        )
    } else {
        let p = check_stmts(s.open_scope(), all);
        (
            p.s.close_scope(),
            plain(
                model::ExprKind::Block { stmts: p.done, tail: None },
                if p.diverges {
                    model::Ty::Never
                } else {
                    model::Ty::Unit
                },
                span,
            ),
        )
    }
}

/// The expression statement a block ends with.
pub open spec fn check_tail(s: State, stmt: ast::Stmt, expected: Option<model::Ty>) -> (
    State,
    model::Expr,
)
    decreases stmt, 5nat, 0nat,
{
    match stmt.kind {
        ast::StmtKind::Expr(e) => check_expr(s, e, expected),
        _ => (s, failed(stmt.span)),
    }
}

pub open spec fn check_stmts(s: State, list: Seq<ast::Stmt>) -> Stmts
    decreases list, 1nat, 0nat,
{
    if list.len() == 0 {
        Stmts { s, done: seq![], diverges: false }
    } else {
        let p = check_stmts(s, list.drop_last());
        let (s1, kind) = check_stmt(p.s, list.last());
        let at = list.last().span;
        Stmts {
            s: if drops_task(kind) {
                s1.push(reports::discarded_task(at))
            } else {
                s1
            },
            done: p.done.push(model::Stmt { kind, span: at }),
            diverges: p.diverges || stmt_diverges(kind),
        }
    }
}

/// Whether a statement does not come back.
pub open spec fn stmt_diverges(kind: model::StmtKind) -> bool {
    match kind {
        model::StmtKind::Expr(e) => e.ty is Never,
        model::StmtKind::Let { value, .. } => value.ty is Never,
        _ => false,
    }
}

/// Whether a statement builds a task and drops it.
pub open spec fn drops_task(kind: model::StmtKind) -> bool {
    match kind {
        model::StmtKind::Expr(e) => e.ty is Task,
        _ => false,
    }
}

/// The type a `let` without an annotation gives.
pub open spec fn let_ty(declared: Option<model::Ty>, value: model::Ty) -> model::Ty {
    match declared {
        Some(t) => t,
        None => if value is Never {
            model::Ty::Unit
        } else {
            value
        },
    }
}

/// The annotation of a `let`.
#[verifier::opaque]
pub open spec fn declared_ty(s: State, ty: Option<ast::Type>) -> (State, Option<model::Ty>) {
    match ty {
        Some(t) => {
            let (s1, found) = resolve_ty(s, t);
            (s1, Some(found))
        },
        None => (s, None),
    }
}

pub open spec fn check_stmt(s: State, stmt: ast::Stmt) -> (State, model::StmtKind)
    decreases stmt, 5nat, 0nat,
{
    let span = stmt.span;
    match stmt.kind {
        ast::StmtKind::Let { mutable, name, ty, value } => {
            let (s1, declared) = declared_ty(s, ty);
            let (s2, v) = check_expr(s1, value, declared);
            let (s3, local) = declare_local(
                s2,
                name.name@,
                let_ty(declared, v.ty),
                mutable,
                name.span,
            );
            (s3, model::StmtKind::Let { local, value: v })
        },
        ast::StmtKind::Assign { target, value } => {
            let (s1, place) = check_expr(s.with_assigning(true), target, None);
            let s2 = check_assignable(s1.with_assigning(false), place, target.span);
            let (s3, v) = check_expr(s2, value, Some(place.ty));
            (s3, model::StmtKind::Assign { place, value: v })
        },
        ast::StmtKind::Return(value) => match value {
            Some(e) => {
                let (s1, v) = check_expr(s, e, Some(s.ret));
                (s1, return_stmt(Some(v), span))
            },
            None => (
                if model::Ty::Unit.fits(s.ret) {
                    s
                } else {
                    s.push(reports::mismatch(span, s.ty_name(s.ret), "()"@))
                },
                return_stmt(None, span),
            ),
        },
        ast::StmtKind::After { task, reply } => if !s.in_handler {
            (s.push(reports::after_outside(span)), refused_effect(span))
        } else {
            let (s1, t) = check_expr(s.with_ctx(Ctx::Effect), task, None);
            after_of(s1.with_ctx(s.ctx), t, reply, span)
        },
        ast::StmtKind::Expr(e) => {
            let (s1, x) = check_expr(s, e, None);
            (s1, model::StmtKind::Expr(x))
        },
    }
}

pub open spec fn return_stmt(value: Option<model::Expr>, span: Span) -> model::StmtKind {
    model::StmtKind::Expr(
        plain(
            model::ExprKind::Return {
                value: match value {
                    Some(v) => Some(Box::new(v)),
                    None => None,
                },
            },
            model::Ty::Never,
            span,
        ),
    )
}

// ---------------------------------------------------------------- from outside

/// A checked expression, from outside.
#[verifier::opaque]
pub open spec fn expression(s: State, e: ast::Expr, expected: Option<model::Ty>) -> (
    State,
    model::Expr,
) {
    check_expr(s, e, expected)
}

/// A checked block, from outside.
#[verifier::opaque]
pub open spec fn body(s: State, block: ast::Block, expected: Option<model::Ty>) -> (
    State,
    model::Expr,
) {
    check_block(s, block, expected, block.span)
}

// ---------------------------------------------------------------- carrying it out

impl Checker {
    /// A checked expression, fitted to what its position wants.
    pub fn check_expr(&mut self, e: &ast::Expr, expected: &Option<Ty>) -> (r: Expr)
        ensures
            final(self)@ == check_expr(old(self)@, *e, maybe(*expected)).0,
            r@ == check_expr(old(self)@, *e, maybe(*expected)).1,
        decreases e, 4nat, 0nat,
    {
        let x = self.check_kind(e, expected);
        proof {
            x.look();
        }
        if let ExprKind::Error = x.kind {
            return x;
        }
        self.expect(x, expected, e.span)
    }

    fn check_kind(&mut self, e: &ast::Expr, expected: &Option<Ty>) -> (r: Expr)
        ensures
            final(self)@ == check_kind(old(self)@, *e, maybe(*expected)).0,
            r@ == check_kind(old(self)@, *e, maybe(*expected)).1,
        decreases e, 3nat, 0nat,
    {
        let span = e.span;
        match &e.kind {
            ast::ExprKind::Unit => make(ExprKind::Unit, Ty::Unit, span),
            ast::ExprKind::Int(v) => make(ExprKind::Int(*v), Ty::I64, span),
            ast::ExprKind::Float(v) => make(ExprKind::Float(*v), Ty::F64, span),
            ast::ExprKind::Str(v) => make(ExprKind::Str(v.clone()), Ty::Str, span),
            ast::ExprKind::Bool(v) => make(ExprKind::Bool(*v), Ty::Bool, span),
            ast::ExprKind::Path(path) => self.check_path(path, expected),
            ast::ExprKind::Continue => self.check_continue(span),
            ast::ExprKind::Lambda { .. } => {
                self.push(say::lambda(span));
                error_expr(span)
            },
            ast::ExprKind::Block(block) => self.check_block(block, expected, span),
            ast::ExprKind::SpawnReactor { path, args } => {
                let plan = self.plan_spawn_reactor(path, args, span);
                self.run_plan(plan, args, span)
            },
            ast::ExprKind::Field { .. } => self.check_operand(e),
            ast::ExprKind::Unary { .. } => self.check_operand(e),
            ast::ExprKind::Binary { .. } => self.check_operand(e),
            ast::ExprKind::Index { .. } => self.check_operand(e),
            ast::ExprKind::Try(_) => self.check_operand(e),
            ast::ExprKind::Call { .. } => self.check_call(e, expected),
            ast::ExprKind::If { .. } => self.check_if(e, expected),
            ast::ExprKind::Match { .. } => self.check_match(e, expected),
            ast::ExprKind::While { .. } => self.check_loops(e, expected),
            ast::ExprKind::Loop { .. } => self.check_loops(e, expected),
            ast::ExprKind::Break { .. } => self.check_break(e),
            ast::ExprKind::Await(_) => self.check_tasks(e, expected),
            ast::ExprKind::Scope(_) => self.check_tasks(e, expected),
            ast::ExprKind::Spawn(_) => self.check_tasks(e, expected),
        }
    }

    fn check_operand(&mut self, e: &ast::Expr) -> (r: Expr)
        ensures
            final(self)@ == check_operand(old(self)@, *e).0,
            r@ == check_operand(old(self)@, *e).1,
        decreases e, 2nat, 0nat,
    {
        let span = e.span;
        match &e.kind {
            ast::ExprKind::Field { base, name } => {
                let b = self.check_expr(base, &None);
                return self.field_access(b, name, span);
            },
            ast::ExprKind::Unary { op, expr } => {
                if *op == ast::UnOp::RefMut {
                    self.push(say::exclusive_borrow(span));
                    return self.check_expr(expr, &None);
                }
                let x = self.check_expr(expr, &None);
                if *op == ast::UnOp::Ref {
                    return borrow_expr(x, span);
                }
                return self.unary_of(*op, x, span);
            },
            ast::ExprKind::Binary { op, lhs, rhs } => {
                if *op == ast::BinOp::And || *op == ast::BinOp::Or {
                    let l = self.check_expr(lhs, &Some(Ty::Bool));
                    let r = self.check_expr(rhs, &Some(Ty::Bool));
                    return make(
                        ExprKind::ShortCircuit {
                            and: *op == ast::BinOp::And,
                            lhs: Box::new(l),
                            rhs: Box::new(r),
                        },
                        Ty::Bool,
                        span,
                    );
                }
                let l = self.check_expr(lhs, &None);
                proof {
                    l.look();
                }
                let want = Some(l.ty.copy());
                let r = self.check_expr(rhs, &want);
                return self.binary_of(*op, l, r, span);
            },
            ast::ExprKind::Index { base, index } => {
                let b = self.check_expr(base, &None);
                proof {
                    b.look();
                }
                if is_error(&b.ty) {
                    return error_expr(span);
                }
                if let Ty::Bytes = owned_ty(&b.ty) {
                    let i = self.check_expr(index, &Some(Ty::I64));
                    let args = two(b, i);
                    return make(
                        ExprKind::Builtin { builtin: Builtin::BytesAt, args },
                        Ty::I64,
                        span,
                    );
                }
                self.not_indexable(&b, span);
                return error_expr(span);
            },
            ast::ExprKind::Try(inner) => {
                let x = self.check_expr(inner, &None);
                return self.try_of(x, span);
            },
            _ => {
                return error_expr(span);
            },
        }
    }

    fn explicit_types(&mut self, list: &Vec<ast::Type>) -> (r: Option<Vec<Ty>>)
        ensures
            final(self)@ == explicit_types(old(self)@, list@).0,
            maybe_tys(r) == explicit_types(old(self)@, list@).1,
    {
        proof {
            reveal(explicit_types);
        }
        if list.len() == 0 {
            None
        } else {
            Some(self.resolve_all(list))
        }
    }

    fn check_call(&mut self, e: &ast::Expr, expected: &Option<Ty>) -> (r: Expr)
        ensures
            final(self)@ == check_call(old(self)@, *e, maybe(*expected)).0,
            r@ == check_call(old(self)@, *e, maybe(*expected)).1,
        decreases e, 2nat, 0nat,
    {
        let span = e.span;
        match &e.kind {
            ast::ExprKind::Call { callee, type_args, args } => {
                let explicit = self.explicit_types(type_args);
                match &callee.kind {
                    ast::ExprKind::Path(path) => {
                        let plan = self.plan_path(path, explicit, args, expected, span);
                        return self.run_plan(plan, args, span);
                    },
                    ast::ExprKind::Field { base, name } => {
                        let receiver = self.check_expr(base, &None);
                        let plan = self.plan_method(receiver, name, explicit, args, span);
                        return self.run_plan(plan, args, span);
                    },
                    _ => {
                        self.push(say::not_callable(callee.span));
                        return error_expr(span);
                    },
                }
            },
            _ => {
                return error_expr(span);
            },
        }
    }

    fn run_plan(&mut self, plan: PlanMade, args: &Vec<ast::Arg>, span: Span) -> (r: Expr)
        ensures
            final(self)@ == run_plan(old(self)@, plan@, args@, span).0,
            r@ == run_plan(old(self)@, plan@, args@, span).1,
        decreases args, 3nat, 0nat,
    {
        match plan {
            PlanMade::Done(x) => {
                return x;
            },
            PlanMade::Each { wants, order, finish } => {
                let checked = self.check_each(&wants, &order, args, span);
                return self.conclude(finish, checked, span);
            },
            PlanMade::Infer { types, order, start, settle } => {
                let (checked, b) = self.check_inferred(&types, &order, args, start, span);
                return self.conclude_inferred(settle, checked, &b, span);
            },
            PlanMade::Send => {
                return self.check_send(args, span);
            },
            PlanMade::Latest => {
                return self.check_latest(args, span);
            },
        }
    }

    fn check_each(
        &mut self,
        wants: &Vec<Option<Ty>>,
        order: &Vec<usize>,
        args: &Vec<ast::Arg>,
        span: Span,
    ) -> (r: Vec<Expr>)
        ensures
            final(self)@ == check_each(old(self)@, bindings(wants@), order@, args@, span).0,
            exprs(r@) == check_each(old(self)@, bindings(wants@), order@, args@, span).1,
        decreases args, 1nat, 0nat,
    {
        let mut r: Vec<Expr> = Vec::new();
        let ghost start = self@;
        let ghost all = bindings(wants@);
        assert(all.take(0) =~= seq![]);
        assert(exprs(r@) =~= seq![]);
        for i in 0..wants.len()
            invariant
                all == bindings(wants@),
                self@ == check_each(start, all.take(i as int), order@, args@, span).0,
                exprs(r@) == check_each(start, all.take(i as int), order@, args@, span).1,
        {
            let ghost before = exprs(r@);
            assert(all.take(i + 1).drop_last() =~= all.take(i as int));
            assert(all.take(i + 1).last() == maybe(wants@[i as int]));
            let x = if i < order.len() && order[i] < args.len() {
                self.check_expr(&args[order[i]].value, &wants[i])
            } else {
                error_expr(span)
            };
            r.push(x);
            assert(exprs(r@) =~= before.push(x@));
        }
        assert(all.take(wants.len() as int) =~= all);
        r
    }

    fn check_inferred(
        &mut self,
        types: &Vec<Ty>,
        order: &Vec<usize>,
        args: &Vec<ast::Arg>,
        start: Vec<Option<Ty>>,
        span: Span,
    ) -> (r: (Vec<Expr>, Vec<Option<Ty>>))
        ensures
            final(self)@ == check_inferred(
                old(self)@,
                tys(types@),
                order@,
                args@,
                bindings(start@),
                span,
            ).s,
            exprs(r.0@) == check_inferred(
                old(self)@,
                tys(types@),
                order@,
                args@,
                bindings(start@),
                span,
            ).args,
            bindings(r.1@) == check_inferred(
                old(self)@,
                tys(types@),
                order@,
                args@,
                bindings(start@),
                span,
            ).b,
        decreases args, 1nat, 0nat,
    {
        let mut r: Vec<Expr> = Vec::new();
        let ghost first = self@;
        let ghost given = bindings(start@);
        let mut b = start;
        let ghost all = tys(types@);
        assert(all.take(0) =~= seq![]);
        assert(exprs(r@) =~= seq![]);
        for i in 0..types.len()
            invariant
                all == tys(types@),
                self@ == check_inferred(
                    first,
                    all.take(i as int),
                    order@,
                    args@,
                    given,
                    span,
                ).s,
                exprs(r@) == check_inferred(
                    first,
                    all.take(i as int),
                    order@,
                    args@,
                    given,
                    span,
                ).args,
                bindings(b@) == check_inferred(
                    first,
                    all.take(i as int),
                    order@,
                    args@,
                    given,
                    span,
                ).b,
        {
            let ghost before = exprs(r@);
            assert(all.take(i + 1).drop_last() =~= all.take(i as int));
            assert(all.take(i + 1).last() == types@[i as int]@);
            let x = if i < order.len() && order[i] < args.len() {
                let arg = &args[order[i]].value;
                let made: usize = self.made();
                if self.mentions_unbound(&types[i], &b, made) {
                    let x = self.check_expr(arg, &None);
                    self.after_synthesis(x, &types[i], &mut b, arg.span, span)
                } else {
                    let want = self.substitute_bindings(&types[i], &b, span);
                    self.check_expr(arg, &Some(want))
                }
            } else {
                error_expr(span)
            };
            r.push(x);
            assert(exprs(r@) =~= before.push(x@));
        }
        assert(all.take(types.len() as int) =~= all);
        (r, b)
    }

    fn check_send(&mut self, args: &Vec<ast::Arg>, span: Span) -> (r: Expr)
        ensures
            final(self)@ == check_send(old(self)@, args@, span).0,
            r@ == check_send(old(self)@, args@, span).1,
        decreases args, 2nat, 0nat,
    {
        if args.len() != 2 {
            return error_expr(span);
        }
        let target = self.check_expr(&args[0].value, &None);
        proof {
            target.look();
        }
        match &target.ty {
            Ty::Error => {
                return error_expr(span);
            },
            Ty::Input(message) => {
                let want = Some(message.copy());
                let value = self.check_expr(&args[1].value, &want);
                let args = two(target, value);
                return make(
                    ExprKind::Builtin { builtin: Builtin::Send, args },
                    Ty::Task(Box::new(Ty::Unit)),
                    span,
                );
            },
            _ => {
                let name = self.ty_name(&target.ty);
                self.push(say::send_not_input(args[0].span, name.as_str()));
                return error_expr(span);
            },
        }
    }

    fn check_latest(&mut self, args: &Vec<ast::Arg>, span: Span) -> (r: Expr)
        ensures
            final(self)@ == check_latest(old(self)@, args@, span).0,
            r@ == check_latest(old(self)@, args@, span).1,
        decreases args, 2nat, 0nat,
    {
        if args.len() != 1 {
            return error_expr(span);
        }
        let target = self.check_expr(&args[0].value, &None);
        proof {
            target.look();
        }
        match &target.ty {
            Ty::Error => {
                return error_expr(span);
            },
            Ty::Signal(element) => {
                let ty = element.copy();
                let args = one(target);
                return make(ExprKind::Builtin { builtin: Builtin::Latest, args }, ty, span);
            },
            _ => {
                let name = self.ty_name(&target.ty);
                self.push(say::latest_not_signal(args[0].span, name.as_str()));
                return error_expr(span);
            },
        }
    }

    fn check_if(&mut self, e: &ast::Expr, expected: &Option<Ty>) -> (r: Expr)
        ensures
            final(self)@ == check_if(old(self)@, *e, maybe(*expected)).0,
            r@ == check_if(old(self)@, *e, maybe(*expected)).1,
        decreases e, 2nat, 0nat,
    {
        match &e.kind {
            ast::ExprKind::If { cond, then, els } => {
                let c = self.check_expr(cond, &Some(Ty::Bool));
                let t = self.check_block(then, expected, then.span);
                proof {
                    t.look();
                }
                match els {
                    Some(els) => {
                        let want = else_wants(expected, &t.ty);
                        let x = self.check_expr(els, &want);
                        return if_else(c, t, x, e.span);
                    },
                    None => {
                        return self.if_of(c, t, e.span);
                    },
                }
            },
            _ => {
                return error_expr(e.span);
            },
        }
    }

    fn check_loops(&mut self, e: &ast::Expr, expected: &Option<Ty>) -> (r: Expr)
        ensures
            final(self)@ == check_loops(old(self)@, *e, maybe(*expected)).0,
            r@ == check_loops(old(self)@, *e, maybe(*expected)).1,
        decreases e, 2nat, 0nat,
    {
        let span = e.span;
        match &e.kind {
            ast::ExprKind::While { cond, body } => {
                if self.ctx().in_turn() {
                    self.push(unterminating("while", span));
                    return error_expr(span);
                }
                self.open_loop(false, None);
                let c = self.check_expr(cond, &Some(Ty::Bool));
                let b = self.check_block(body, &Some(Ty::Unit), body.span);
                self.close_loop();
                return self.while_of(c, b, expected, span);
            },
            ast::ExprKind::Loop { body } => {
                if self.ctx().in_turn() {
                    self.push(unterminating("loop", span));
                    return error_expr(span);
                }
                self.open_loop(true, copy_maybe(expected));
                let b = self.check_block(body, &Some(Ty::Unit), body.span);
                let ty = match self.top_loop() {
                    Some(l) => {
                        if l.saw_break {
                            match l.result {
                                Some(t) => t,
                                None => Ty::Unit,
                            }
                        } else {
                            Ty::Never
                        }
                    },
                    None => Ty::Never,
                };
                self.close_loop();
                return make(ExprKind::Loop { body: Box::new(b) }, ty, span);
            },
            _ => {
                return error_expr(span);
            },
        }
    }

    fn check_break(&mut self, e: &ast::Expr) -> (r: Expr)
        ensures
            final(self)@ == check_break(old(self)@, *e).0,
            r@ == check_break(old(self)@, *e).1,
        decreases e, 2nat, 0nat,
    {
        let span = e.span;
        match (&e.kind, self.top_loop()) {
            (ast::ExprKind::Break { value }, Some(l)) => match value {
                Some(value) => {
                    if l.is_loop {
                        let x = self.check_expr(value, &l.result);
                        return self.break_with(x, span);
                    }
                    self.push(say::break_value_in_while(span));
                    let _ = self.check_expr(value, &None);
                    self.break_of_while();
                    return make(ExprKind::Break { value: None }, Ty::Never, span);
                },
                None => {
                    self.break_bare(span);
                    return make(ExprKind::Break { value: None }, Ty::Never, span);
                },
            },
            _ => {
                self.push(say::break_outside(span));
                return error_expr(span);
            },
        }
    }

    fn check_match(&mut self, e: &ast::Expr, expected: &Option<Ty>) -> (r: Expr)
        ensures
            final(self)@ == check_match(old(self)@, *e, maybe(*expected)).0,
            r@ == check_match(old(self)@, *e, maybe(*expected)).1,
        decreases e, 2nat, 0nat,
    {
        let span = e.span;
        match &e.kind {
            ast::ExprKind::Match { scrutinee, arms } => {
                let x = self.check_expr(scrutinee, &None);
                proof {
                    x.look();
                }
                if arms.len() == 0 {
                    self.push(say::empty_match(span));
                    return error_expr(span);
                }
                let (checked, result) = self.check_arms(arms, &x.ty, expected);
                self.check_exhaustive(&checked, &x.ty, span);
                let ty = match result {
                    Some(t) => t,
                    None => Ty::Never,
                };
                return make(
                    ExprKind::Match { scrutinee: Box::new(x), arms: checked },
                    ty,
                    span,
                );
            },
            _ => {
                return error_expr(span);
            },
        }
    }

    fn check_arms(&mut self, arms: &Vec<ast::Arm>, ty: &Ty, expected: &Option<Ty>) -> (r: (
        Vec<Arm>,
        Option<Ty>,
    ))
        ensures
            final(self)@ == check_arms(old(self)@, arms@, ty@, maybe(*expected)).s,
            arms_of(r.0@) == check_arms(old(self)@, arms@, ty@, maybe(*expected)).arms,
            maybe(r.1) == check_arms(old(self)@, arms@, ty@, maybe(*expected)).result,
        decreases arms, 1nat, 0nat,
    {
        let mut r: Vec<Arm> = Vec::new();
        let mut result = copy_maybe(expected);
        let ghost start = self@;
        let ghost want = maybe(*expected);
        let ghost all = arms@;
        assert(all.take(0) =~= seq![]);
        assert(arms_of(r@) =~= seq![]);
        for i in 0..arms.len()
            invariant
                all == arms@,
                self@ == check_arms(start, all.take(i as int), ty@, want).s,
                arms_of(r@) == check_arms(start, all.take(i as int), ty@, want).arms,
                maybe(result) == check_arms(start, all.take(i as int), ty@, want).result,
        {
            let ghost before = arms_of(r@);
            assert(all.take(i + 1).drop_last() =~= all.take(i as int));
            assert(all.take(i + 1).last() == arms@[i as int]);
            let arm = self.check_arm(&arms[i], ty, &result);
            proof {
                arm.body.look();
            }
            if result.is_none() {
                if !is_never(&arm.body.ty) && !is_error(&arm.body.ty) {
                    result = Some(arm.body.ty.copy());
                }
            }
            let ghost view = arm@;
            r.push(arm);
            assert(arms_of(r@) =~= before.push(view));
        }
        assert(all.take(arms.len() as int) =~= all);
        (r, result)
    }

    fn check_arm(&mut self, arm: &ast::Arm, ty: &Ty, result: &Option<Ty>) -> (r: Arm)
        ensures
            final(self)@ == check_arm(old(self)@, *arm, ty@, maybe(*result)).0,
            r@ == check_arm(old(self)@, *arm, ty@, maybe(*result)).1,
        decreases arm, 5nat, 0nat,
    {
        self.open_scope();
        let pat = self.pattern(&arm.pat, ty);
        let guard = match &arm.guard {
            Some(g) => Some(self.check_expr(g, &Some(Ty::Bool))),
            None => None,
        };
        let body = self.check_expr(&arm.body, result);
        self.close_scope();
        Arm { pat, guard, body, span: arm.span }
    }

    fn check_tasks(&mut self, e: &ast::Expr, expected: &Option<Ty>) -> (r: Expr)
        ensures
            final(self)@ == check_tasks(old(self)@, *e, maybe(*expected)).0,
            r@ == check_tasks(old(self)@, *e, maybe(*expected)).1,
        decreases e, 2nat, 0nat,
    {
        let span = e.span;
        let ctx = self.ctx();
        match &e.kind {
            ast::ExprKind::Await(inner) => {
                if ctx.in_turn() {
                    self.push(impure("await", "suspends", span));
                    return error_expr(span);
                }
                if !ctx.suspends() {
                    self.push(say::await_outside(span));
                    return error_expr(span);
                }
                let task = self.check_expr(inner, &None);
                return self.await_of(task, span);
            },
            ast::ExprKind::Scope(block) => {
                if ctx.in_turn() {
                    self.push(impure("scope", "starts tasks", span));
                    return error_expr(span);
                }
                if !ctx.suspends() {
                    self.push(say::scope_outside(span));
                    return error_expr(span);
                }
                let depth: usize = self.scope_depth();
                let inside: usize = if depth < usize::MAX {
                    depth + 1
                } else {
                    depth
                };
                self.set_scope_depth(inside);
                let body = self.check_block(block, expected, block.span);
                self.set_scope_depth(depth);
                proof {
                    body.look();
                }
                let ty = body.ty.copy();
                return make(ExprKind::Scope { body: Box::new(body) }, ty, span);
            },
            ast::ExprKind::Spawn(inner) => {
                if ctx.in_turn() {
                    self.push(impure("spawn", "starts a task", span));
                    return error_expr(span);
                }
                if !ctx.suspends() {
                    self.push(say::spawn_outside(span));
                    return error_expr(span);
                }
                let task = self.check_expr(inner, &None);
                return self.spawn_of(task, span);
            },
            _ => {
                return error_expr(span);
            },
        }
    }

    fn check_block(&mut self, block: &ast::Block, expected: &Option<Ty>, span: Span) -> (r: Expr)
        ensures
            final(self)@ == check_block(old(self)@, *block, maybe(*expected), span).0,
            r@ == check_block(old(self)@, *block, maybe(*expected), span).1,
        decreases block, 3nat, 0nat,
    {
        let n: usize = block.stmts.len();
        let tailed = n > 0 && is_expr_stmt(&block.stmts[n - 1]);
        self.open_scope();
        if tailed {
            let (stmts, _) = self.check_stmts(&block.stmts, n - 1);
            assert(block.stmts@.take(n - 1) =~= block.stmts@.drop_last());
            let tail = self.check_tail(&block.stmts[n - 1], expected);
            self.close_scope();
            proof {
                tail.look();
            }
            let ty = tail.ty.copy();
            return make(
                ExprKind::Block { stmts, tail: Some(Box::new(tail)) },
                ty,
                span,
            );
        }
        let (stmts, diverges) = self.check_stmts(&block.stmts, n);
        assert(block.stmts@.take(n as int) =~= block.stmts@);
        self.close_scope();
        let ty = if diverges {
            Ty::Never
        } else {
            Ty::Unit
        };
        make(ExprKind::Block { stmts, tail: None }, ty, span)
    }

    fn check_tail(&mut self, stmt: &ast::Stmt, expected: &Option<Ty>) -> (r: Expr)
        ensures
            final(self)@ == check_tail(old(self)@, *stmt, maybe(*expected)).0,
            r@ == check_tail(old(self)@, *stmt, maybe(*expected)).1,
        decreases stmt, 5nat, 0nat,
    {
        match &stmt.kind {
            ast::StmtKind::Expr(e) => self.check_expr(e, expected),
            _ => error_expr(stmt.span),
        }
    }

    fn check_stmts(&mut self, list: &Vec<ast::Stmt>, n: usize) -> (r: (Vec<Stmt>, bool))
        requires
            n <= list.len(),
        ensures
            final(self)@ == check_stmts(old(self)@, list@.take(n as int)).s,
            stmts_of(r.0@) == check_stmts(old(self)@, list@.take(n as int)).done,
            r.1 == check_stmts(old(self)@, list@.take(n as int)).diverges,
        decreases list, 1nat, 0nat,
    {
        let mut r: Vec<Stmt> = Vec::new();
        let mut diverges: bool = false;
        let ghost start = self@;
        let ghost all = list@;
        assert(all.take(0) =~= seq![]);
        assert(stmts_of(r@) =~= seq![]);
        for i in 0..n
            invariant
                n <= list.len(),
                all == list@,
                self@ == check_stmts(start, all.take(i as int)).s,
                stmts_of(r@) == check_stmts(start, all.take(i as int)).done,
                diverges == check_stmts(start, all.take(i as int)).diverges,
        {
            let ghost before = stmts_of(r@);
            assert(all.take(i + 1).drop_last() =~= all.take(i as int));
            assert(all.take(i + 1).last() == list@[i as int]);
            let span = list[i].span;
            let kind = self.check_stmt(&list[i]);
            if kind_diverges(&kind) {
                diverges = true;
            }
            if kind_drops_task(&kind) {
                self.push(say::discarded_task(span));
            }
            let stmt = Stmt { kind, span };
            let ghost view = stmt@;
            r.push(stmt);
            assert(stmts_of(r@) =~= before.push(view));
        }
        (r, diverges)
    }

    fn declared_ty(&mut self, ty: &Option<ast::Type>) -> (r: Option<Ty>)
        ensures
            final(self)@ == declared_ty(old(self)@, *ty).0,
            maybe(r) == declared_ty(old(self)@, *ty).1,
    {
        proof {
            reveal(declared_ty);
        }
        match ty {
            Some(t) => Some(self.resolve_ty(t)),
            None => None,
        }
    }

    fn check_stmt(&mut self, stmt: &ast::Stmt) -> (r: StmtKind)
        ensures
            final(self)@ == check_stmt(old(self)@, *stmt).0,
            stmt_kind(r) == check_stmt(old(self)@, *stmt).1,
        decreases stmt, 5nat, 0nat,
    {
        let span = stmt.span;
        match &stmt.kind {
            ast::StmtKind::Let { mutable, name, ty, value } => {
                let declared = self.declared_ty(ty);
                let v = self.check_expr(value, &declared);
                proof {
                    v.look();
                }
                let ty = match declared {
                    Some(t) => t,
                    None => {
                        if is_never(&v.ty) {
                            Ty::Unit
                        } else {
                            v.ty.copy()
                        }
                    },
                };
                let local = self.declare_local(name.name.as_str(), ty, *mutable, name.span);
                return StmtKind::Let { local, value: v };
            },
            ast::StmtKind::Assign { target, value } => {
                self.set_assigning(true);
                let place = self.check_expr(target, &None);
                self.set_assigning(false);
                self.check_assignable(&place, target.span);
                proof {
                    place.look();
                }
                let want = Some(place.ty.copy());
                let v = self.check_expr(value, &want);
                return StmtKind::Assign { place, value: v };
            },
            ast::StmtKind::Return(value) => {
                let ret = self.ret();
                match value {
                    Some(e) => {
                        let v = self.check_expr(e, &Some(ret));
                        return StmtKind::Expr(
                            make(
                                ExprKind::Return { value: Some(Box::new(v)) },
                                Ty::Never,
                                span,
                            ),
                        );
                    },
                    None => {
                        if !Ty::Unit.fits(&ret) {
                            let name = self.ty_name(&ret);
                            self.push(say::mismatch(span, name.as_str(), "()"));
                        }
                        return StmtKind::Expr(
                            make(ExprKind::Return { value: None }, Ty::Never, span),
                        );
                    },
                }
            },
            ast::StmtKind::After { task, reply } => {
                if !self.in_handler() {
                    self.push(say::after_outside(span));
                    return StmtKind::Expr(error_expr(span));
                }
                let outer = self.ctx();
                self.set_ctx(Ctx::Effect);
                let t = self.check_expr(task, &None);
                self.set_ctx(outer);
                return self.after_of(t, reply, span);
            },
            ast::StmtKind::Expr(e) => {
                return StmtKind::Expr(self.check_expr(e, &None));
            },
        }
    }

    /// A checked expression, from outside.
    pub fn expression(&mut self, e: &ast::Expr, expected: &Option<Ty>) -> (r: Expr)
        ensures
            final(self)@ == expression(old(self)@, *e, maybe(*expected)).0,
            r@ == expression(old(self)@, *e, maybe(*expected)).1,
    {
        proof {
            reveal(expression);
        }
        self.check_expr(e, expected)
    }

    /// A checked block, from outside.
    pub fn body(&mut self, block: &ast::Block, expected: &Option<Ty>) -> (r: Expr)
        ensures
            final(self)@ == body(old(self)@, *block, maybe(*expected)).0,
            r@ == body(old(self)@, *block, maybe(*expected)).1,
    {
        proof {
            reveal(body);
        }
        self.check_block(block, expected, block.span)
    }
}

fn one(a: Expr) -> (r: Vec<Expr>)
    ensures
        exprs(r@) == seq![a@],
{
    let mut r: Vec<Expr> = Vec::new();
    let ghost x = a@;
    r.push(a);
    assert(exprs(r@) =~= seq![x]);
    r
}

fn two(a: Expr, b: Expr) -> (r: Vec<Expr>)
    ensures
        exprs(r@) == seq![a@, b@],
{
    let mut r: Vec<Expr> = Vec::new();
    let ghost x = a@;
    let ghost y = b@;
    r.push(a);
    r.push(b);
    assert(exprs(r@) =~= seq![x, y]);
    r
}

fn is_expr_stmt(s: &ast::Stmt) -> (r: bool)
    ensures
        r == (s.kind is Expr),
{
    match &s.kind {
        ast::StmtKind::Expr(_) => true,
        _ => false,
    }
}

fn kind_diverges(kind: &StmtKind) -> (r: bool)
    ensures
        r == stmt_diverges(stmt_kind(*kind)),
{
    match kind {
        StmtKind::Expr(e) => {
            proof {
                e.look();
            }
            is_never(&e.ty)
        },
        StmtKind::Let { value, .. } => {
            proof {
                value.look();
            }
            is_never(&value.ty)
        },
        _ => false,
    }
}

fn kind_drops_task(kind: &StmtKind) -> (r: bool)
    ensures
        r == drops_task(stmt_kind(*kind)),
{
    match kind {
        StmtKind::Expr(e) => {
            proof {
                e.look();
            }
            match &e.ty {
                Ty::Task(_) => true,
                _ => false,
            }
        },
        _ => false,
    }
}

} // verus!
