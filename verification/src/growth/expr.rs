//! Each step of `expr.rs` keeps what was there.

use vstd::prelude::*;
use crate::ast;
use crate::model;
use crate::reports;
use crate::binding::owned;
use crate::call::{plan_method, plan_path, plan_spawn_reactor};
use crate::expr::{
    body, check_arm, check_arms, check_block, check_break, check_call, check_each, check_expr,
    check_if, check_inferred, check_kind, check_latest, check_loops, check_match, check_operand,
    check_send, check_stmt, check_stmts, check_tail, check_tasks, declared_ty, deeper,
    explicit_types, expression, run_plan,
};
use crate::growth::{grew, grew_reflexive, grew_transitive};
use crate::hir::Expr;
use crate::infer::mentions_unbound;
use crate::instances::substitute_bindings;
use crate::pat::pattern;
use crate::plan::Plan;
use crate::span::Span;
use crate::state::{Ctx, State};
use crate::steps::{check_assignable, else_expected};

verus! {

pub broadcast proof fn explicit_types_grows(s: State, list: Seq<ast::Type>)
    ensures
        grew(s, (#[trigger] explicit_types(s, list)).0),
{
    broadcast use {grew_reflexive, grew_transitive, crate::growth::resolve::resolve_all_grows};

    reveal(explicit_types);
}

pub broadcast proof fn declared_ty_grows(s: State, ty: Option<ast::Type>)
    ensures
        grew(s, (#[trigger] declared_ty(s, ty)).0),
{
    broadcast use {grew_reflexive, grew_transitive, crate::growth::resolve::resolve_ty_grows};

    reveal(declared_ty);
}

pub broadcast proof fn check_tail_grows(s: State, stmt: ast::Stmt, expected: Option<model::Ty>)
    ensures
        grew(s, (#[trigger] check_tail(s, stmt, expected)).0),
    decreases stmt, 5nat, 0nat,
{
    broadcast use {grew_reflexive, grew_transitive};

    match stmt.kind {
        ast::StmtKind::Expr(e) => {
            check_expr_grows(s, e, expected);
        },
        _ => {},
    }
}

pub broadcast proof fn check_tasks_grows(s: State, e: ast::Expr, expected: Option<model::Ty>)
    ensures
        grew(s, (#[trigger] check_tasks(s, e, expected)).0),
    decreases e, 2nat, 0nat,
{
    broadcast use {
        grew_reflexive,
        grew_transitive,
        crate::growth::state::push_grows,
        crate::growth::state::with_scope_depth_grows,
        crate::growth::steps::await_of_grows,
        crate::growth::steps::spawn_of_grows,
    };

    let span = e.span;
    match e.kind {
        ast::ExprKind::Await(inner) => {
            if !s.ctx.is_turn() {
                if s.ctx.may_suspend() {
                    check_expr_grows(s, *inner, None);
                }
            }
        },
        ast::ExprKind::Scope(block) => {
            if !s.ctx.is_turn() {
                if s.ctx.may_suspend() {
                    check_block_grows(
                        s.with_scope_depth(deeper(s.scope_depth)),
                        block,
                        expected,
                        block.span,
                    );
                }
            }
        },
        ast::ExprKind::Spawn(inner) => {
            if !s.ctx.is_turn() {
                if s.ctx.may_suspend() {
                    check_expr_grows(s, *inner, None);
                }
            }
        },
        _ => {},
    }
}

pub broadcast proof fn check_operand_grows(s: State, e: ast::Expr)
    ensures
        grew(s, (#[trigger] check_operand(s, e)).0),
    decreases e, 2nat, 0nat,
{
    broadcast use {
        grew_reflexive,
        grew_transitive,
        crate::growth::path::field_access_grows,
        crate::growth::state::push_grows,
        crate::growth::steps::binary_of_grows,
        crate::growth::steps::try_of_grows,
        crate::growth::steps::unary_of_grows,
    };

    let span = e.span;
    match e.kind {
        ast::ExprKind::Field { base, name } => {
            check_expr_grows(s, *base, None);
        },
        ast::ExprKind::Unary { op, expr } => {
            if op == ast::UnOp::RefMut {
                check_expr_grows(s.push(reports::exclusive_borrow(span)), *expr, None);
            } else {
                check_expr_grows(s, *expr, None);
            }
        },
        ast::ExprKind::Binary { op, lhs, rhs } => {
            if op == ast::BinOp::And || op  == ast::BinOp::Or {
                check_expr_grows(s, *lhs, Some(model::Ty::Bool));
                let (s1, l) = check_expr(s, *lhs, Some(model::Ty::Bool));
                check_expr_grows(s1, *rhs, Some(model::Ty::Bool));
            } else {
                check_expr_grows(s, *lhs, None);
                let (s1, l) = check_expr(s, *lhs, None);
                check_expr_grows(s1, *rhs, Some(l.ty));
            }
        },
        ast::ExprKind::Index { base, index } => {
            check_expr_grows(s, *base, None);
            let (s1, b) = check_expr(s, *base, None);
            if !(b.ty is Error) {
                if owned(b.ty) is Bytes {
                    check_expr_grows(s1, *index, Some(model::Ty::I64));
                }
            }
        },
        ast::ExprKind::Try(inner) => {
            check_expr_grows(s, *inner, None);
        },
        _ => {},
    }
}

pub broadcast proof fn check_arm_grows(
    s: State,
    arm: ast::Arm,
    ty: model::Ty,
    result: Option<model::Ty>,
)
    ensures
        grew(s, (#[trigger] check_arm(s, arm, ty, result)).0),
    decreases arm, 5nat, 0nat,
{
    broadcast use {
        grew_reflexive,
        grew_transitive,
        crate::growth::pat::pattern_grows,
        crate::growth::state::close_scope_grows,
        crate::growth::state::open_scope_grows,
    };

    let (s1, pat) = pattern(s.open_scope(), arm.pat, ty);
    match arm.guard {
        Some(g) => {
            check_expr_grows(s1, g, Some(model::Ty::Bool));
        },
        _ => {},
    }
    let (s2, guard) = match arm.guard { Some(g) => { let (
        s2,
        x,
    ) = check_expr(s1, g, Some(model::Ty::Bool)); (s2, Some(x)) }, None => (s1, None), };
    check_expr_grows(s2, arm.body, result);
}

pub broadcast proof fn check_arms_grows(
    s: State,
    arms: Seq<ast::Arm>,
    ty: model::Ty,
    expected: Option<model::Ty>,
)
    ensures
        grew(s, (#[trigger] check_arms(s, arms, ty, expected)).s),
    decreases arms, 1nat, 0nat,
{
    broadcast use {grew_reflexive, grew_transitive, crate::growth::state::push_grows};

    if arms.len() > 0 {
        check_arms_grows(s, arms.drop_last(), ty, expected);
        let p = check_arms(s, arms.drop_last(), ty, expected);
        check_arm_grows(p.s, arms.last(), ty, p.result);
    }
}

pub broadcast proof fn check_match_grows(s: State, e: ast::Expr, expected: Option<model::Ty>)
    ensures
        grew(s, (#[trigger] check_match(s, e, expected)).0),
    decreases e, 2nat, 0nat,
{
    broadcast use {
        grew_reflexive,
        grew_transitive,
        crate::growth::state::push_grows,
        crate::growth::steps::check_exhaustive_grows,
    };

    match e.kind {
        ast::ExprKind::Match { scrutinee, arms } => {
            check_expr_grows(s, *scrutinee, None);
            let (s1, x) = check_expr(s, *scrutinee, None);
            if arms@.len() > 0 {
                check_arms_grows(s1, arms@, x.ty, expected);
            }
        },
        _ => {},
    }
}

pub broadcast proof fn check_loops_grows(s: State, e: ast::Expr, expected: Option<model::Ty>)
    ensures
        grew(s, (#[trigger] check_loops(s, e, expected)).0),
    decreases e, 2nat, 0nat,
{
    broadcast use {
        grew_reflexive,
        grew_transitive,
        crate::growth::state::push_grows,
        crate::growth::steps::close_loop_grows,
        crate::growth::steps::open_loop_grows,
        crate::growth::steps::while_of_grows,
    };

    let span = e.span;
    match e.kind {
        ast::ExprKind::While { cond, body } => {
            if !s.ctx.is_turn() {
                check_expr_grows(s.open_loop(false, None), *cond, Some(model::Ty::Bool));
                let (s1, c) = check_expr(s.open_loop(false, None), *cond, Some(model::Ty::Bool));
                check_block_grows(s1, body, Some(model::Ty::Unit), body.span);
            }
        },
        ast::ExprKind::Loop { body } => {
            if !s.ctx.is_turn() {
                check_block_grows(
                    s.open_loop(true, expected),
                    body,
                    Some(model::Ty::Unit),
                    body.span,
                );
            }
        },
        _ => {},
    }
}

pub broadcast proof fn check_if_grows(s: State, e: ast::Expr, expected: Option<model::Ty>)
    ensures
        grew(s, (#[trigger] check_if(s, e, expected)).0),
    decreases e, 2nat, 0nat,
{
    broadcast use {grew_reflexive, grew_transitive, crate::growth::steps::if_of_grows};

    match e.kind {
        ast::ExprKind::If { cond, then, els } => {
            check_expr_grows(s, *cond, Some(model::Ty::Bool));
            let (s1, c) = check_expr(s, *cond, Some(model::Ty::Bool));
            check_block_grows(s1, then, expected, then.span);
            let (s2, t) = check_block(s1, then, expected, then.span);
            match els {
                Some(els) => {
                    check_expr_grows(s2, *els, else_expected(expected, t.ty));
                },
                _ => {},
            }
        },
        _ => {},
    }
}

pub broadcast proof fn check_send_grows(s: State, args: Seq<ast::Arg>, span: Span)
    ensures
        grew(s, (#[trigger] check_send(s, args, span)).0),
    decreases args, 2nat, 0nat,
{
    broadcast use {grew_reflexive, grew_transitive, crate::growth::state::push_grows};

    if args.len() == 2 {
        check_expr_grows(s, args[0].value, None);
        let (s1, target) = check_expr(s, args[0].value, None);
        match target.ty {
            model::Ty::Error => {},
            model::Ty::Input(message) => {
                check_expr_grows(s1, args[1].value, Some(*message));
            },
            _ => {},
        }
    }
}

pub broadcast proof fn check_latest_grows(s: State, args: Seq<ast::Arg>, span: Span)
    ensures
        grew(s, (#[trigger] check_latest(s, args, span)).0),
    decreases args, 2nat, 0nat,
{
    broadcast use {grew_reflexive, grew_transitive, crate::growth::state::push_grows};

    if args.len() == 1 {
        check_expr_grows(s, args[0].value, None);
    }
}

pub broadcast proof fn check_inferred_grows(
    s: State,
    types: Seq<model::Ty>,
    order: Seq<usize>,
    args: Seq<ast::Arg>,
    start: Seq<Option<model::Ty>>,
    span: Span,
)
    ensures
        grew(s, (#[trigger] check_inferred(s, types, order, args, start, span)).s),
    decreases args, 1nat, types.len(),
{
    broadcast use {
        grew_reflexive,
        grew_transitive,
        crate::growth::instances::substitute_bindings_grows,
        crate::growth::state::push_grows,
        crate::growth::steps::after_synthesis_grows,
    };

    if types.len() > 0 {
        check_inferred_grows(s, types.drop_last(), order, args, start, span);
        let p = check_inferred(s, types.drop_last(), order, args, start, span);
        let ty = types.last();
        let k = order[types.len() - 1] as int;
        if types.len() <= order.len() && k < args.len() {
            if mentions_unbound(p.s, ty, p.b, p.s.made()) {
                check_expr_grows(p.s, args[k].value, None);
            } else {
                let (s1, want) = substitute_bindings(p.s, ty, p.b, span);
                check_expr_grows(s1, args[k].value, Some(want));
            }
        }
    }
}

pub broadcast proof fn check_each_grows(
    s: State,
    wants: Seq<Option<model::Ty>>,
    order: Seq<usize>,
    args: Seq<ast::Arg>,
    span: Span,
)
    ensures
        grew(s, (#[trigger] check_each(s, wants, order, args, span)).0),
    decreases args, 1nat, wants.len(),
{
    broadcast use {grew_reflexive, grew_transitive, crate::growth::state::push_grows};

    if wants.len() > 0 {
        check_each_grows(s, wants.drop_last(), order, args, span);
        let (s1, done) = check_each(s, wants.drop_last(), order, args, span);
        let k = order[wants.len() - 1] as int;
        if wants.len() <= order.len() && k < args.len() {
            check_expr_grows(s1, args[k].value, wants.last());
        }
    }
}

pub broadcast proof fn run_plan_grows(s: State, plan: Plan, args: Seq<ast::Arg>, span: Span)
    ensures
        grew(s, (#[trigger] run_plan(s, plan, args, span)).0),
    decreases args, 3nat, 0nat,
{
    broadcast use {
        grew_reflexive,
        grew_transitive,
        crate::growth::plan::conclude_grows,
        crate::growth::plan::conclude_inferred_grows,
    };

    match plan {
        Plan::Done(x) => {},
        Plan::Each { wants, order, finish } => {
            check_each_grows(s, wants, order, args, span);
        },
        Plan::Infer { types, order, start, settle } => {
            check_inferred_grows(s, types, order, args, start, span);
        },
        Plan::Send => {
            check_send_grows(s, args, span);
        },
        Plan::Latest => {
            check_latest_grows(s, args, span);
        },
    }
}

pub broadcast proof fn check_call_grows(s: State, e: ast::Expr, expected: Option<model::Ty>)
    ensures
        grew(s, (#[trigger] check_call(s, e, expected)).0),
    decreases e, 2nat, 0nat,
{
    broadcast use {
        grew_reflexive,
        grew_transitive,
        crate::growth::call::plan_method_grows,
        crate::growth::call::plan_path_grows,
        explicit_types_grows,
        crate::growth::state::push_grows,
    };

    let span = e.span;
    match e.kind {
        ast::ExprKind::Call { callee, type_args, args } => {
            let (s1, explicit) = explicit_types(s, type_args@);
            match callee.kind {
                ast::ExprKind::Path(path) => {
                    let (s2, plan) = plan_path(s1, path, explicit, args@, expected, span);
                    run_plan_grows(s2, plan, args@, span);
                },
                ast::ExprKind::Field { base, name } => {
                    check_expr_grows(s1, *base, None);
                    let (s2, receiver) = check_expr(s1, *base, None);
                    let (s3, plan) = plan_method(s2, receiver, name, explicit, args@, span);
                    run_plan_grows(s3, plan, args@, span);
                },
                _ => {},
            }
        },
        _ => {},
    }
}

pub broadcast proof fn check_break_grows(s: State, e: ast::Expr)
    ensures
        grew(s, (#[trigger] check_break(s, e)).0),
    decreases e, 2nat, 0nat,
{
    broadcast use {
        grew_reflexive,
        grew_transitive,
        crate::growth::state::push_grows,
        crate::growth::steps::break_bare_grows,
        crate::growth::steps::break_of_while_grows,
        crate::growth::steps::break_with_grows,
    };

    let span = e.span;
    match (e.kind, s.top_loop()) {
        (ast::ExprKind::Break { value }, Some(l)) => {
            match value {
                Some(value) => {
                    if l.is_loop {
                        check_expr_grows(s, *value, l.result);
                    } else {
                        check_expr_grows(s.push(reports::break_value_in_while(span)), *value, None);
                    }
                },
                _ => {},
            }
        },
        _ => {},
    }
}

pub broadcast proof fn check_kind_grows(s: State, e: ast::Expr, expected: Option<model::Ty>)
    ensures
        grew(s, (#[trigger] check_kind(s, e, expected)).0),
    decreases e, 3nat, 0nat,
{
    broadcast use {
        grew_reflexive,
        grew_transitive,
        crate::growth::call::plan_spawn_reactor_grows,
        crate::growth::path::check_path_grows,
        crate::growth::state::push_grows,
        crate::growth::steps::check_continue_grows,
    };

    let span = e.span;
    match e.kind {
        ast::ExprKind::Unit => {},
        ast::ExprKind::Int(v) => {},
        ast::ExprKind::Float(v) => {},
        ast::ExprKind::Str(v) => {},
        ast::ExprKind::Bool(v) => {},
        ast::ExprKind::Path(path) => {},
        ast::ExprKind::Continue => {},
        ast::ExprKind::Lambda { .. } => {},
        ast::ExprKind::Block(block) => {
            check_block_grows(s, block, expected, span);
        },
        ast::ExprKind::SpawnReactor { path, args } => {
            let (s1, plan) = plan_spawn_reactor(s, path, args@, span);
            run_plan_grows(s1, plan, args@, span);
        },
        ast::ExprKind::Field { .. } => {
            check_operand_grows(s, e);
        },
        ast::ExprKind::Unary { .. } => {
            check_operand_grows(s, e);
        },
        ast::ExprKind::Binary { .. } => {
            check_operand_grows(s, e);
        },
        ast::ExprKind::Index { .. } => {
            check_operand_grows(s, e);
        },
        ast::ExprKind::Try(_) => {
            check_operand_grows(s, e);
        },
        ast::ExprKind::Call { .. } => {
            check_call_grows(s, e, expected);
        },
        ast::ExprKind::If { .. } => {
            check_if_grows(s, e, expected);
        },
        ast::ExprKind::Match { .. } => {
            check_match_grows(s, e, expected);
        },
        ast::ExprKind::While { .. } => {
            check_loops_grows(s, e, expected);
        },
        ast::ExprKind::Loop { .. } => {
            check_loops_grows(s, e, expected);
        },
        ast::ExprKind::Break { .. } => {
            check_break_grows(s, e);
        },
        ast::ExprKind::Await(_) => {
            check_tasks_grows(s, e, expected);
        },
        ast::ExprKind::Scope(_) => {
            check_tasks_grows(s, e, expected);
        },
        ast::ExprKind::Spawn(_) => {
            check_tasks_grows(s, e, expected);
        },
    }
}

pub broadcast proof fn check_expr_grows(s: State, e: ast::Expr, expected: Option<model::Ty>)
    ensures
        grew(s, (#[trigger] check_expr(s, e, expected)).0),
    decreases e, 4nat, 0nat,
{
    broadcast use {grew_reflexive, grew_transitive, crate::growth::binding::expect_grows};

    check_kind_grows(s, e, expected);
}

pub broadcast proof fn check_stmt_grows(s: State, stmt: ast::Stmt)
    ensures
        grew(s, (#[trigger] check_stmt(s, stmt)).0),
    decreases stmt, 5nat, 0nat,
{
    broadcast use {
        grew_reflexive,
        grew_transitive,
        crate::growth::binding::declare_local_grows,
        declared_ty_grows,
        crate::growth::state::push_grows,
        crate::growth::state::with_assigning_grows,
        crate::growth::state::with_ctx_grows,
        crate::growth::steps::after_of_grows,
        crate::growth::steps::check_assignable_grows,
    };

    let span = stmt.span;
    match stmt.kind {
        ast::StmtKind::Let { mutable, name, ty, value } => {
            let (s1, declared) = declared_ty(s, ty);
            check_expr_grows(s1, value, declared);
        },
        ast::StmtKind::Assign { target, value } => {
            check_expr_grows(s.with_assigning(true), target, None);
            let (s1, place) = check_expr(s.with_assigning(true), target, None);
            let s2 = check_assignable(s1.with_assigning(false), place, target.span);
            check_expr_grows(s2, value, Some(place.ty));
        },
        ast::StmtKind::Return(value) => {
            match value {
                Some(e) => {
                    check_expr_grows(s, e, Some(s.ret));
                },
                _ => {},
            }
        },
        ast::StmtKind::After { task, reply } => {
            if !(!s.in_handler) {
                check_expr_grows(s.with_ctx(Ctx::Effect), task, None);
            }
        },
        ast::StmtKind::Expr(e) => {
            check_expr_grows(s, e, None);
        },
    }
}

pub broadcast proof fn check_stmts_grows(s: State, list: Seq<ast::Stmt>)
    ensures
        grew(s, (#[trigger] check_stmts(s, list)).s),
    decreases list, 1nat, 0nat,
{
    broadcast use {grew_reflexive, grew_transitive, crate::growth::state::push_grows};

    if list.len() > 0 {
        check_stmts_grows(s, list.drop_last());
        let p = check_stmts(s, list.drop_last());
        check_stmt_grows(p.s, list.last());
    }
}

pub broadcast proof fn check_block_grows(
    s: State,
    block: ast::Block,
    expected: Option<model::Ty>,
    span: Span,
)
    ensures
        grew(s, (#[trigger] check_block(s, block, expected, span)).0),
    decreases block, 3nat, 0nat,
{
    broadcast use {
        grew_reflexive,
        grew_transitive,
        crate::growth::state::close_scope_grows,
        crate::growth::state::open_scope_grows,
    };

    let all = block.stmts@;
    if all.len() > 0 && all.last().kind is Expr {
        check_stmts_grows(s.open_scope(), all.drop_last());
        let p = check_stmts(s.open_scope(), all.drop_last());
        check_tail_grows(p.s, all.last(), expected);
    } else {
        check_stmts_grows(s.open_scope(), all);
    }
}

pub broadcast proof fn body_grows(s: State, block: ast::Block, expected: Option<model::Ty>)
    ensures
        grew(s, (#[trigger] body(s, block, expected)).0),
{
    broadcast use {grew_reflexive, grew_transitive, check_block_grows};

    reveal(body);
}

pub broadcast proof fn expression_grows(s: State, e: ast::Expr, expected: Option<model::Ty>)
    ensures
        grew(s, (#[trigger] expression(s, e, expected)).0),
{
    broadcast use {grew_reflexive, grew_transitive, check_expr_grows};

    reveal(expression);
}

} // verus!
