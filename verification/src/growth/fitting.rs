//! What stands for nothing has no type either.

use vstd::prelude::*;
use crate::ast;
use crate::model;
use crate::reports;
use crate::binding::{expect, owned};
use crate::call::{
    over, plan_bare, plan_builtin, plan_enum_variant, plan_far_path, plan_member, plan_method,
    plan_method_of, plan_name, plan_ns, plan_ns_variant, plan_other_name, plan_param_method,
    plan_path, plan_signal, plan_spawn_reactor, plan_struct_call, plan_type_method,
    plan_variant_call,
};
use crate::expr::{
    body, check_block, check_break, check_call, check_expr, check_if, check_kind, check_latest,
    check_loops, check_match, check_operand, check_send, check_stmts, check_tail, check_tasks,
    deeper, explicit_types, expression, run_plan,
};
use crate::hir::{Builtin, EnumId, Expr, FnId, ReactorId, StructId};
use crate::path::{
    bare_builtin, check_far_path, check_ns_path, check_outer_path, check_path, check_variant_path,
    field_access, handle_member, project, unit_variant,
};
use crate::plan::{
    Finish, Plan, Settle, conclude, conclude_generic_fn, conclude_inferred, each_of, plan_fn,
    plan_generic_fn, plan_generic_struct, plan_generic_variant, plan_option, plan_option_of,
    plan_result, plan_result_of, plan_struct, plan_variant, uninferable, without_arguments,
};
use crate::span::{Report, Span};
use crate::state::State;
use crate::steps::{
    await_of, bare_break, binary_of, borrow_of, break_with, check_continue, else_expected,
    if_else_of, if_of, spawn_of, try_of, unary_of, while_of,
};

verus! {

/// An expression that stands for a mistake fits everywhere.
pub open spec fn marked(e: model::Expr) -> bool {
    e.kind is Error ==> e.ty is Error
}

pub open spec fn plan_marked(plan: Plan) -> bool {
    match plan {
        Plan::Done(e) => marked(e),
        _ => true,
    }
}

pub broadcast proof fn await_of_marked(s: State, task: model::Expr, span: Span)
    requires
        marked(task),
    ensures
        marked((#[trigger] await_of(s, task, span)).1),
{
    reveal(await_of);
}

pub broadcast proof fn bare_break_marked(span: Span)
    ensures
        marked(#[trigger] bare_break(span)),
{
}

pub broadcast proof fn uninferable_marked(s: State, span: Span, what: Seq<char>, example: Seq<char>)
    ensures
        marked((#[trigger] uninferable(s, span, what, example)).1),
{
}

pub broadcast proof fn plan_option_of_marked(
    s: State,
    some: bool,
    args: Seq<ast::Arg>,
    inner: Option<model::Ty>,
    span: Span,
)
    ensures
        plan_marked((#[trigger] plan_option_of(s, some, args, inner, span)).1),
{
    broadcast use {uninferable_marked};
}

pub broadcast proof fn plan_option_marked(
    s: State,
    some: bool,
    args: Seq<ast::Arg>,
    expected: Option<model::Ty>,
    span: Span,
)
    ensures
        plan_marked((#[trigger] plan_option(s, some, args, expected, span)).1),
{
    broadcast use {plan_option_of_marked};

    reveal(plan_option);
}

pub broadcast proof fn plan_result_of_marked(
    s: State,
    is_ok: bool,
    args: Seq<ast::Arg>,
    parts: Option<(model::Ty, model::Ty)>,
    span: Span,
)
    ensures
        plan_marked((#[trigger] plan_result_of(s, is_ok, args, parts, span)).1),
{
}

pub broadcast proof fn plan_result_marked(
    s: State,
    is_ok: bool,
    args: Seq<ast::Arg>,
    expected: Option<model::Ty>,
    span: Span,
)
    ensures
        plan_marked((#[trigger] plan_result(s, is_ok, args, expected, span)).1),
{
    broadcast use {plan_result_of_marked};

    reveal(plan_result);
}

pub broadcast proof fn conclude_marked(s: State, finish: Finish, args: Seq<model::Expr>, span: Span)
    ensures
        marked((#[trigger] conclude(s, finish, args, span)).1),
{
    broadcast use {uninferable_marked};

    reveal(conclude);
}

pub broadcast proof fn conclude_generic_fn_marked(
    s: State,
    template: FnId,
    display: Seq<char>,
    args: Seq<model::Expr>,
    b: Seq<Option<model::Ty>>,
    span: Span,
)
    ensures
        marked((#[trigger] conclude_generic_fn(s, template, display, args, b, span)).1),
{
    reveal(conclude_generic_fn);
}

pub broadcast proof fn conclude_inferred_marked(
    s: State,
    settle: Settle,
    args: Seq<model::Expr>,
    b: Seq<Option<model::Ty>>,
    span: Span,
)
    ensures
        marked((#[trigger] conclude_inferred(s, settle, args, b, span)).1),
{
    broadcast use {conclude_generic_fn_marked};

    reveal(conclude_inferred);
}

pub broadcast proof fn without_arguments_marked(s: State, plan: Plan, span: Span)
    requires
        plan_marked(plan),
    ensures
        marked((#[trigger] without_arguments(s, plan, span)).1),
{
    broadcast use {conclude_marked, conclude_inferred_marked};

    reveal(without_arguments);
}

pub broadcast proof fn bare_builtin_marked(
    s: State,
    option: bool,
    name: Seq<char>,
    expected: Option<model::Ty>,
    span: Span,
)
    ensures
        marked((#[trigger] bare_builtin(s, option, name, expected, span)).1),
{
    broadcast use {plan_option_marked, plan_result_marked, without_arguments_marked};

    reveal(bare_builtin);
}

pub broadcast proof fn binary_of_marked(
    s: State,
    op: ast::BinOp,
    lhs: model::Expr,
    rhs: model::Expr,
    span: Span,
)
    requires
        marked(lhs),
        marked(rhs),
    ensures
        marked((#[trigger] binary_of(s, op, lhs, rhs, span)).1),
{
    reveal(binary_of);
}

pub broadcast proof fn break_with_marked(s: State, value: model::Expr, span: Span)
    requires
        marked(value),
    ensures
        marked((#[trigger] break_with(s, value, span)).1),
{
    reveal(break_with);
}

pub broadcast proof fn handle_member_marked(
    s: State,
    base: model::Expr,
    id: ReactorId,
    name: ast::Ident,
    span: Span,
)
    requires
        marked(base),
    ensures
        marked((#[trigger] handle_member(s, base, id, name, span)).1),
{
    reveal(handle_member);
}

pub broadcast proof fn field_access_marked(
    s: State,
    base: model::Expr,
    name: ast::Ident,
    span: Span,
)
    requires
        marked(base),
    ensures
        marked((#[trigger] field_access(s, base, name, span)).1),
{
    broadcast use {handle_member_marked};

    reveal(field_access);
}

pub broadcast proof fn over_marked(s: State, r: Report, span: Span)
    ensures
        plan_marked((#[trigger] over(s, r, span)).1),
{
}

pub broadcast proof fn each_of_marked(
    r: (State, Option<Seq<usize>>),
    wants: Seq<Option<model::Ty>>,
    finish: Finish,
    span: Span,
)
    ensures
        plan_marked((#[trigger] each_of(r, wants, finish, span)).1),
{
}

pub broadcast proof fn plan_method_of_marked(
    s: State,
    id: FnId,
    display: Seq<char>,
    receiver: model::Expr,
    args: Seq<ast::Arg>,
    span: Span,
)
    requires
        marked(receiver),
    ensures
        plan_marked((#[trigger] plan_method_of(s, id, display, receiver, args, span)).1),
{
    broadcast use {each_of_marked};

    reveal(plan_method_of);
}

pub broadcast proof fn plan_param_method_marked(
    s: State,
    receiver: model::Expr,
    index: u32,
    name: Seq<char>,
    method: ast::Ident,
    args: Seq<ast::Arg>,
    span: Span,
)
    requires
        marked(receiver),
    ensures
        plan_marked((#[trigger] plan_param_method(s, receiver, index, name, method, args, span)).1),
{
    broadcast use {over_marked, plan_method_of_marked};

    reveal(plan_param_method);
}

pub broadcast proof fn plan_type_method_marked(
    s: State,
    receiver: model::Expr,
    method: ast::Ident,
    args: Seq<ast::Arg>,
    span: Span,
)
    requires
        marked(receiver),
    ensures
        plan_marked((#[trigger] plan_type_method(s, receiver, method, args, span)).1),
{
    broadcast use {over_marked, plan_method_of_marked};

    reveal(plan_type_method);
}

pub broadcast proof fn plan_method_marked(
    s: State,
    receiver: model::Expr,
    method: ast::Ident,
    explicit: Option<Seq<model::Ty>>,
    args: Seq<ast::Arg>,
    span: Span,
)
    requires
        marked(receiver),
    ensures
        plan_marked((#[trigger] plan_method(s, receiver, method, explicit, args, span)).1),
{
    broadcast use {
        field_access_marked,
        over_marked,
        plan_param_method_marked,
        plan_type_method_marked,
    };

    reveal(plan_method);
}

pub broadcast proof fn plan_bare_marked(
    s: State,
    option: bool,
    name: Seq<char>,
    shown: Seq<char>,
    explicit: Option<Seq<model::Ty>>,
    args: Seq<ast::Arg>,
    expected: Option<model::Ty>,
    span: Span,
)
    ensures
        plan_marked(
            (#[trigger] plan_bare(s, option, name, shown, explicit, args, expected, span)).1,
        ),
{
    broadcast use {over_marked, plan_option_marked, plan_result_marked};

    reveal(plan_bare);
}

pub broadcast proof fn plan_generic_variant_marked(
    s: State,
    template: EnumId,
    index: usize,
    args: Seq<ast::Arg>,
    expected: Option<model::Ty>,
    span: Span,
)
    ensures
        plan_marked((#[trigger] plan_generic_variant(s, template, index, args, expected, span)).1),
{
    reveal(plan_generic_variant);
}

pub broadcast proof fn plan_variant_marked(
    s: State,
    id: EnumId,
    index: usize,
    args: Seq<ast::Arg>,
    expected: Option<model::Ty>,
    span: Span,
)
    ensures
        plan_marked((#[trigger] plan_variant(s, id, index, args, expected, span)).1),
{
    broadcast use {each_of_marked, plan_generic_variant_marked};

    reveal(plan_variant);
}

pub broadcast proof fn plan_variant_call_marked(
    s: State,
    id: EnumId,
    index: usize,
    explicit: Option<Seq<model::Ty>>,
    args: Seq<ast::Arg>,
    expected: Option<model::Ty>,
    span: Span,
)
    ensures
        plan_marked((#[trigger] plan_variant_call(s, id, index, explicit, args, expected, span)).1),
{
    broadcast use {plan_variant_marked};

    reveal(plan_variant_call);
}

pub broadcast proof fn plan_enum_variant_marked(
    s: State,
    id: EnumId,
    path: ast::Path,
    explicit: Option<Seq<model::Ty>>,
    args: Seq<ast::Arg>,
    expected: Option<model::Ty>,
    span: Span,
)
    ensures
        plan_marked((#[trigger] plan_enum_variant(s, id, path, explicit, args, expected, span)).1),
{
    broadcast use {over_marked, plan_bare_marked, plan_variant_call_marked};

    reveal(plan_enum_variant);
}

pub broadcast proof fn plan_generic_fn_marked(
    s: State,
    template: FnId,
    display: Seq<char>,
    explicit: Option<Seq<model::Ty>>,
    args: Seq<ast::Arg>,
    expected: Option<model::Ty>,
    span: Span,
)
    ensures
        plan_marked(
            (#[trigger] plan_generic_fn(s, template, display, explicit, args, expected, span)).1,
        ),
{
    reveal(plan_generic_fn);
}

pub broadcast proof fn plan_fn_marked(
    s: State,
    id: FnId,
    display: Seq<char>,
    explicit: Option<Seq<model::Ty>>,
    args: Seq<ast::Arg>,
    expected: Option<model::Ty>,
    span: Span,
)
    ensures
        plan_marked((#[trigger] plan_fn(s, id, display, explicit, args, expected, span)).1),
{
    broadcast use {each_of_marked, plan_generic_fn_marked};

    reveal(plan_fn);
}

pub broadcast proof fn plan_ns_variant_marked(
    s: State,
    id: EnumId,
    path: ast::Path,
    explicit: Option<Seq<model::Ty>>,
    args: Seq<ast::Arg>,
    expected: Option<model::Ty>,
    span: Span,
)
    ensures
        plan_marked((#[trigger] plan_ns_variant(s, id, path, explicit, args, expected, span)).1),
{
    broadcast use {over_marked, plan_variant_call_marked};

    reveal(plan_ns_variant);
}

pub broadcast proof fn plan_generic_struct_marked(
    s: State,
    template: StructId,
    args: Seq<ast::Arg>,
    expected: Option<model::Ty>,
    span: Span,
)
    ensures
        plan_marked((#[trigger] plan_generic_struct(s, template, args, expected, span)).1),
{
    reveal(plan_generic_struct);
}

pub broadcast proof fn plan_struct_marked(
    s: State,
    id: StructId,
    args: Seq<ast::Arg>,
    expected: Option<model::Ty>,
    span: Span,
)
    ensures
        plan_marked((#[trigger] plan_struct(s, id, args, expected, span)).1),
{
    broadcast use {each_of_marked, plan_generic_struct_marked};

    reveal(plan_struct);
}

pub broadcast proof fn plan_struct_call_marked(
    s: State,
    id: StructId,
    explicit: Option<Seq<model::Ty>>,
    args: Seq<ast::Arg>,
    expected: Option<model::Ty>,
    span: Span,
)
    ensures
        plan_marked((#[trigger] plan_struct_call(s, id, explicit, args, expected, span)).1),
{
    broadcast use {plan_struct_marked};

    reveal(plan_struct_call);
}

pub broadcast proof fn plan_ns_marked(
    s: State,
    path: ast::Path,
    explicit: Option<Seq<model::Ty>>,
    args: Seq<ast::Arg>,
    expected: Option<model::Ty>,
    span: Span,
)
    ensures
        plan_marked((#[trigger] plan_ns(s, path, explicit, args, expected, span)).1),
{
    broadcast use {over_marked, plan_fn_marked, plan_ns_variant_marked, plan_struct_call_marked};

    reveal(plan_ns);
}

pub broadcast proof fn plan_far_path_marked(
    s: State,
    path: ast::Path,
    explicit: Option<Seq<model::Ty>>,
    args: Seq<ast::Arg>,
    expected: Option<model::Ty>,
    span: Span,
)
    ensures
        plan_marked((#[trigger] plan_far_path(s, path, explicit, args, expected, span)).1),
{
    broadcast use {over_marked, plan_enum_variant_marked, plan_ns_marked};

    reveal(plan_far_path);
}

pub broadcast proof fn plan_builtin_marked(s: State, b: Builtin, args: Seq<ast::Arg>, span: Span)
    ensures
        plan_marked((#[trigger] plan_builtin(s, b, args, span)).1),
{
    broadcast use {over_marked};

    reveal(plan_builtin);
}

pub broadcast proof fn plan_signal_marked(
    s: State,
    id: ReactorId,
    name: Seq<char>,
    args: Seq<ast::Arg>,
    span: Span,
)
    ensures
        plan_marked((#[trigger] plan_signal(s, id, name, args, span)).1),
{
    broadcast use {each_of_marked};

    reveal(plan_signal);
}

pub broadcast proof fn plan_member_marked(
    s: State,
    name: Seq<char>,
    name_span: Span,
    args: Seq<ast::Arg>,
    span: Span,
)
    ensures
        plan_marked((#[trigger] plan_member(s, name, name_span, args, span)).1),
{
    broadcast use {over_marked, plan_signal_marked};

    reveal(plan_member);
}

pub broadcast proof fn plan_other_name_marked(
    s: State,
    name: Seq<char>,
    name_span: Span,
    explicit: Option<Seq<model::Ty>>,
    args: Seq<ast::Arg>,
    expected: Option<model::Ty>,
    span: Span,
)
    ensures
        plan_marked(
            (#[trigger] plan_other_name(s, name, name_span, explicit, args, expected, span)).1,
        ),
{
    broadcast use {over_marked, plan_member_marked, plan_struct_call_marked};

    reveal(plan_other_name);
}

pub broadcast proof fn plan_name_marked(
    s: State,
    name: Seq<char>,
    name_span: Span,
    explicit: Option<Seq<model::Ty>>,
    args: Seq<ast::Arg>,
    expected: Option<model::Ty>,
    span: Span,
)
    ensures
        plan_marked((#[trigger] plan_name(s, name, name_span, explicit, args, expected, span)).1),
{
    broadcast use {over_marked, plan_builtin_marked, plan_fn_marked, plan_other_name_marked};

    reveal(plan_name);
}

pub broadcast proof fn project_marked(s: State, e: model::Expr, head: Span, rest: Seq<ast::Ident>)
    requires
        marked(e),
    ensures
        marked((#[trigger] project(s, e, head, rest)).1),
    decreases rest.len(),
{
    broadcast use {field_access_marked};

    if rest.len() > 0 {
        project_marked(s, e, head, rest.drop_last());
    }
}

pub broadcast proof fn plan_path_marked(
    s: State,
    path: ast::Path,
    explicit: Option<Seq<model::Ty>>,
    args: Seq<ast::Arg>,
    expected: Option<model::Ty>,
    span: Span,
)
    ensures
        plan_marked((#[trigger] plan_path(s, path, explicit, args, expected, span)).1),
{
    broadcast use {
        plan_bare_marked,
        plan_far_path_marked,
        plan_method_marked,
        plan_name_marked,
        project_marked,
    };

    reveal(plan_path);
}

pub broadcast proof fn check_continue_marked(s: State, span: Span)
    ensures
        marked((#[trigger] check_continue(s, span)).1),
{
    reveal(check_continue);
}

pub broadcast proof fn if_else_of_marked(
    cond: model::Expr,
    body: model::Expr,
    els: model::Expr,
    span: Span,
)
    requires
        marked(cond),
        marked(body),
        marked(els),
    ensures
        marked(#[trigger] if_else_of(cond, body, els, span)),
{
    reveal(if_else_of);
}

pub broadcast proof fn if_of_marked(s: State, cond: model::Expr, body: model::Expr, span: Span)
    requires
        marked(cond),
        marked(body),
    ensures
        marked((#[trigger] if_of(s, cond, body, span)).1),
{
    reveal(if_of);
}

pub broadcast proof fn while_of_marked(
    s: State,
    cond: model::Expr,
    body: model::Expr,
    expected: Option<model::Ty>,
    span: Span,
)
    requires
        marked(cond),
        marked(body),
    ensures
        marked((#[trigger] while_of(s, cond, body, expected, span)).1),
{
    reveal(while_of);
}

pub broadcast proof fn borrow_of_marked(inner: model::Expr, span: Span)
    requires
        marked(inner),
    ensures
        marked(#[trigger] borrow_of(inner, span)),
{
    reveal(borrow_of);
}

pub broadcast proof fn try_of_marked(s: State, inner: model::Expr, span: Span)
    requires
        marked(inner),
    ensures
        marked((#[trigger] try_of(s, inner, span)).1),
{
    reveal(try_of);
}

pub broadcast proof fn unary_of_marked(s: State, op: ast::UnOp, inner: model::Expr, span: Span)
    requires
        marked(inner),
    ensures
        marked((#[trigger] unary_of(s, op, inner, span)).1),
{
    reveal(unary_of);
}

pub broadcast proof fn unit_variant_marked(
    s: State,
    id: EnumId,
    index: int,
    path: ast::Path,
    first: int,
    expected: Option<model::Ty>,
    span: Span,
)
    ensures
        marked((#[trigger] unit_variant(s, id, index, path, first, expected, span)).1),
{
    broadcast use {plan_variant_marked, project_marked, without_arguments_marked};

    reveal(unit_variant);
}

pub broadcast proof fn check_variant_path_marked(
    s: State,
    id: EnumId,
    path: ast::Path,
    first: int,
    expected: Option<model::Ty>,
    span: Span,
)
    ensures
        marked((#[trigger] check_variant_path(s, id, path, first, expected, span)).1),
{
    broadcast use {bare_builtin_marked, unit_variant_marked};

    reveal(check_variant_path);
}

pub broadcast proof fn check_ns_path_marked(
    s: State,
    path: ast::Path,
    expected: Option<model::Ty>,
    span: Span,
)
    ensures
        marked((#[trigger] check_ns_path(s, path, expected, span)).1),
{
    broadcast use {check_variant_path_marked};

    reveal(check_ns_path);
}

pub broadcast proof fn check_outer_path_marked(
    s: State,
    path: ast::Path,
    expected: Option<model::Ty>,
)
    ensures
        marked((#[trigger] check_outer_path(s, path, expected)).1),
{
    broadcast use {check_ns_path_marked};

    reveal(check_outer_path);
}

pub broadcast proof fn check_far_path_marked(s: State, path: ast::Path, expected: Option<model::Ty>)
    ensures
        marked((#[trigger] check_far_path(s, path, expected)).1),
{
    broadcast use {check_outer_path_marked, check_variant_path_marked};

    reveal(check_far_path);
}

pub broadcast proof fn check_path_marked(s: State, path: ast::Path, expected: Option<model::Ty>)
    ensures
        marked((#[trigger] check_path(s, path, expected)).1),
{
    broadcast use {bare_builtin_marked, check_far_path_marked, project_marked};

    reveal(check_path);
}

pub broadcast proof fn spawn_of_marked(s: State, task: model::Expr, span: Span)
    requires
        marked(task),
    ensures
        marked((#[trigger] spawn_of(s, task, span)).1),
{
    reveal(spawn_of);
}

pub broadcast proof fn plan_spawn_reactor_marked(
    s: State,
    path: ast::Path,
    args: Seq<ast::Arg>,
    span: Span,
)
    ensures
        plan_marked((#[trigger] plan_spawn_reactor(s, path, args, span)).1),
{
    broadcast use {each_of_marked, over_marked};

    reveal(plan_spawn_reactor);
}

pub broadcast proof fn expect_marked(
    s: State,
    found: model::Expr,
    expected: Option<model::Ty>,
    span: Span,
)
    requires
        marked(found),
    ensures
        marked((#[trigger] expect(s, found, expected, span)).1),
{
    reveal(expect);
}

pub broadcast proof fn check_tasks_marked(s: State, e: ast::Expr, expected: Option<model::Ty>)
    ensures
        marked((#[trigger] check_tasks(s, e, expected)).1),
    decreases e, 2nat, 0nat,
{
    broadcast use {await_of_marked, spawn_of_marked};

    let span = e.span;
    match e.kind {
        ast::ExprKind::Await(inner) => {
            if !s.ctx.is_turn() {
                if s.ctx.may_suspend() {
                    check_expr_marked(s, *inner, None);
                }
            }
        },
        ast::ExprKind::Scope(block) => {
            if !s.ctx.is_turn() {
                if s.ctx.may_suspend() {
                    check_block_marked(
                        s.with_scope_depth(deeper(s.scope_depth)),
                        block,
                        expected,
                        block.span,
                    );
                }
            }
        },
        ast::ExprKind::Spawn(inner) => {
            if !s.ctx.is_turn() {
                if s.ctx.may_suspend() {
                    check_expr_marked(s, *inner, None);
                }
            }
        },
        _ => {},
    }
}

pub broadcast proof fn check_operand_marked(s: State, e: ast::Expr)
    ensures
        marked((#[trigger] check_operand(s, e)).1),
    decreases e, 2nat, 0nat,
{
    broadcast use {
        binary_of_marked,
        borrow_of_marked,
        field_access_marked,
        try_of_marked,
        unary_of_marked,
    };

    let span = e.span;
    match e.kind {
        ast::ExprKind::Field { base, name } => {
            check_expr_marked(s, *base, None);
        },
        ast::ExprKind::Unary { op, expr } => {
            if op == ast::UnOp::RefMut {
                check_expr_marked(s.push(reports::exclusive_borrow(span)), *expr, None);
            } else {
                check_expr_marked(s, *expr, None);
            }
        },
        ast::ExprKind::Binary { op, lhs, rhs } => {
            if op == ast::BinOp::And || op  == ast::BinOp::Or {
                check_expr_marked(s, *lhs, Some(model::Ty::Bool));
                let (s1, l) = check_expr(s, *lhs, Some(model::Ty::Bool));
                check_expr_marked(s1, *rhs, Some(model::Ty::Bool));
            } else {
                check_expr_marked(s, *lhs, None);
                let (s1, l) = check_expr(s, *lhs, None);
                check_expr_marked(s1, *rhs, Some(l.ty));
            }
        },
        ast::ExprKind::Index { base, index } => {
            check_expr_marked(s, *base, None);
            let (s1, b) = check_expr(s, *base, None);
            if !(b.ty is Error) {
                if owned(b.ty) is Bytes {
                    check_expr_marked(s1, *index, Some(model::Ty::I64));
                }
            }
        },
        ast::ExprKind::Try(inner) => {
            check_expr_marked(s, *inner, None);
        },
        _ => {},
    }
}

pub broadcast proof fn check_match_marked(s: State, e: ast::Expr, expected: Option<model::Ty>)
    ensures
        marked((#[trigger] check_match(s, e, expected)).1),
    decreases e, 2nat, 0nat,
{
    match e.kind {
        ast::ExprKind::Match { scrutinee, arms } => {
            check_expr_marked(s, *scrutinee, None);
        },
        _ => {},
    }
}

pub broadcast proof fn check_loops_marked(s: State, e: ast::Expr, expected: Option<model::Ty>)
    ensures
        marked((#[trigger] check_loops(s, e, expected)).1),
    decreases e, 2nat, 0nat,
{
    broadcast use {while_of_marked};

    let span = e.span;
    match e.kind {
        ast::ExprKind::While { cond, body } => {
            if !s.ctx.is_turn() {
                check_expr_marked(s.open_loop(false, None), *cond, Some(model::Ty::Bool));
                let (s1, c) = check_expr(s.open_loop(false, None), *cond, Some(model::Ty::Bool));
                check_block_marked(s1, body, Some(model::Ty::Unit), body.span);
            }
        },
        ast::ExprKind::Loop { body } => {
            if !s.ctx.is_turn() {
                check_block_marked(
                    s.open_loop(true, expected),
                    body,
                    Some(model::Ty::Unit),
                    body.span,
                );
            }
        },
        _ => {},
    }
}

pub broadcast proof fn check_if_marked(s: State, e: ast::Expr, expected: Option<model::Ty>)
    ensures
        marked((#[trigger] check_if(s, e, expected)).1),
    decreases e, 2nat, 0nat,
{
    broadcast use {if_else_of_marked, if_of_marked};

    match e.kind {
        ast::ExprKind::If { cond, then, els } => {
            check_expr_marked(s, *cond, Some(model::Ty::Bool));
            let (s1, c) = check_expr(s, *cond, Some(model::Ty::Bool));
            check_block_marked(s1, then, expected, then.span);
            let (s2, t) = check_block(s1, then, expected, then.span);
            match els {
                Some(els) => {
                    check_expr_marked(s2, *els, else_expected(expected, t.ty));
                },
                _ => {},
            }
        },
        _ => {},
    }
}

pub broadcast proof fn check_send_marked(s: State, args: Seq<ast::Arg>, span: Span)
    ensures
        marked((#[trigger] check_send(s, args, span)).1),
    decreases args, 2nat, 0nat,
{
    if args.len() == 2 {
        check_expr_marked(s, args[0].value, None);
        let (s1, target) = check_expr(s, args[0].value, None);
        match target.ty {
            model::Ty::Error => {},
            model::Ty::Input(message) => {
                check_expr_marked(s1, args[1].value, Some(*message));
            },
            _ => {},
        }
    }
}

pub broadcast proof fn check_latest_marked(s: State, args: Seq<ast::Arg>, span: Span)
    ensures
        marked((#[trigger] check_latest(s, args, span)).1),
    decreases args, 2nat, 0nat,
{
    if args.len() == 1 {
        check_expr_marked(s, args[0].value, None);
    }
}

pub broadcast proof fn run_plan_marked(s: State, plan: Plan, args: Seq<ast::Arg>, span: Span)
    requires
        plan_marked(plan),
    ensures
        marked((#[trigger] run_plan(s, plan, args, span)).1),
    decreases args, 3nat, 0nat,
{
    broadcast use {conclude_marked, conclude_inferred_marked};

    match plan {
        Plan::Done(x) => {},
        Plan::Each { wants, order, finish } => {},
        Plan::Infer { types, order, start, settle } => {},
        Plan::Send => {
            check_send_marked(s, args, span);
        },
        Plan::Latest => {
            check_latest_marked(s, args, span);
        },
    }
}

pub broadcast proof fn check_call_marked(s: State, e: ast::Expr, expected: Option<model::Ty>)
    ensures
        marked((#[trigger] check_call(s, e, expected)).1),
    decreases e, 2nat, 0nat,
{
    broadcast use {plan_method_marked, plan_path_marked};

    let span = e.span;
    match e.kind {
        ast::ExprKind::Call { callee, type_args, args } => {
            let (s1, explicit) = explicit_types(s, type_args@);
            match callee.kind {
                ast::ExprKind::Path(path) => {
                    let (s2, plan) = plan_path(s1, path, explicit, args@, expected, span);
                    run_plan_marked(s2, plan, args@, span);
                },
                ast::ExprKind::Field { base, name } => {
                    check_expr_marked(s1, *base, None);
                    let (s2, receiver) = check_expr(s1, *base, None);
                    let (s3, plan) = plan_method(s2, receiver, name, explicit, args@, span);
                    run_plan_marked(s3, plan, args@, span);
                },
                _ => {},
            }
        },
        _ => {},
    }
}

pub broadcast proof fn check_break_marked(s: State, e: ast::Expr)
    ensures
        marked((#[trigger] check_break(s, e)).1),
    decreases e, 2nat, 0nat,
{
    broadcast use {bare_break_marked, break_with_marked};

    let span = e.span;
    match (e.kind, s.top_loop()) {
        (ast::ExprKind::Break { value }, Some(l)) => {
            match value {
                Some(value) => {
                    if l.is_loop {
                        check_expr_marked(s, *value, l.result);
                    } else {
                        check_expr_marked(
                            s.push(reports::break_value_in_while(span)),
                            *value,
                            None,
                        );
                    }
                },
                _ => {},
            }
        },
        _ => {},
    }
}

pub broadcast proof fn check_kind_marked(s: State, e: ast::Expr, expected: Option<model::Ty>)
    ensures
        marked((#[trigger] check_kind(s, e, expected)).1),
    decreases e, 3nat, 0nat,
{
    broadcast use {check_continue_marked, check_path_marked, plan_spawn_reactor_marked};

    let span = e.span;
    match e.kind {
        ast::ExprKind::Unit => {},
        ast::ExprKind::Int(v) => {},
        ast::ExprKind::Float(v) => {},
        ast::ExprKind::Str(v) => {},
        ast::ExprKind::Bool(v) => {},
        ast::ExprKind::Path(path) => {},
        ast::ExprKind::Continue => {},
        ast::ExprKind::Lambda { .. } => {},
        ast::ExprKind::Block(block) => {
            check_block_marked(s, block, expected, span);
        },
        ast::ExprKind::SpawnReactor { path, args } => {
            let (s1, plan) = plan_spawn_reactor(s, path, args@, span);
            run_plan_marked(s1, plan, args@, span);
        },
        ast::ExprKind::Field { .. } => {
            check_operand_marked(s, e);
        },
        ast::ExprKind::Unary { .. } => {
            check_operand_marked(s, e);
        },
        ast::ExprKind::Binary { .. } => {
            check_operand_marked(s, e);
        },
        ast::ExprKind::Index { .. } => {
            check_operand_marked(s, e);
        },
        ast::ExprKind::Try(_) => {
            check_operand_marked(s, e);
        },
        ast::ExprKind::Call { .. } => {
            check_call_marked(s, e, expected);
        },
        ast::ExprKind::If { .. } => {
            check_if_marked(s, e, expected);
        },
        ast::ExprKind::Match { .. } => {
            check_match_marked(s, e, expected);
        },
        ast::ExprKind::While { .. } => {
            check_loops_marked(s, e, expected);
        },
        ast::ExprKind::Loop { .. } => {
            check_loops_marked(s, e, expected);
        },
        ast::ExprKind::Break { .. } => {
            check_break_marked(s, e);
        },
        ast::ExprKind::Await(_) => {
            check_tasks_marked(s, e, expected);
        },
        ast::ExprKind::Scope(_) => {
            check_tasks_marked(s, e, expected);
        },
        ast::ExprKind::Spawn(_) => {
            check_tasks_marked(s, e, expected);
        },
    }
}

pub broadcast proof fn check_expr_marked(s: State, e: ast::Expr, expected: Option<model::Ty>)
    ensures
        marked((#[trigger] check_expr(s, e, expected)).1),
    decreases e, 4nat, 0nat,
{
    broadcast use {expect_marked};

    check_kind_marked(s, e, expected);
}

pub broadcast proof fn check_tail_marked(s: State, stmt: ast::Stmt, expected: Option<model::Ty>)
    ensures
        marked((#[trigger] check_tail(s, stmt, expected)).1),
    decreases stmt, 5nat, 0nat,
{
    match stmt.kind {
        ast::StmtKind::Expr(e) => {
            check_expr_marked(s, e, expected);
        },
        _ => {},
    }
}

pub broadcast proof fn check_block_marked(
    s: State,
    block: ast::Block,
    expected: Option<model::Ty>,
    span: Span,
)
    ensures
        marked((#[trigger] check_block(s, block, expected, span)).1),
    decreases block, 3nat, 0nat,
{
    let all = block.stmts@;
    if all.len() > 0 && all.last().kind is Expr {
        let p = check_stmts(s.open_scope(), all.drop_last());
        check_tail_marked(p.s, all.last(), expected);
    }
}

pub broadcast proof fn body_marked(s: State, block: ast::Block, expected: Option<model::Ty>)
    ensures
        marked((#[trigger] body(s, block, expected)).1),
{
    broadcast use {check_block_marked};

    reveal(body);
}

pub broadcast proof fn expression_marked(s: State, e: ast::Expr, expected: Option<model::Ty>)
    ensures
        marked((#[trigger] expression(s, e, expected)).1),
{
    broadcast use {check_expr_marked};

    reveal(expression);
}

/// What a checked expression hands on fits what its position asks for: as it was found, or as what
/// stands for a mistake once that was reported.
pub proof fn expressions_fit_what_is_asked(s: State, e: ast::Expr, want: model::Ty)
    ensures
        expression(s, e, Some(want)).1.ty.fits(want),
{
    reveal(expression);
    reveal(expect);
    check_kind_marked(s, e, Some(want));
}

} // verus!
