//! Each step of `steps.rs` keeps what was there.

use vstd::prelude::*;
use crate::ast;
use crate::model;
use crate::binding::owned;
use crate::growth::{grew, grew_reflexive, grew_transitive, widened};
use crate::span::Span;
use crate::state::{Loop, State};
use crate::steps::{
    after_of, after_synthesis, answered_effect, assignable, await_of, binary_of, break_bare,
    break_of_while, break_with, check_assignable, check_continue, check_exhaustive, if_of, spawn_of,
    try_of, unary_of, while_of,
};

verus! {

pub broadcast proof fn open_loop_grows(s: State, is_loop: bool, result: Option<model::Ty>)
    ensures
        grew(s, (#[trigger] s.open_loop(is_loop, result))),
{
    reveal(State::open_loop);
    reveal(grew);
    reveal(widened);
}

pub broadcast proof fn close_loop_grows(s: State)
    ensures
        grew(s, (#[trigger] s.close_loop())),
{
    reveal(State::close_loop);
    reveal(grew);
    reveal(widened);
}

pub broadcast proof fn with_top_loop_grows(s: State, l: Loop)
    ensures
        grew(s, (#[trigger] s.with_top_loop(l))),
{
    reveal(State::with_top_loop);
    reveal(grew);
    reveal(widened);
}

pub broadcast proof fn answered_effect_grows(
    s: State,
    task: model::Expr,
    produced: model::Ty,
    name: ast::Ident,
    span: Span,
)
    ensures
        grew(s, (#[trigger] answered_effect(s, task, produced, name, span)).0),
{
    broadcast use {grew_reflexive, grew_transitive, crate::growth::state::push_grows};

    reveal(answered_effect);
}

pub broadcast proof fn after_of_grows(
    s: State,
    task: model::Expr,
    reply: Option<ast::Ident>,
    span: Span,
)
    ensures
        grew(s, (#[trigger] after_of(s, task, reply, span)).0),
{
    broadcast use {
        grew_reflexive,
        grew_transitive,
        crate::growth::binding::no_borrowed_arguments_grows,
        crate::growth::state::push_grows,
        answered_effect_grows,
    };

    reveal(after_of);
}

pub broadcast proof fn after_synthesis_grows(
    s: State,
    found: model::Expr,
    param: model::Ty,
    b: Seq<Option<model::Ty>>,
    at: Span,
    span: Span,
)
    ensures
        grew(s, (#[trigger] after_synthesis(s, found, param, b, at, span)).0),
{
    broadcast use {
        grew_reflexive,
        grew_transitive,
        crate::growth::binding::expect_grows,
        crate::growth::instances::substitute_bindings_grows,
        crate::growth::state::push_grows,
    };

    reveal(after_synthesis);
}

pub broadcast proof fn assignable_grows(s: State, place: model::Expr, span: Span)
    ensures
        grew(s, (#[trigger] assignable(s, place, span))),
    decreases place,
{
    broadcast use {grew_reflexive, grew_transitive, crate::growth::state::push_grows};

    match place.kind {
        model::ExprKind::Local(id) => {},
        model::ExprKind::Field { base, .. } => {
            if !(owned(base.ty) is Shared) {
                assignable_grows(s, *base, span);
            }
        },
        _ => {},
    }
}

pub broadcast proof fn await_of_grows(s: State, task: model::Expr, span: Span)
    ensures
        grew(s, (#[trigger] await_of(s, task, span)).0),
{
    broadcast use {grew_reflexive, grew_transitive, crate::growth::state::push_grows};

    reveal(await_of);
}

pub broadcast proof fn binary_of_grows(
    s: State,
    op: ast::BinOp,
    lhs: model::Expr,
    rhs: model::Expr,
    span: Span,
)
    ensures
        grew(s, (#[trigger] binary_of(s, op, lhs, rhs, span)).0),
{
    broadcast use {grew_reflexive, grew_transitive, crate::growth::state::push_grows};

    reveal(binary_of);
}

pub broadcast proof fn break_bare_grows(s: State, span: Span)
    ensures
        grew(s, (#[trigger] break_bare(s, span))),
{
    broadcast use {
        grew_reflexive,
        grew_transitive,
        crate::growth::state::push_grows,
        with_top_loop_grows,
    };

    reveal(break_bare);
}

pub broadcast proof fn break_of_while_grows(s: State)
    ensures
        grew(s, (#[trigger] break_of_while(s))),
{
    broadcast use {grew_reflexive, grew_transitive, with_top_loop_grows};

    reveal(break_of_while);
}

pub broadcast proof fn break_with_grows(s: State, value: model::Expr, span: Span)
    ensures
        grew(s, (#[trigger] break_with(s, value, span)).0),
{
    broadcast use {grew_reflexive, grew_transitive, with_top_loop_grows};

    reveal(break_with);
}

pub broadcast proof fn check_assignable_grows(s: State, place: model::Expr, span: Span)
    ensures
        grew(s, (#[trigger] check_assignable(s, place, span))),
{
    broadcast use {grew_reflexive, grew_transitive, assignable_grows};

    reveal(check_assignable);
}

pub broadcast proof fn check_continue_grows(s: State, span: Span)
    ensures
        grew(s, (#[trigger] check_continue(s, span)).0),
{
    broadcast use {grew_reflexive, grew_transitive, crate::growth::state::push_grows};

    reveal(check_continue);
}

pub broadcast proof fn check_exhaustive_grows(
    s: State,
    arms: Seq<model::Arm>,
    ty: model::Ty,
    span: Span,
)
    ensures
        grew(s, (#[trigger] check_exhaustive(s, arms, ty, span))),
{
    broadcast use {grew_reflexive, grew_transitive, crate::growth::state::push_grows};

    reveal(check_exhaustive);
}

pub broadcast proof fn if_of_grows(s: State, cond: model::Expr, body: model::Expr, span: Span)
    ensures
        grew(s, (#[trigger] if_of(s, cond, body, span)).0),
{
    broadcast use {grew_reflexive, grew_transitive, crate::growth::state::push_grows};

    reveal(if_of);
}

pub broadcast proof fn spawn_of_grows(s: State, task: model::Expr, span: Span)
    ensures
        grew(s, (#[trigger] spawn_of(s, task, span)).0),
{
    broadcast use {
        grew_reflexive,
        grew_transitive,
        crate::growth::binding::no_borrowed_arguments_grows,
        crate::growth::state::push_grows,
    };

    reveal(spawn_of);
}

pub broadcast proof fn try_of_grows(s: State, inner: model::Expr, span: Span)
    ensures
        grew(s, (#[trigger] try_of(s, inner, span)).0),
{
    broadcast use {grew_reflexive, grew_transitive, crate::growth::state::push_grows};

    reveal(try_of);
}

pub broadcast proof fn unary_of_grows(s: State, op: ast::UnOp, inner: model::Expr, span: Span)
    ensures
        grew(s, (#[trigger] unary_of(s, op, inner, span)).0),
{
    broadcast use {grew_reflexive, grew_transitive, crate::growth::state::push_grows};

    reveal(unary_of);
}

pub broadcast proof fn while_of_grows(
    s: State,
    cond: model::Expr,
    body: model::Expr,
    expected: Option<model::Ty>,
    span: Span,
)
    ensures
        grew(s, (#[trigger] while_of(s, cond, body, expected, span)).0),
{
    broadcast use {grew_reflexive, grew_transitive, crate::growth::state::push_grows};

    reveal(while_of);
}

} // verus!
