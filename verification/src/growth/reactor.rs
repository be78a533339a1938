//! Each step of `reactor.rs` keeps what was there.

use vstd::prelude::*;
use crate::ast;
use crate::model;
use crate::expr::body;
use crate::growth::{grew, grew_reflexive, grew_transitive, widened};
use crate::hir::{FnId, NodeId, ReactorId};
use crate::order::plan;
use crate::reactor::{
    Home, annotated, begin_member, bind_message, bind_messages, bind_node, bind_nodes, check_each,
    check_handler, check_handlers, check_node, check_node_body, check_nodes, check_reactor,
    check_reactors, held_by, leave_reactor, with_plans,
};
use crate::span::Span;
use crate::state::State;
use crate::wiring::Wires;

verus! {

pub broadcast proof fn with_lifted_grows(s: State, id: FnId, ret: model::Ty, body: model::Expr)
    ensures
        grew(s, (#[trigger] s.with_lifted(id, ret, body))),
{
    reveal(State::with_lifted);
    reveal(grew);
    reveal(widened);
}

pub broadcast proof fn with_node_ty_grows(s: State, id: ReactorId, node: int, ty: model::Ty)
    ensures
        grew(s, (#[trigger] s.with_node_ty(id, node, ty))),
{
    reveal(State::with_node_ty);
    reveal(grew);
    reveal(widened);
}

pub broadcast proof fn with_plan_grows(s: State, id: ReactorId, input: int, plan: Seq<NodeId>)
    ensures
        grew(s, (#[trigger] s.with_plan(id, input, plan))),
{
    reveal(State::with_plan);
    reveal(grew);
    reveal(widened);
}

pub broadcast proof fn annotated_grows(s: State, ty: Option<ast::Type>)
    ensures
        grew(s, (#[trigger] annotated(s, ty)).0),
{
    broadcast use {grew_reflexive, grew_transitive, crate::growth::resolve::resolve_ty_grows};

    reveal(annotated);
}

pub broadcast proof fn begin_member_grows(s: State, function: FnId, home: Home, handler: bool)
    ensures
        grew(s, (#[trigger] begin_member(s, function, home, handler))),
{
    broadcast use {
        grew_reflexive,
        grew_transitive,
        crate::growth::state::with_bounds_grows,
        crate::growth::state::with_ctx_grows,
        crate::growth::state::with_fn_name_grows,
        crate::growth::state::with_in_handler_grows,
        crate::growth::state::with_members_grows,
        crate::growth::state::with_reactor_grows,
        crate::growth::state::with_ret_grows,
        crate::growth::state::with_type_params_grows,
        crate::growth::state::with_uses_grows,
        crate::growth::tables::fresh_grows,
    };

    reveal(begin_member);
}

pub broadcast proof fn bind_messages_grows(s: State, params: Seq<ast::HandlerParam>, ty: model::Ty)
    ensures
        grew(s, (#[trigger] bind_messages(s, params, ty))),
    decreases params.len(),
{
    broadcast use {grew_reflexive, grew_transitive, crate::growth::binding::declare_role_grows};

    if params.len() > 0 {
        bind_messages_grows(s, params.drop_last(), ty);
    }
}

pub broadcast proof fn bind_message_grows(
    s: State,
    input: Seq<char>,
    params: Seq<ast::HandlerParam>,
    ty: model::Ty,
    span: Span,
)
    ensures
        grew(s, (#[trigger] bind_message(s, input, params, ty, span))),
{
    broadcast use {
        grew_reflexive,
        grew_transitive,
        bind_messages_grows,
        crate::growth::state::push_grows,
    };

    reveal(bind_message);
}

pub broadcast proof fn bind_node_grows(s: State, id: ReactorId, node: int, mutable: bool)
    ensures
        grew(s, (#[trigger] bind_node(s, id, node, mutable))),
{
    broadcast use {grew_reflexive, grew_transitive, crate::growth::binding::declare_role_grows};

    reveal(bind_node);
}

pub broadcast proof fn bind_nodes_grows(s: State, id: ReactorId, nodes: Seq<usize>, mutable: bool)
    ensures
        grew(s, (#[trigger] bind_nodes(s, id, nodes, mutable))),
    decreases nodes.len(),
{
    broadcast use {grew_reflexive, grew_transitive, bind_node_grows};

    if nodes.len() > 0 {
        bind_nodes_grows(s, id, nodes.drop_last(), mutable);
    }
}

pub broadcast proof fn check_handler_grows(
    s: State,
    home: Home,
    input: Seq<char>,
    params: Seq<ast::HandlerParam>,
    block: ast::Block,
    span: Span,
)
    ensures
        grew(s, (#[trigger] check_handler(s, home, input, params, block, span))),
{
    broadcast use {
        grew_reflexive,
        grew_transitive,
        crate::growth::expr::body_grows,
        begin_member_grows,
        bind_message_grows,
        bind_nodes_grows,
        with_lifted_grows,
    };

    reveal(check_handler);
}

pub broadcast proof fn check_handlers_grows(s: State, home: Home, members: Seq<ast::Member>)
    ensures
        grew(s, (#[trigger] check_handlers(s, home, members))),
    decreases members.len(),
{
    broadcast use {grew_reflexive, grew_transitive, check_handler_grows};

    if members.len() > 0 {
        check_handlers_grows(s, home, members.drop_last());
    }
}

pub broadcast proof fn held_by_grows(s: State, ty: model::Ty, signal: Option<Seq<char>>, span: Span)
    ensures
        grew(s, (#[trigger] held_by(s, ty, signal, span)).0),
{
    broadcast use {grew_reflexive, grew_transitive, crate::growth::members::reactor_ty_grows};

    reveal(held_by);
}

pub broadcast proof fn check_node_body_grows(
    s: State,
    home: Home,
    node: int,
    function: FnId,
    deps: Seq<usize>,
    ty: Option<ast::Type>,
    value: ast::Expr,
    signal: Option<Seq<char>>,
)
    ensures
        grew(s, (#[trigger] check_node_body(s, home, node, function, deps, ty, value, signal))),
{
    broadcast use {
        grew_reflexive,
        grew_transitive,
        crate::growth::expr::expression_grows,
        annotated_grows,
        begin_member_grows,
        bind_nodes_grows,
        held_by_grows,
        with_lifted_grows,
        with_node_ty_grows,
    };

    reveal(check_node_body);
}

pub broadcast proof fn check_node_grows(
    s: State,
    home: Home,
    decl: ast::ReactorDecl,
    w: Wires,
    node: int,
)
    ensures
        grew(s, (#[trigger] check_node(s, home, decl, w, node))),
{
    broadcast use {grew_reflexive, grew_transitive, check_node_body_grows};

    reveal(check_node);
}

pub broadcast proof fn check_nodes_grows(
    s: State,
    home: Home,
    decl: ast::ReactorDecl,
    w: Wires,
    order: Seq<usize>,
)
    ensures
        grew(s, (#[trigger] check_nodes(s, home, decl, w, order))),
    decreases order.len(),
{
    broadcast use {grew_reflexive, grew_transitive, check_node_grows};

    if order.len() > 0 {
        check_nodes_grows(s, home, decl, w, order.drop_last());
    }
}

pub broadcast proof fn leave_reactor_grows(s: State)
    ensures
        grew(s, (#[trigger] leave_reactor(s))),
{
    broadcast use {
        grew_reflexive,
        grew_transitive,
        crate::growth::state::with_ctx_grows,
        crate::growth::state::with_in_handler_grows,
        crate::growth::state::with_members_grows,
        crate::growth::state::with_reactor_grows,
    };

    reveal(leave_reactor);
}

pub broadcast proof fn with_plans_grows(s: State, id: ReactorId, w: Wires, inputs: nat)
    ensures
        grew(s, (#[trigger] with_plans(s, id, w, inputs))),
    decreases inputs,
{
    broadcast use {grew_reflexive, grew_transitive, with_plan_grows};

    if !(inputs == 0) {
        let at = (inputs - 1) as int;
        with_plans_grows(s, id, w, at as nat);
    }
}

pub broadcast proof fn check_reactor_grows(
    s: State,
    id: ReactorId,
    decl: ast::ReactorDecl,
    w: Wires,
)
    ensures
        grew(s, (#[trigger] check_reactor(s, id, decl, w))),
{
    broadcast use {
        grew_reflexive,
        grew_transitive,
        check_handlers_grows,
        check_nodes_grows,
        leave_reactor_grows,
        with_plans_grows,
    };

    reveal(check_reactor);
}

pub broadcast proof fn check_each_grows(
    s: State,
    items: Seq<ast::Item>,
    ids: Seq<ReactorId>,
    places: Seq<usize>,
    ws: Seq<Wires>,
)
    ensures
        grew(s, (#[trigger] check_each(s, items, ids, places, ws))),
    decreases ids.len(),
{
    broadcast use {grew_reflexive, grew_transitive, check_reactor_grows};

    if !(ids.len() == 0 || places.len() == 0 || ws.len() == 0) {
        check_each_grows(s, items, ids.drop_last(), places.drop_last(), ws.drop_last());
    }
}

pub broadcast proof fn check_reactors_grows(s: State, module: ast::Module, ws: Seq<Wires>)
    ensures
        grew(s, (#[trigger] check_reactors(s, module, ws))),
{
    broadcast use {grew_reflexive, grew_transitive, check_each_grows};

    reveal(check_reactors);
}

} // verus!
