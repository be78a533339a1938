//! Each step of `members.rs` keeps what was there.

use vstd::prelude::*;
use crate::ast;
use crate::model;
use crate::growth::{grew, grew_reflexive, grew_transitive, widened};
use crate::hir::{Capability, ReactorId};
use crate::members::{
    Members, Names, capacity, declare_each, declare_input, declare_mailbox, declare_member,
    declare_members, declare_on, declare_param, declare_params, declare_reactors, declare_signal,
    declare_state, declare_whole, held_ty, message_ty, no_mode, overflow, pair_handler,
    pair_handlers, reactor_ty, require_handlers,
};
use crate::span::Span;
use crate::state::State;

verus! {

pub broadcast proof fn remaking_grows(s: State, id: ReactorId, def: model::ReactorDef)
    ensures
        grew(s, (#[trigger] s.remaking(id, def))),
{
    reveal(State::remaking);
    reveal(grew);
    reveal(widened);
}

pub broadcast proof fn with_declared_grows(
    s: State,
    id: ReactorId,
    uses: Seq<Capability>,
    m: Members,
)
    ensures
        grew(s, (#[trigger] s.with_declared(id, uses, m))),
{
    broadcast use {grew_reflexive, grew_transitive, remaking_grows};

    reveal(State::with_declared);
}

pub broadcast proof fn capacity_grows(s: State, e: ast::Expr)
    ensures
        grew(s, (#[trigger] capacity(s, e)).0),
{
    broadcast use {grew_reflexive, grew_transitive, crate::growth::state::push_grows};

    reveal(capacity);
}

pub broadcast proof fn overflow_grows(s: State, name: ast::Ident)
    ensures
        grew(s, (#[trigger] overflow(s, name)).0),
{
    broadcast use {grew_reflexive, grew_transitive, crate::growth::state::push_grows};

    reveal(overflow);
}

pub broadcast proof fn declare_mailbox_grows(
    s: State,
    m: Members,
    n: Names,
    name: ast::Ident,
    ty: model::Ty,
    queue: ast::Queue,
    lifted: Span,
    span: Span,
)
    ensures
        grew(s, (#[trigger] declare_mailbox(s, m, n, name, ty, queue, lifted, span)).0),
{
    broadcast use {
        grew_reflexive,
        grew_transitive,
        crate::growth::item::declare_lifted_grows,
        capacity_grows,
        overflow_grows,
    };

    reveal(declare_mailbox);
}

pub broadcast proof fn reactor_ty_grows(
    s: State,
    ty: model::Ty,
    what: Seq<char>,
    name: Seq<char>,
    span: Span,
)
    ensures
        grew(s, (#[trigger] reactor_ty(s, ty, what, name, span)).0),
{
    broadcast use {grew_reflexive, grew_transitive, crate::growth::state::push_grows};

    reveal(reactor_ty);
}

pub broadcast proof fn held_ty_grows(
    s: State,
    ty: ast::Type,
    what: Seq<char>,
    name: Seq<char>,
    span: Span,
)
    ensures
        grew(s, (#[trigger] held_ty(s, ty, what, name, span)).0),
{
    broadcast use {
        grew_reflexive,
        grew_transitive,
        reactor_ty_grows,
        crate::growth::resolve::resolve_ty_grows,
    };

    reveal(held_ty);
}

pub broadcast proof fn declare_input_grows(
    s: State,
    m: Members,
    n: Names,
    name: ast::Ident,
    ty: ast::Type,
    queue: ast::Queue,
    span: Span,
)
    ensures
        grew(s, (#[trigger] declare_input(s, m, n, name, ty, queue, span)).0),
{
    broadcast use {
        grew_reflexive,
        grew_transitive,
        declare_mailbox_grows,
        held_ty_grows,
        crate::growth::state::push_grows,
    };

    reveal(declare_input);
}

pub broadcast proof fn message_ty_grows(
    s: State,
    input: ast::Ident,
    params: Seq<ast::HandlerParam>,
    queue: Span,
)
    ensures
        grew(s, (#[trigger] message_ty(s, input, params, queue)).0),
{
    broadcast use {
        grew_reflexive,
        grew_transitive,
        held_ty_grows,
        crate::growth::state::push_grows,
    };

    reveal(message_ty);
}

pub broadcast proof fn declare_on_grows(
    s: State,
    m: Members,
    n: Names,
    position: usize,
    input: ast::Ident,
    params: Seq<ast::HandlerParam>,
    queue: Option<ast::Queue>,
    span: Span,
)
    ensures
        grew(s, (#[trigger] declare_on(s, m, n, position, input, params, queue, span)).0),
{
    broadcast use {
        grew_reflexive,
        grew_transitive,
        declare_mailbox_grows,
        message_ty_grows,
        crate::growth::state::push_grows,
    };

    reveal(declare_on);
}

pub broadcast proof fn declare_signal_grows(
    s: State,
    m: Members,
    n: Names,
    name: ast::Ident,
    exported: bool,
    span: Span,
)
    ensures
        grew(s, (#[trigger] declare_signal(s, m, n, name, exported, span)).0),
{
    broadcast use {
        grew_reflexive,
        grew_transitive,
        crate::growth::item::declare_lifted_grows,
        crate::growth::state::push_grows,
    };

    reveal(declare_signal);
}

pub broadcast proof fn declare_state_grows(
    s: State,
    m: Members,
    n: Names,
    name: ast::Ident,
    ty: ast::Type,
    span: Span,
)
    ensures
        grew(s, (#[trigger] declare_state(s, m, n, name, ty, span)).0),
{
    broadcast use {
        grew_reflexive,
        grew_transitive,
        crate::growth::item::declare_lifted_grows,
        held_ty_grows,
        crate::growth::state::push_grows,
    };

    reveal(declare_state);
}

pub broadcast proof fn declare_member_grows(
    s: State,
    m: Members,
    n: Names,
    position: usize,
    member: ast::Member,
)
    ensures
        grew(s, (#[trigger] declare_member(s, m, n, position, member)).0),
{
    broadcast use {
        grew_reflexive,
        grew_transitive,
        declare_input_grows,
        declare_on_grows,
        declare_signal_grows,
        declare_state_grows,
    };

    reveal(declare_member);
}

pub broadcast proof fn declare_members_grows(
    s: State,
    m: Members,
    n: Names,
    members: Seq<ast::Member>,
)
    ensures
        grew(s, (#[trigger] declare_members(s, m, n, members)).0),
    decreases members.len(),
{
    broadcast use {grew_reflexive, grew_transitive, declare_member_grows};

    if members.len() > 0 {
        declare_members_grows(s, m, n, members.drop_last());
    }
}

pub broadcast proof fn no_mode_grows(s: State, mode: ast::ParamMode)
    ensures
        grew(s, (#[trigger] no_mode(s, mode))),
{
    broadcast use {grew_reflexive, grew_transitive, crate::growth::state::push_grows};

    reveal(no_mode);
}

pub broadcast proof fn declare_param_grows(
    s: State,
    m: Members,
    n: Names,
    index: usize,
    param: ast::Param,
)
    ensures
        grew(s, (#[trigger] declare_param(s, m, n, index, param)).0),
{
    broadcast use {
        grew_reflexive,
        grew_transitive,
        held_ty_grows,
        no_mode_grows,
        crate::growth::state::push_grows,
    };

    reveal(declare_param);
}

pub broadcast proof fn declare_params_grows(s: State, m: Members, n: Names, params: Seq<ast::Param>)
    ensures
        grew(s, (#[trigger] declare_params(s, m, n, params)).0),
    decreases params.len(),
{
    broadcast use {grew_reflexive, grew_transitive, declare_param_grows};

    if params.len() > 0 {
        declare_params_grows(s, m, n, params.drop_last());
    }
}

pub broadcast proof fn pair_handler_grows(
    s: State,
    handled: Seq<usize>,
    m: Members,
    n: Names,
    position: usize,
    input: ast::Ident,
)
    ensures
        grew(s, (#[trigger] pair_handler(s, handled, m, n, position, input)).0),
{
    broadcast use {grew_reflexive, grew_transitive, crate::growth::state::push_grows};

    reveal(pair_handler);
}

pub broadcast proof fn pair_handlers_grows(
    s: State,
    m: Members,
    n: Names,
    members: Seq<ast::Member>,
)
    ensures
        grew(s, (#[trigger] pair_handlers(s, m, n, members)).0),
    decreases members.len(),
{
    broadcast use {grew_reflexive, grew_transitive, pair_handler_grows};

    if members.len() > 0 {
        pair_handlers_grows(s, m, n, members.drop_last());
    }
}

pub broadcast proof fn require_handlers_grows(
    s: State,
    inputs: Seq<model::InputDef>,
    handled: Seq<usize>,
)
    ensures
        grew(s, (#[trigger] require_handlers(s, inputs, handled))),
    decreases inputs.len(),
{
    broadcast use {grew_reflexive, grew_transitive, crate::growth::state::push_grows};

    if inputs.len() > 0 {
        require_handlers_grows(s, inputs.drop_last(), handled);
    }
}

pub broadcast proof fn declare_whole_grows(s: State, id: ReactorId, decl: ast::ReactorDecl)
    ensures
        grew(s, (#[trigger] declare_whole(s, id, decl))),
{
    broadcast use {
        grew_reflexive,
        grew_transitive,
        declare_members_grows,
        declare_params_grows,
        pair_handlers_grows,
        require_handlers_grows,
        with_declared_grows,
        crate::growth::resolve::capabilities_grows,
    };

    reveal(declare_whole);
}

pub broadcast proof fn declare_each_grows(
    s: State,
    items: Seq<ast::Item>,
    ids: Seq<ReactorId>,
    places: Seq<usize>,
)
    ensures
        grew(s, (#[trigger] declare_each(s, items, ids, places))),
    decreases ids.len(),
{
    broadcast use {grew_reflexive, grew_transitive, declare_whole_grows};

    if !(ids.len() == 0 || places.len() == 0) {
        declare_each_grows(s, items, ids.drop_last(), places.drop_last());
    }
}

pub broadcast proof fn declare_reactors_grows(s: State, module: ast::Module)
    ensures
        grew(s, (#[trigger] declare_reactors(s, module))),
{
    broadcast use {grew_reflexive, grew_transitive, declare_each_grows};

    reveal(declare_reactors);
}

} // verus!
