//! Each step of `state.rs` keeps what was there.

use vstd::prelude::*;
use crate::model;
use crate::growth::{grew, widened};
use crate::hir::{Capability, LocalRole, ReactorId, TraitId};
use crate::span::{Report, Span};
use crate::state::{Ctx, Sort, State};

verus! {

pub broadcast proof fn push_grows(s: State, r: Report)
    ensures
        grew(s, (#[trigger] s.push(r))),
{
    reveal(State::push);
    reveal(grew);
    reveal(widened);
}

pub broadcast proof fn bound_grows(
    s: State,
    name: Seq<char>,
    ty: model::Ty,
    mutable: bool,
    role: LocalRole,
    span: Span,
)
    ensures
        grew(s, (#[trigger] s.bound(name, ty, mutable, role, span))),
{
    reveal(State::bound);
    reveal(grew);
    reveal(widened);
}

pub broadcast proof fn open_scope_grows(s: State)
    ensures
        grew(s, (#[trigger] s.open_scope())),
{
    reveal(State::open_scope);
    reveal(grew);
    reveal(widened);
}

pub broadcast proof fn close_scope_grows(s: State)
    ensures
        grew(s, (#[trigger] s.close_scope())),
{
    reveal(State::close_scope);
    reveal(grew);
    reveal(widened);
}

pub broadcast proof fn with_ctx_grows(s: State, v: Ctx)
    ensures
        grew(s, (#[trigger] s.with_ctx(v))),
{
    reveal(State::with_ctx);
    reveal(grew);
    reveal(widened);
}

pub broadcast proof fn with_scope_depth_grows(s: State, v: usize)
    ensures
        grew(s, (#[trigger] s.with_scope_depth(v))),
{
    reveal(State::with_scope_depth);
    reveal(grew);
    reveal(widened);
}

pub broadcast proof fn with_reactor_grows(s: State, v: Option<ReactorId>)
    ensures
        grew(s, (#[trigger] s.with_reactor(v))),
{
    reveal(State::with_reactor);
    reveal(grew);
    reveal(widened);
}

pub broadcast proof fn with_in_handler_grows(s: State, v: bool)
    ensures
        grew(s, (#[trigger] s.with_in_handler(v))),
{
    reveal(State::with_in_handler);
    reveal(grew);
    reveal(widened);
}

pub broadcast proof fn with_assigning_grows(s: State, v: bool)
    ensures
        grew(s, (#[trigger] s.with_assigning(v))),
{
    reveal(State::with_assigning);
    reveal(grew);
    reveal(widened);
}

pub broadcast proof fn with_fill_cursor_grows(s: State, v: usize)
    ensures
        grew(s, (#[trigger] s.with_fill_cursor(v))),
{
    reveal(State::with_fill_cursor);
    reveal(grew);
    reveal(widened);
}

pub broadcast proof fn with_work_cursor_grows(s: State, v: usize)
    ensures
        grew(s, (#[trigger] s.with_work_cursor(v))),
{
    reveal(State::with_work_cursor);
    reveal(grew);
    reveal(widened);
}

pub broadcast proof fn with_defining_types_grows(s: State, v: bool)
    ensures
        grew(s, (#[trigger] s.with_defining_types(v))),
{
    reveal(State::with_defining_types);
    reveal(grew);
    reveal(widened);
}

pub broadcast proof fn with_cap_reported_grows(s: State, v: bool)
    ensures
        grew(s, (#[trigger] s.with_cap_reported(v))),
{
    reveal(State::with_cap_reported);
    reveal(grew);
    reveal(widened);
}

pub broadcast proof fn with_ret_grows(s: State, v: model::Ty)
    ensures
        grew(s, (#[trigger] s.with_ret(v))),
{
    reveal(State::with_ret);
    reveal(grew);
    reveal(widened);
}

pub broadcast proof fn with_fn_name_grows(s: State, v: Seq<char>)
    ensures
        grew(s, (#[trigger] s.with_fn_name(v))),
{
    reveal(State::with_fn_name);
    reveal(grew);
    reveal(widened);
}

pub broadcast proof fn with_uses_grows(s: State, v: Seq<Capability>)
    ensures
        grew(s, (#[trigger] s.with_uses(v))),
{
    reveal(State::with_uses);
    reveal(grew);
    reveal(widened);
}

pub broadcast proof fn with_type_params_grows(s: State, v: Seq<Seq<char>>)
    ensures
        grew(s, (#[trigger] s.with_type_params(v))),
{
    reveal(State::with_type_params);
    reveal(grew);
    reveal(widened);
}

pub broadcast proof fn with_bounds_grows(s: State, v: Seq<Seq<TraitId>>)
    ensures
        grew(s, (#[trigger] s.with_bounds(v))),
{
    reveal(State::with_bounds);
    reveal(grew);
    reveal(widened);
}

pub broadcast proof fn with_self_ty_grows(s: State, v: Option<model::Ty>)
    ensures
        grew(s, (#[trigger] s.with_self_ty(v))),
{
    reveal(State::with_self_ty);
    reveal(grew);
    reveal(widened);
}

pub broadcast proof fn with_members_grows(s: State, v: Map<Seq<char>, Sort>)
    ensures
        grew(s, (#[trigger] s.with_members(v))),
{
    reveal(State::with_members);
    reveal(grew);
    reveal(widened);
}

} // verus!
