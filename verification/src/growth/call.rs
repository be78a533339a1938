//! Each step of `call.rs` keeps what was there.

use vstd::prelude::*;
use crate::ast;
use crate::model;
use crate::call::{
    over, plan_bare, plan_builtin, plan_enum_variant, plan_far_path, plan_member, plan_method,
    plan_method_of, plan_name, plan_ns, plan_ns_variant, plan_other_name, plan_param_method,
    plan_path, plan_signal, plan_spawn_reactor, plan_struct_call, plan_type_method,
    plan_variant_call, spawned_reactor,
};
use crate::growth::{grew, grew_reflexive, grew_transitive};
use crate::hir::{Builtin, EnumId, FnId, ReactorId, StructId};
use crate::span::{Report, Span};
use crate::state::State;

verus! {

pub broadcast proof fn over_grows(s: State, r: Report, span: Span)
    ensures
        grew(s, (#[trigger] over(s, r, span)).0),
{
    broadcast use {grew_reflexive, grew_transitive, crate::growth::state::push_grows};
}

pub broadcast proof fn plan_bare_grows(
    s: State,
    option: bool,
    name: Seq<char>,
    shown: Seq<char>,
    explicit: Option<Seq<model::Ty>>,
    args: Seq<ast::Arg>,
    expected: Option<model::Ty>,
    span: Span,
)
    ensures
        grew(s, (#[trigger] plan_bare(s, option, name, shown, explicit, args, expected, span)).0),
{
    broadcast use {
        grew_reflexive,
        grew_transitive,
        over_grows,
        crate::growth::plan::plan_option_grows,
        crate::growth::plan::plan_result_grows,
    };

    reveal(plan_bare);
}

pub broadcast proof fn plan_builtin_grows(s: State, b: Builtin, args: Seq<ast::Arg>, span: Span)
    ensures
        grew(s, (#[trigger] plan_builtin(s, b, args, span)).0),
{
    broadcast use {
        grew_reflexive,
        grew_transitive,
        crate::growth::binding::require_task_authority_grows,
        over_grows,
    };

    reveal(plan_builtin);
}

pub broadcast proof fn plan_variant_call_grows(
    s: State,
    id: EnumId,
    index: usize,
    explicit: Option<Seq<model::Ty>>,
    args: Seq<ast::Arg>,
    expected: Option<model::Ty>,
    span: Span,
)
    ensures
        grew(s, (#[trigger] plan_variant_call(s, id, index, explicit, args, expected, span)).0),
{
    broadcast use {
        grew_reflexive,
        grew_transitive,
        crate::growth::instances::explicit_enum_instance_grows,
        crate::growth::plan::plan_variant_grows,
    };

    reveal(plan_variant_call);
}

pub broadcast proof fn plan_enum_variant_grows(
    s: State,
    id: EnumId,
    path: ast::Path,
    explicit: Option<Seq<model::Ty>>,
    args: Seq<ast::Arg>,
    expected: Option<model::Ty>,
    span: Span,
)
    ensures
        grew(s, (#[trigger] plan_enum_variant(s, id, path, explicit, args, expected, span)).0),
{
    broadcast use {
        grew_reflexive,
        grew_transitive,
        over_grows,
        plan_bare_grows,
        plan_variant_call_grows,
    };

    reveal(plan_enum_variant);
}

pub broadcast proof fn plan_ns_variant_grows(
    s: State,
    id: EnumId,
    path: ast::Path,
    explicit: Option<Seq<model::Ty>>,
    args: Seq<ast::Arg>,
    expected: Option<model::Ty>,
    span: Span,
)
    ensures
        grew(s, (#[trigger] plan_ns_variant(s, id, path, explicit, args, expected, span)).0),
{
    broadcast use {grew_reflexive, grew_transitive, over_grows, plan_variant_call_grows};

    reveal(plan_ns_variant);
}

pub broadcast proof fn plan_struct_call_grows(
    s: State,
    id: StructId,
    explicit: Option<Seq<model::Ty>>,
    args: Seq<ast::Arg>,
    expected: Option<model::Ty>,
    span: Span,
)
    ensures
        grew(s, (#[trigger] plan_struct_call(s, id, explicit, args, expected, span)).0),
{
    broadcast use {
        grew_reflexive,
        grew_transitive,
        crate::growth::instances::explicit_struct_instance_grows,
        crate::growth::plan::plan_struct_grows,
    };

    reveal(plan_struct_call);
}

pub broadcast proof fn plan_ns_grows(
    s: State,
    path: ast::Path,
    explicit: Option<Seq<model::Ty>>,
    args: Seq<ast::Arg>,
    expected: Option<model::Ty>,
    span: Span,
)
    ensures
        grew(s, (#[trigger] plan_ns(s, path, explicit, args, expected, span)).0),
{
    broadcast use {
        grew_reflexive,
        grew_transitive,
        over_grows,
        plan_ns_variant_grows,
        plan_struct_call_grows,
        crate::growth::plan::plan_fn_grows,
        crate::growth::resolve::resolve_ns_grows,
    };

    reveal(plan_ns);
}

pub broadcast proof fn plan_far_path_grows(
    s: State,
    path: ast::Path,
    explicit: Option<Seq<model::Ty>>,
    args: Seq<ast::Arg>,
    expected: Option<model::Ty>,
    span: Span,
)
    ensures
        grew(s, (#[trigger] plan_far_path(s, path, explicit, args, expected, span)).0),
{
    broadcast use {
        grew_reflexive,
        grew_transitive,
        over_grows,
        plan_enum_variant_grows,
        plan_ns_grows,
    };

    reveal(plan_far_path);
}

pub broadcast proof fn plan_signal_grows(
    s: State,
    id: ReactorId,
    name: Seq<char>,
    args: Seq<ast::Arg>,
    span: Span,
)
    ensures
        grew(s, (#[trigger] plan_signal(s, id, name, args, span)).0),
{
    broadcast use {
        grew_reflexive,
        grew_transitive,
        crate::growth::plan::argument_order_grows,
        crate::growth::plan::each_of_grows,
    };

    reveal(plan_signal);
}

pub broadcast proof fn plan_member_grows(
    s: State,
    name: Seq<char>,
    name_span: Span,
    args: Seq<ast::Arg>,
    span: Span,
)
    ensures
        grew(s, (#[trigger] plan_member(s, name, name_span, args, span)).0),
{
    broadcast use {grew_reflexive, grew_transitive, over_grows, plan_signal_grows};

    reveal(plan_member);
}

pub broadcast proof fn plan_method_of_grows(
    s: State,
    id: FnId,
    display: Seq<char>,
    receiver: model::Expr,
    args: Seq<ast::Arg>,
    span: Span,
)
    ensures
        grew(s, (#[trigger] plan_method_of(s, id, display, receiver, args, span)).0),
{
    broadcast use {
        grew_reflexive,
        grew_transitive,
        crate::growth::plan::argument_order_grows,
        crate::growth::plan::each_of_grows,
    };

    reveal(plan_method_of);
}

pub broadcast proof fn plan_param_method_grows(
    s: State,
    receiver: model::Expr,
    index: u32,
    name: Seq<char>,
    method: ast::Ident,
    args: Seq<ast::Arg>,
    span: Span,
)
    ensures
        grew(s, (#[trigger] plan_param_method(s, receiver, index, name, method, args, span)).0),
{
    broadcast use {
        grew_reflexive,
        grew_transitive,
        over_grows,
        plan_method_of_grows,
        crate::growth::instances::request_trait_call_grows,
    };

    reveal(plan_param_method);
}

pub broadcast proof fn plan_type_method_grows(
    s: State,
    receiver: model::Expr,
    method: ast::Ident,
    args: Seq<ast::Arg>,
    span: Span,
)
    ensures
        grew(s, (#[trigger] plan_type_method(s, receiver, method, args, span)).0),
{
    broadcast use {grew_reflexive, grew_transitive, over_grows, plan_method_of_grows};

    reveal(plan_type_method);
}

pub broadcast proof fn plan_method_grows(
    s: State,
    receiver: model::Expr,
    method: ast::Ident,
    explicit: Option<Seq<model::Ty>>,
    args: Seq<ast::Arg>,
    span: Span,
)
    ensures
        grew(s, (#[trigger] plan_method(s, receiver, method, explicit, args, span)).0),
{
    broadcast use {
        grew_reflexive,
        grew_transitive,
        over_grows,
        plan_param_method_grows,
        plan_type_method_grows,
        crate::growth::path::field_access_grows,
    };

    reveal(plan_method);
}

pub broadcast proof fn plan_other_name_grows(
    s: State,
    name: Seq<char>,
    name_span: Span,
    explicit: Option<Seq<model::Ty>>,
    args: Seq<ast::Arg>,
    expected: Option<model::Ty>,
    span: Span,
)
    ensures
        grew(s, (#[trigger] plan_other_name(s, name, name_span, explicit, args, expected, span)).0),
{
    broadcast use {
        grew_reflexive,
        grew_transitive,
        over_grows,
        plan_member_grows,
        plan_struct_call_grows,
    };

    reveal(plan_other_name);
}

pub broadcast proof fn plan_name_grows(
    s: State,
    name: Seq<char>,
    name_span: Span,
    explicit: Option<Seq<model::Ty>>,
    args: Seq<ast::Arg>,
    expected: Option<model::Ty>,
    span: Span,
)
    ensures
        grew(s, (#[trigger] plan_name(s, name, name_span, explicit, args, expected, span)).0),
{
    broadcast use {
        grew_reflexive,
        grew_transitive,
        over_grows,
        plan_builtin_grows,
        plan_other_name_grows,
        crate::growth::plan::plan_fn_grows,
    };

    reveal(plan_name);
}

pub broadcast proof fn plan_path_grows(
    s: State,
    path: ast::Path,
    explicit: Option<Seq<model::Ty>>,
    args: Seq<ast::Arg>,
    expected: Option<model::Ty>,
    span: Span,
)
    ensures
        grew(s, (#[trigger] plan_path(s, path, explicit, args, expected, span)).0),
{
    broadcast use {
        grew_reflexive,
        grew_transitive,
        plan_bare_grows,
        plan_far_path_grows,
        plan_method_grows,
        plan_name_grows,
        crate::growth::path::project_grows,
    };

    reveal(plan_path);
}

pub broadcast proof fn spawned_reactor_grows(s: State, path: ast::Path)
    ensures
        grew(s, (#[trigger] spawned_reactor(s, path)).0),
{
    broadcast use {
        grew_reflexive,
        grew_transitive,
        crate::growth::resolve::resolve_ns_grows,
        crate::growth::state::push_grows,
    };

    reveal(spawned_reactor);
}

pub broadcast proof fn plan_spawn_reactor_grows(
    s: State,
    path: ast::Path,
    args: Seq<ast::Arg>,
    span: Span,
)
    ensures
        grew(s, (#[trigger] plan_spawn_reactor(s, path, args, span)).0),
{
    broadcast use {
        grew_reflexive,
        grew_transitive,
        over_grows,
        spawned_reactor_grows,
        crate::growth::plan::argument_order_grows,
        crate::growth::plan::each_of_grows,
    };

    reveal(plan_spawn_reactor);
}

} // verus!
