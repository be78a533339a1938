//! Each step of `plan.rs` keeps what was there.

use vstd::prelude::*;
use crate::ast;
use crate::model;
use crate::growth::{grew, grew_reflexive, grew_transitive};
use crate::hir::{EnumId, FnId, StructId};
use crate::plan::{
    Finish, Plan, Settle, argument_order, conclude, conclude_generic_fn, conclude_inferred, each_of,
    place_args, plan_fn, plan_generic_fn, plan_generic_struct, plan_generic_variant, plan_option,
    plan_option_of, plan_result, plan_result_of, plan_struct, plan_variant, uninferable,
    without_arguments,
};
use crate::span::Span;
use crate::state::State;

verus! {

pub broadcast proof fn place_args_grows(
    s: State,
    names: Seq<Seq<char>>,
    args: Seq<ast::Arg>,
    subject: Seq<char>,
    noun: Seq<char>,
)
    ensures
        grew(s, (#[trigger] place_args(s, names, args, subject, noun)).s),
    decreases args.len(),
{
    broadcast use {grew_reflexive, grew_transitive, crate::growth::state::push_grows};

    if args.len() > 0 {
        place_args_grows(s, names, args.drop_last(), subject, noun);
    }
}

pub broadcast proof fn argument_order_grows(
    s: State,
    names: Seq<Seq<char>>,
    args: Seq<ast::Arg>,
    subject: Seq<char>,
    noun: Seq<char>,
    span: Span,
)
    ensures
        grew(s, (#[trigger] argument_order(s, names, args, subject, noun, span)).0),
{
    broadcast use {
        grew_reflexive,
        grew_transitive,
        place_args_grows,
        crate::growth::state::push_grows,
    };

    reveal(argument_order);
}

pub broadcast proof fn uninferable_grows(s: State, span: Span, what: Seq<char>, example: Seq<char>)
    ensures
        grew(s, (#[trigger] uninferable(s, span, what, example)).0),
{
    broadcast use {grew_reflexive, grew_transitive, crate::growth::state::push_grows};
}

pub broadcast proof fn conclude_grows(s: State, finish: Finish, args: Seq<model::Expr>, span: Span)
    ensures
        grew(s, (#[trigger] conclude(s, finish, args, span)).0),
{
    broadcast use {
        grew_reflexive,
        grew_transitive,
        crate::growth::binding::require_task_authority_grows,
        uninferable_grows,
    };

    reveal(conclude);
}

pub broadcast proof fn conclude_generic_fn_grows(
    s: State,
    template: FnId,
    display: Seq<char>,
    args: Seq<model::Expr>,
    b: Seq<Option<model::Ty>>,
    span: Span,
)
    ensures
        grew(s, (#[trigger] conclude_generic_fn(s, template, display, args, b, span)).0),
{
    broadcast use {
        grew_reflexive,
        grew_transitive,
        crate::growth::binding::require_task_context_grows,
        crate::growth::instances::check_type_param_bounds_grows,
        crate::growth::instances::request_fn_instance_grows,
        crate::growth::state::push_grows,
    };

    reveal(conclude_generic_fn);
}

pub broadcast proof fn conclude_inferred_grows(
    s: State,
    settle: Settle,
    args: Seq<model::Expr>,
    b: Seq<Option<model::Ty>>,
    span: Span,
)
    ensures
        grew(s, (#[trigger] conclude_inferred(s, settle, args, b, span)).0),
{
    broadcast use {
        grew_reflexive,
        grew_transitive,
        crate::growth::generics::instantiate_enum_grows,
        crate::growth::generics::instantiate_struct_grows,
        crate::growth::instances::settle_bindings_grows,
        conclude_generic_fn_grows,
    };

    reveal(conclude_inferred);
}

pub broadcast proof fn each_of_grows(
    r: (State, Option<Seq<usize>>),
    wants: Seq<Option<model::Ty>>,
    finish: Finish,
    span: Span,
)
    ensures
        grew(r.0, (#[trigger] each_of(r, wants, finish, span)).0),
{
    broadcast use {grew_reflexive, grew_transitive};
}

pub broadcast proof fn plan_generic_fn_grows(
    s: State,
    template: FnId,
    display: Seq<char>,
    explicit: Option<Seq<model::Ty>>,
    args: Seq<ast::Arg>,
    expected: Option<model::Ty>,
    span: Span,
)
    ensures
        grew(
            s,
            (#[trigger] plan_generic_fn(s, template, display, explicit, args, expected, span)).0,
        ),
{
    broadcast use {
        grew_reflexive,
        grew_transitive,
        crate::growth::instances::template_arity_grows,
        argument_order_grows,
    };

    reveal(plan_generic_fn);
}

pub broadcast proof fn plan_fn_grows(
    s: State,
    id: FnId,
    display: Seq<char>,
    explicit: Option<Seq<model::Ty>>,
    args: Seq<ast::Arg>,
    expected: Option<model::Ty>,
    span: Span,
)
    ensures
        grew(s, (#[trigger] plan_fn(s, id, display, explicit, args, expected, span)).0),
{
    broadcast use {
        grew_reflexive,
        grew_transitive,
        argument_order_grows,
        each_of_grows,
        plan_generic_fn_grows,
        crate::growth::state::push_grows,
    };

    reveal(plan_fn);
}

pub broadcast proof fn plan_generic_struct_grows(
    s: State,
    template: StructId,
    args: Seq<ast::Arg>,
    expected: Option<model::Ty>,
    span: Span,
)
    ensures
        grew(s, (#[trigger] plan_generic_struct(s, template, args, expected, span)).0),
{
    broadcast use {
        grew_reflexive,
        grew_transitive,
        crate::growth::instances::expectation_bindings_grows,
        argument_order_grows,
    };

    reveal(plan_generic_struct);
}

pub broadcast proof fn plan_generic_variant_grows(
    s: State,
    template: EnumId,
    index: usize,
    args: Seq<ast::Arg>,
    expected: Option<model::Ty>,
    span: Span,
)
    ensures
        grew(s, (#[trigger] plan_generic_variant(s, template, index, args, expected, span)).0),
{
    broadcast use {
        grew_reflexive,
        grew_transitive,
        crate::growth::instances::expectation_bindings_grows,
        argument_order_grows,
    };

    reveal(plan_generic_variant);
}

pub broadcast proof fn plan_option_of_grows(
    s: State,
    some: bool,
    args: Seq<ast::Arg>,
    inner: Option<model::Ty>,
    span: Span,
)
    ensures
        grew(s, (#[trigger] plan_option_of(s, some, args, inner, span)).0),
{
    broadcast use {
        grew_reflexive,
        grew_transitive,
        uninferable_grows,
        crate::growth::state::push_grows,
    };
}

pub broadcast proof fn plan_option_grows(
    s: State,
    some: bool,
    args: Seq<ast::Arg>,
    expected: Option<model::Ty>,
    span: Span,
)
    ensures
        grew(s, (#[trigger] plan_option(s, some, args, expected, span)).0),
{
    broadcast use {
        grew_reflexive,
        grew_transitive,
        plan_option_of_grows,
        crate::growth::state::push_grows,
    };

    reveal(plan_option);
}

pub broadcast proof fn plan_result_of_grows(
    s: State,
    is_ok: bool,
    args: Seq<ast::Arg>,
    parts: Option<(model::Ty, model::Ty)>,
    span: Span,
)
    ensures
        grew(s, (#[trigger] plan_result_of(s, is_ok, args, parts, span)).0),
{
    broadcast use {grew_reflexive, grew_transitive, crate::growth::state::push_grows};
}

pub broadcast proof fn plan_result_grows(
    s: State,
    is_ok: bool,
    args: Seq<ast::Arg>,
    expected: Option<model::Ty>,
    span: Span,
)
    ensures
        grew(s, (#[trigger] plan_result(s, is_ok, args, expected, span)).0),
{
    broadcast use {
        grew_reflexive,
        grew_transitive,
        plan_result_of_grows,
        crate::growth::state::push_grows,
    };

    reveal(plan_result);
}

pub broadcast proof fn plan_struct_grows(
    s: State,
    id: StructId,
    args: Seq<ast::Arg>,
    expected: Option<model::Ty>,
    span: Span,
)
    ensures
        grew(s, (#[trigger] plan_struct(s, id, args, expected, span)).0),
{
    broadcast use {
        grew_reflexive,
        grew_transitive,
        argument_order_grows,
        each_of_grows,
        plan_generic_struct_grows,
    };

    reveal(plan_struct);
}

pub broadcast proof fn plan_variant_grows(
    s: State,
    id: EnumId,
    index: usize,
    args: Seq<ast::Arg>,
    expected: Option<model::Ty>,
    span: Span,
)
    ensures
        grew(s, (#[trigger] plan_variant(s, id, index, args, expected, span)).0),
{
    broadcast use {
        grew_reflexive,
        grew_transitive,
        argument_order_grows,
        each_of_grows,
        plan_generic_variant_grows,
    };

    reveal(plan_variant);
}

pub broadcast proof fn without_arguments_grows(s: State, plan: Plan, span: Span)
    ensures
        grew(s, (#[trigger] without_arguments(s, plan, span)).0),
{
    broadcast use {grew_reflexive, grew_transitive, conclude_grows, conclude_inferred_grows};

    reveal(without_arguments);
}

} // verus!
