//! Each step of `instances.rs` keeps what was there.

use vstd::prelude::*;
use crate::model;
use crate::generics::INSTANCE_CEILING;
use crate::growth::{grew, grew_reflexive, grew_transitive, widened};
use crate::hir::{EnumId, FnId, StructId, TraitId};
use crate::instances::{
    NewFn, check_bounds, check_bounds_of, check_type_param_bounds, expectation_bindings,
    explicit_enum_instance, explicit_struct_instance, new_fn_instance, request_fn_instance,
    request_trait_call, settle_bindings, substitute, substitute_all, substitute_bindings,
    substitute_named, template_arity,
};
use crate::span::Span;
use crate::state::{FnInstance, State, Stub};

verus! {

pub broadcast proof fn with_fn_grows(s: State, f: NewFn)
    ensures
        grew(s, (#[trigger] s.with_fn(f))),
{
    reveal(State::with_fn);
    reveal(grew);
    reveal(widened);
}

/// One more copy asked for.
pub broadcast proof fn with_fn_instance_grows(s: State, i: FnInstance)
    requires
        s.fn_instances.len() < INSTANCE_CEILING,
    ensures
        grew(s, (#[trigger] s.with_fn_instance(i))),
{
    reveal(State::with_fn_instance);
    reveal(grew);
    reveal(widened);
}

pub broadcast proof fn with_stub_grows(s: State, stub: Stub)
    ensures
        grew(s, (#[trigger] s.with_stub(stub))),
{
    reveal(State::with_stub);
    reveal(grew);
    reveal(widened);
}

pub broadcast proof fn check_bounds_of_grows(
    s: State,
    bounds: Seq<TraitId>,
    display: Seq<char>,
    param: Seq<char>,
    arg: model::Ty,
    at: Span,
)
    ensures
        grew(s, (#[trigger] check_bounds_of(s, bounds, display, param, arg, at))),
    decreases bounds.len(),
{
    broadcast use {grew_reflexive, grew_transitive, crate::growth::state::push_grows};

    if bounds.len() > 0 {
        check_bounds_of_grows(s, bounds.drop_last(), display, param, arg, at);
    }
}

pub broadcast proof fn check_bounds_grows(
    s: State,
    bounds: Seq<Seq<TraitId>>,
    display: Seq<char>,
    params: Seq<Seq<char>>,
    args: Seq<model::Ty>,
    at: Span,
)
    ensures
        grew(s, (#[trigger] check_bounds(s, bounds, display, params, args, at))),
    decreases args.len(),
{
    broadcast use {grew_reflexive, grew_transitive, check_bounds_of_grows};

    if args.len() > 0 {
        check_bounds_grows(s, bounds, display, params, args.drop_last(), at);
    }
}

pub broadcast proof fn check_type_param_bounds_grows(
    s: State,
    template: FnId,
    args: Seq<model::Ty>,
    at: Span,
)
    ensures
        grew(s, (#[trigger] check_type_param_bounds(s, template, args, at))),
{
    broadcast use {grew_reflexive, grew_transitive, check_bounds_grows};

    reveal(check_type_param_bounds);
}

pub broadcast proof fn expectation_bindings_grows(
    s: State,
    template: model::Ty,
    display: Seq<char>,
    count: nat,
    expected: Option<model::Ty>,
    span: Span,
)
    ensures
        grew(s, (#[trigger] expectation_bindings(s, template, display, count, expected, span)).0),
{
    broadcast use {grew_reflexive, grew_transitive, crate::growth::state::push_grows};

    reveal(expectation_bindings);
}

pub broadcast proof fn template_arity_grows(
    s: State,
    name: Seq<char>,
    params: nat,
    found: nat,
    span: Span,
)
    ensures
        grew(s, (#[trigger] template_arity(s, name, params, found, span)).0),
{
    broadcast use {grew_reflexive, grew_transitive, crate::growth::state::push_grows};

    reveal(template_arity);
}

pub broadcast proof fn explicit_enum_instance_grows(
    s: State,
    id: EnumId,
    args: Seq<model::Ty>,
    span: Span,
)
    ensures
        grew(s, (#[trigger] explicit_enum_instance(s, id, args, span)).0),
{
    broadcast use {
        grew_reflexive,
        grew_transitive,
        crate::growth::generics::instantiate_enum_grows,
        template_arity_grows,
        crate::growth::state::push_grows,
    };

    reveal(explicit_enum_instance);
}

pub broadcast proof fn explicit_struct_instance_grows(
    s: State,
    id: StructId,
    args: Seq<model::Ty>,
    span: Span,
)
    ensures
        grew(s, (#[trigger] explicit_struct_instance(s, id, args, span)).0),
{
    broadcast use {
        grew_reflexive,
        grew_transitive,
        crate::growth::generics::instantiate_struct_grows,
        template_arity_grows,
        crate::growth::state::push_grows,
    };

    reveal(explicit_struct_instance);
}

pub broadcast proof fn substitute_grows(s: State, ty: model::Ty, args: Seq<model::Ty>, at: Span)
    ensures
        grew(s, (#[trigger] substitute(s, ty, args, at)).0),
{
    broadcast use {grew_reflexive, grew_transitive, crate::growth::generics::subst_grows};

    reveal(substitute);
}

pub broadcast proof fn substitute_named_grows(
    s: State,
    list: Seq<(Seq<char>, model::Ty)>,
    args: Seq<model::Ty>,
    at: Span,
)
    ensures
        grew(s, (#[trigger] substitute_named(s, list, args, at)).0),
    decreases list.len(),
{
    broadcast use {
        grew_reflexive,
        grew_transitive,
        substitute_grows,
        crate::growth::state::push_grows,
    };

    if list.len() > 0 {
        substitute_named_grows(s, list.drop_last(), args, at);
    }
}

pub broadcast proof fn new_fn_instance_grows(
    s: State,
    template: FnId,
    args: Seq<model::Ty>,
    at: Span,
    depth: usize,
)
    requires
        s.fn_instances.len() < INSTANCE_CEILING,
    ensures
        grew(s, (#[trigger] new_fn_instance(s, template, args, at, depth)).0),
{
    broadcast use {
        grew_reflexive,
        grew_transitive,
        substitute_grows,
        substitute_named_grows,
        with_fn_grows,
        with_fn_instance_grows,
        crate::growth::typing::substitute_types,
        crate::growth::typing::substitute_named_types,
        crate::growth::typing::with_fn_types,
    };

    reveal(new_fn_instance);
}

pub broadcast proof fn request_fn_instance_grows(
    s: State,
    template: FnId,
    args: Seq<model::Ty>,
    at: Span,
    depth: usize,
)
    ensures
        grew(s, (#[trigger] request_fn_instance(s, template, args, at, depth)).0),
{
    broadcast use {
        grew_reflexive,
        grew_transitive,
        crate::growth::generics::over_the_ceiling_grows,
        new_fn_instance_grows,
        crate::growth::state::push_grows,
    };

    reveal(request_fn_instance);
    reveal(State::fns_full);
}

pub broadcast proof fn request_trait_call_grows(
    s: State,
    trait_id: TraitId,
    method: Seq<char>,
    receiver: model::Ty,
    at: Span,
)
    ensures
        grew(s, (#[trigger] request_trait_call(s, trait_id, method, receiver, at)).0),
{
    broadcast use {
        grew_reflexive,
        grew_transitive,
        substitute_grows,
        substitute_named_grows,
        with_fn_grows,
        with_stub_grows,
    };

    reveal(request_trait_call);
}

pub broadcast proof fn settle_bindings_grows(
    s: State,
    b: Seq<Option<model::Ty>>,
    params: Seq<Seq<char>>,
    display: Seq<char>,
    span: Span,
)
    ensures
        grew(s, (#[trigger] settle_bindings(s, b, params, display, span)).0),
{
    broadcast use {grew_reflexive, grew_transitive, crate::growth::state::push_grows};

    reveal(settle_bindings);
}

pub broadcast proof fn substitute_all_grows(
    s: State,
    list: Seq<model::Ty>,
    args: Seq<model::Ty>,
    at: Span,
)
    ensures
        grew(s, (#[trigger] substitute_all(s, list, args, at)).0),
    decreases list.len(),
{
    broadcast use {
        grew_reflexive,
        grew_transitive,
        substitute_grows,
        crate::growth::state::push_grows,
    };

    if list.len() > 0 {
        substitute_all_grows(s, list.drop_last(), args, at);
    }
}

pub broadcast proof fn substitute_bindings_grows(
    s: State,
    ty: model::Ty,
    b: Seq<Option<model::Ty>>,
    at: Span,
)
    ensures
        grew(s, (#[trigger] substitute_bindings(s, ty, b, at)).0),
{
    broadcast use {grew_reflexive, grew_transitive, substitute_grows};

    reveal(substitute_bindings);
}

} // verus!
