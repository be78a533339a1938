//! Each step of `item.rs` keeps what was there.

use vstd::prelude::*;
use crate::ast;
use crate::model;
use crate::growth::{grew, grew_reflexive, grew_transitive};
use crate::hir::FnId;
use crate::item::{
    bind_params_of, bounds_at, check_fn_body, check_fns, check_impl_fns, check_item, check_items,
    declare_enum, declare_fn, declare_fns, declare_fns_of, declare_lifted, declare_reactor,
    declare_struct, declare_trait, declare_type, declare_types, declare_types_of, define_fields,
    define_type, define_types, define_types_of, define_variants, entering, entry_point, kept_params,
    payload, record_fields, refuse_bounds, resolve_bounds, resolve_params, return_ty, seeded,
    tuple_fields, type_param_names,
};
use crate::span::Span;
use crate::state::State;

verus! {

pub broadcast proof fn bind_params_of_grows(
    s: State,
    params: Seq<(Seq<char>, model::Ty)>,
    decls: Seq<ast::Param>,
)
    ensures
        grew(s, (#[trigger] bind_params_of(s, params, decls))),
    decreases params.len(),
{
    broadcast use {grew_reflexive, grew_transitive, crate::growth::binding::declare_role_grows};

    if params.len() > 0 {
        bind_params_of_grows(s, params.drop_last(), decls);
    }
}

pub broadcast proof fn resolve_bounds_grows(s: State, paths: Seq<ast::Path>)
    ensures
        grew(s, (#[trigger] resolve_bounds(s, paths)).0),
    decreases paths.len(),
{
    broadcast use {
        grew_reflexive,
        grew_transitive,
        crate::growth::resolve::resolve_trait_grows,
        crate::growth::state::push_grows,
    };

    if paths.len() > 0 {
        resolve_bounds_grows(s, paths.drop_last());
    }
}

pub broadcast proof fn bounds_at_grows(s: State, params: Seq<ast::TypeParam>, kept: Seq<usize>)
    ensures
        grew(s, (#[trigger] bounds_at(s, params, kept)).0),
    decreases kept.len(),
{
    broadcast use {
        grew_reflexive,
        grew_transitive,
        resolve_bounds_grows,
        crate::growth::state::push_grows,
    };

    if kept.len() > 0 {
        bounds_at_grows(s, params, kept.drop_last());
    }
}

pub broadcast proof fn entering_grows(s: State, id: FnId, is_task: bool, display: Seq<char>)
    ensures
        grew(s, (#[trigger] entering(s, id, is_task, display))),
{
    broadcast use {
        grew_reflexive,
        grew_transitive,
        crate::growth::state::with_bounds_grows,
        crate::growth::state::with_ctx_grows,
        crate::growth::state::with_fn_name_grows,
        crate::growth::state::with_in_handler_grows,
        crate::growth::state::with_members_grows,
        crate::growth::state::with_reactor_grows,
        crate::growth::state::with_ret_grows,
        crate::growth::state::with_scope_depth_grows,
        crate::growth::state::with_type_params_grows,
        crate::growth::state::with_uses_grows,
        crate::growth::tables::fresh_grows,
    };

    reveal(entering);
}

pub broadcast proof fn check_fn_body_grows(
    s: State,
    id: FnId,
    decl: ast::FnDecl,
    display: Seq<char>,
)
    ensures
        grew(s, (#[trigger] check_fn_body(s, id, decl, display))),
{
    broadcast use {
        grew_reflexive,
        grew_transitive,
        crate::growth::expr::body_grows,
        bind_params_of_grows,
        entering_grows,
        crate::growth::state::push_grows,
        crate::growth::state::with_bounds_grows,
        crate::growth::state::with_type_params_grows,
        crate::growth::tables::with_body_grows,
    };

    reveal(check_fn_body);
}

pub broadcast proof fn check_impl_fns_grows(
    s: State,
    receiver: model::Ty,
    methods: Seq<(Seq<char>, Option<FnId>)>,
    fns: Seq<ast::FnDecl>,
)
    ensures
        grew(s, (#[trigger] check_impl_fns(s, receiver, methods, fns))),
    decreases methods.len(),
{
    broadcast use {
        grew_reflexive,
        grew_transitive,
        check_fn_body_grows,
        crate::growth::state::with_self_ty_grows,
    };

    if methods.len() > 0 {
        check_impl_fns_grows(s, receiver, methods.drop_last(), fns);
    }
}

pub broadcast proof fn check_item_grows(s: State, item: ast::Item, index: int)
    ensures
        grew(s, (#[trigger] check_item(s, item, index))),
{
    broadcast use {grew_reflexive, grew_transitive, check_fn_body_grows, check_impl_fns_grows};

    reveal(check_item);
}

pub broadcast proof fn check_items_grows(s: State, items: Seq<ast::Item>)
    ensures
        grew(s, (#[trigger] check_items(s, items))),
    decreases items.len(),
{
    broadcast use {grew_reflexive, grew_transitive, check_item_grows};

    if items.len() > 0 {
        check_items_grows(s, items.drop_last());
    }
}

pub broadcast proof fn check_fns_grows(s: State, module: ast::Module)
    ensures
        grew(s, (#[trigger] check_fns(s, module))),
{
    broadcast use {grew_reflexive, grew_transitive, check_items_grows};

    reveal(check_fns);
}

pub broadcast proof fn kept_params_grows(s: State, params: Seq<ast::TypeParam>)
    ensures
        grew(s, (#[trigger] kept_params(s, params)).0),
    decreases params.len(),
{
    broadcast use {grew_reflexive, grew_transitive, crate::growth::state::push_grows};

    if params.len() > 0 {
        kept_params_grows(s, params.drop_last());
    }
}

pub broadcast proof fn refuse_bounds_grows(s: State, params: Seq<ast::TypeParam>)
    ensures
        grew(s, (#[trigger] refuse_bounds(s, params))),
    decreases params.len(),
{
    broadcast use {grew_reflexive, grew_transitive, crate::growth::state::push_grows};

    if params.len() > 0 {
        refuse_bounds_grows(s, params.drop_last());
    }
}

pub broadcast proof fn type_param_names_grows(s: State, params: Seq<ast::TypeParam>)
    ensures
        grew(s, (#[trigger] type_param_names(s, params)).0),
{
    broadcast use {grew_reflexive, grew_transitive, kept_params_grows, refuse_bounds_grows};

    reveal(type_param_names);
}

pub broadcast proof fn declare_enum_grows(s: State, decl: ast::EnumDecl)
    ensures
        grew(s, (#[trigger] declare_enum(s, decl))),
{
    broadcast use {
        grew_reflexive,
        grew_transitive,
        type_param_names_grows,
        crate::growth::state::push_grows,
        crate::growth::tables::naming_type_grows,
        crate::growth::tables::with_new_enum_grows,
    };

    reveal(declare_enum);
}

pub broadcast proof fn entry_point_grows(s: State, decl: ast::FnDecl, id: FnId, type_params: nat)
    ensures
        grew(s, (#[trigger] entry_point(s, decl, id, type_params))),
{
    broadcast use {
        grew_reflexive,
        grew_transitive,
        crate::growth::state::push_grows,
        crate::growth::tables::with_main_grows,
    };

    reveal(entry_point);
}

pub broadcast proof fn resolve_params_grows(s: State, params: Seq<ast::Param>)
    ensures
        grew(s, (#[trigger] resolve_params(s, params)).0),
    decreases params.len(),
{
    broadcast use {
        grew_reflexive,
        grew_transitive,
        crate::growth::resolve::resolve_param_ty_grows,
        crate::growth::state::push_grows,
    };

    if params.len() > 0 {
        resolve_params_grows(s, params.drop_last());
    }
}

pub broadcast proof fn return_ty_grows(s: State, ret: Option<ast::Type>)
    ensures
        grew(s, (#[trigger] return_ty(s, ret)).0),
{
    broadcast use {grew_reflexive, grew_transitive, crate::growth::resolve::resolve_ty_grows};

    reveal(return_ty);
}

pub broadcast proof fn declare_fn_grows(s: State, decl: ast::FnDecl)
    ensures
        grew(s, (#[trigger] declare_fn(s, decl)).0),
{
    broadcast use {
        grew_reflexive,
        grew_transitive,
        crate::growth::instances::with_fn_grows,
        bounds_at_grows,
        entry_point_grows,
        kept_params_grows,
        resolve_params_grows,
        return_ty_grows,
        crate::growth::resolve::capabilities_grows,
        crate::growth::state::push_grows,
        crate::growth::state::with_type_params_grows,
        crate::growth::tables::naming_fn_grows,
    };

    reveal(declare_fn);
}

pub broadcast proof fn declare_fns_of_grows(s: State, items: Seq<ast::Item>)
    ensures
        grew(s, (#[trigger] declare_fns_of(s, items)).0),
    decreases items.len(),
{
    broadcast use {
        grew_reflexive,
        grew_transitive,
        declare_fn_grows,
        crate::growth::state::push_grows,
    };

    if items.len() > 0 {
        declare_fns_of_grows(s, items.drop_last());
    }
}

pub broadcast proof fn declare_fns_grows(s: State, module: ast::Module)
    ensures
        grew(s, (#[trigger] declare_fns(s, module))),
{
    broadcast use {
        grew_reflexive,
        grew_transitive,
        declare_fns_of_grows,
        crate::growth::tables::with_fn_of_item_grows,
    };

    reveal(declare_fns);
}

pub broadcast proof fn declare_lifted_grows(s: State, name: Seq<char>, span: Span)
    ensures
        grew(s, (#[trigger] declare_lifted(s, name, span)).0),
{
    broadcast use {grew_reflexive, grew_transitive, crate::growth::instances::with_fn_grows};

    reveal(declare_lifted);
}

pub broadcast proof fn declare_reactor_grows(s: State, decl: ast::ReactorDecl)
    ensures
        grew(s, (#[trigger] declare_reactor(s, decl))),
{
    broadcast use {
        grew_reflexive,
        grew_transitive,
        crate::growth::state::push_grows,
        crate::growth::tables::naming_reactor_grows,
        crate::growth::tables::naming_type_grows,
        crate::growth::tables::with_new_reactor_grows,
    };

    reveal(declare_reactor);
}

pub broadcast proof fn declare_struct_grows(s: State, decl: ast::StructDecl)
    ensures
        grew(s, (#[trigger] declare_struct(s, decl))),
{
    broadcast use {
        grew_reflexive,
        grew_transitive,
        type_param_names_grows,
        crate::growth::state::push_grows,
        crate::growth::tables::naming_type_grows,
        crate::growth::tables::with_new_struct_grows,
    };

    reveal(declare_struct);
}

pub broadcast proof fn declare_trait_grows(s: State, decl: ast::TraitDecl)
    ensures
        grew(s, (#[trigger] declare_trait(s, decl))),
{
    broadcast use {
        grew_reflexive,
        grew_transitive,
        crate::growth::state::push_grows,
        crate::growth::tables::naming_trait_grows,
        crate::growth::tables::with_trait_grows,
    };

    reveal(declare_trait);
}

pub broadcast proof fn declare_type_grows(s: State, item: ast::Item)
    ensures
        grew(s, (#[trigger] declare_type(s, item))),
{
    broadcast use {
        grew_reflexive,
        grew_transitive,
        declare_enum_grows,
        declare_reactor_grows,
        declare_struct_grows,
        declare_trait_grows,
    };
}

pub broadcast proof fn declare_types_of_grows(s: State, items: Seq<ast::Item>)
    ensures
        grew(s, (#[trigger] declare_types_of(s, items))),
    decreases items.len(),
{
    broadcast use {grew_reflexive, grew_transitive, declare_type_grows};

    if items.len() > 0 {
        declare_types_of_grows(s, items.drop_last());
    }
}

pub broadcast proof fn seeded_grows(s: State)
    ensures
        grew(s, (#[trigger] seeded(s))),
{
    broadcast use {
        grew_reflexive,
        grew_transitive,
        crate::growth::tables::naming_trait_grows,
        crate::growth::tables::naming_type_grows,
    };

    reveal(seeded);
}

pub broadcast proof fn declare_types_grows(s: State, module: ast::Module)
    ensures
        grew(s, (#[trigger] declare_types(s, module))),
{
    broadcast use {grew_reflexive, grew_transitive, declare_types_of_grows, seeded_grows};

    reveal(declare_types);
}

pub broadcast proof fn define_fields_grows(s: State, decls: Seq<ast::FieldDecl>)
    ensures
        grew(s, (#[trigger] define_fields(s, decls)).0),
    decreases decls.len(),
{
    broadcast use {
        grew_reflexive,
        grew_transitive,
        crate::growth::resolve::resolve_ty_grows,
        crate::growth::state::push_grows,
    };

    if decls.len() > 0 {
        define_fields_grows(s, decls.drop_last());
    }
}

pub broadcast proof fn record_fields_grows(s: State, decls: Seq<ast::FieldDecl>)
    ensures
        grew(s, (#[trigger] record_fields(s, decls)).0),
    decreases decls.len(),
{
    broadcast use {
        grew_reflexive,
        grew_transitive,
        crate::growth::resolve::resolve_ty_grows,
        crate::growth::state::push_grows,
    };

    if decls.len() > 0 {
        record_fields_grows(s, decls.drop_last());
    }
}

pub broadcast proof fn tuple_fields_grows(s: State, types: Seq<ast::Type>)
    ensures
        grew(s, (#[trigger] tuple_fields(s, types)).0),
    decreases types.len(),
{
    broadcast use {
        grew_reflexive,
        grew_transitive,
        crate::growth::resolve::resolve_ty_grows,
        crate::growth::state::push_grows,
    };

    if types.len() > 0 {
        tuple_fields_grows(s, types.drop_last());
    }
}

pub broadcast proof fn payload_grows(s: State, p: ast::VariantPayload)
    ensures
        grew(s, (#[trigger] payload(s, p)).0),
{
    broadcast use {grew_reflexive, grew_transitive, record_fields_grows, tuple_fields_grows};

    reveal(payload);
}

pub broadcast proof fn define_variants_grows(s: State, decls: Seq<ast::VariantDecl>)
    ensures
        grew(s, (#[trigger] define_variants(s, decls)).0),
    decreases decls.len(),
{
    broadcast use {
        grew_reflexive,
        grew_transitive,
        payload_grows,
        crate::growth::state::push_grows,
    };

    if decls.len() > 0 {
        define_variants_grows(s, decls.drop_last());
    }
}

pub broadcast proof fn define_type_grows(s: State, item: ast::Item)
    ensures
        grew(s, (#[trigger] define_type(s, item))),
{
    broadcast use {
        grew_reflexive,
        grew_transitive,
        crate::growth::generics::with_struct_fields_grows,
        crate::growth::generics::with_variants_grows,
        define_fields_grows,
        define_variants_grows,
        crate::growth::state::with_type_params_grows,
    };

    reveal(define_type);
}

pub broadcast proof fn define_types_of_grows(s: State, items: Seq<ast::Item>)
    ensures
        grew(s, (#[trigger] define_types_of(s, items))),
    decreases items.len(),
{
    broadcast use {
        grew_reflexive,
        grew_transitive,
        define_type_grows,
        crate::growth::state::with_type_params_grows,
    };

    if items.len() > 0 {
        define_types_of_grows(s, items.drop_last());
    }
}

pub broadcast proof fn define_types_grows(s: State, module: ast::Module)
    ensures
        grew(s, (#[trigger] define_types(s, module))),
{
    broadcast use {
        grew_reflexive,
        grew_transitive,
        define_types_of_grows,
        crate::growth::state::with_type_params_grows,
    };

    reveal(define_types);
}

} // verus!
