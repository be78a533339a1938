//! Each step of `resolve.rs` keeps what was there.

use vstd::prelude::*;
use crate::ast;
use crate::copies::place_of;
use crate::growth::{grew, grew_reflexive, grew_transitive};
use crate::resolve::{
    capabilities, named_ty, resolve_all, resolve_flow, resolve_name, resolve_ns, resolve_ns_trait,
    resolve_param_ty, resolve_plain_name, resolve_trait, resolve_ty, type_args, written_param_ty,
    written_ty, written_tys,
};
use crate::span::Span;
use crate::state::{NsItem, State, TypeName};

verus! {

pub broadcast proof fn capabilities_grows(s: State, uses: Seq<ast::Path>)
    ensures
        grew(s, (#[trigger] capabilities(s, uses)).0),
    decreases uses.len(),
{
    broadcast use {grew_reflexive, grew_transitive, crate::growth::state::push_grows};

    if uses.len() > 0 {
        capabilities_grows(s, uses.drop_last());
    }
}

pub broadcast proof fn resolve_ns_grows(s: State, path: ast::Path)
    ensures
        grew(s, (#[trigger] resolve_ns(s, path)).0),
{
    broadcast use {grew_reflexive, grew_transitive, crate::growth::state::push_grows};

    reveal(resolve_ns);
}

pub broadcast proof fn type_args_grows(
    s: State,
    name: Seq<char>,
    args: Seq<ast::Type>,
    want: nat,
    span: Span,
)
    ensures
        grew(s, (#[trigger] type_args(s, name, args, want, span)).0),
    decreases args, 1nat,
{
    broadcast use {grew_reflexive, grew_transitive, crate::growth::state::push_grows};

    if args.len() == want {
        written_tys_grows(s, args);
    }
}

pub broadcast proof fn resolve_plain_name_grows(
    s: State,
    name: Seq<char>,
    args: Seq<ast::Type>,
    path_span: Span,
    span: Span,
)
    ensures
        grew(s, (#[trigger] resolve_plain_name(s, name, args, path_span, span)).0),
    decreases args, 2nat,
{
    broadcast use {grew_reflexive, grew_transitive, crate::growth::state::push_grows};

    if !(name == "Self"@) {
        match place_of(s.type_params, name) {
            Some(i) => {},
            None => {
                match s.type_named(name) {
                    Some(t) => {
                        named_ty_grows(s, t, name, args, span);
                    },
                    _ => {},
                }
            },
        }
    }
}

pub broadcast proof fn resolve_flow_grows(s: State, args: Seq<ast::Type>, span: Span)
    ensures
        grew(s, (#[trigger] resolve_flow(s, args, span)).0),
    decreases args, 1nat,
{
    broadcast use {grew_reflexive, grew_transitive, crate::growth::state::push_grows};

    if args.len() == 1 {
        written_tys_grows(s, args);
    }
}

pub broadcast proof fn resolve_name_grows(
    s: State,
    name: Seq<char>,
    args: Seq<ast::Type>,
    path_span: Span,
    span: Span,
)
    ensures
        grew(s, (#[trigger] resolve_name(s, name, args, path_span, span)).0),
    decreases args, 3nat,
{
    broadcast use {grew_reflexive, grew_transitive, crate::growth::state::push_grows};

    if name == "Option"@ {
        type_args_grows(s, name, args, 1, span);
    } else {
        if name == "Result"@ {
            type_args_grows(s, name, args, 2, span);
        } else {
            if name == "Task"@ {
                type_args_grows(s, name, args, 1, span);
            } else {
                if name == "Shared"@ {
                    type_args_grows(s, name, args, 1, span);
                } else {
                    if name == "Slots"@ {
                        type_args_grows(s, name, args, 1, span);
                    } else {
                        if name == "Flow"@ {
                            resolve_flow_grows(s, args, span);
                        } else {
                            if !(name == "Signal"@ || name == "Event"@) {
                                resolve_plain_name_grows(s, name, args, path_span, span);
                            }
                        }
                    }
                }
            }
        }
    }
}

pub broadcast proof fn written_ty_grows(s: State, ty: ast::Type)
    ensures
        grew(s, (#[trigger] written_ty(s, ty)).0),
    decreases ty, 2nat,
{
    broadcast use {
        grew_reflexive,
        grew_transitive,
        resolve_ns_grows,
        crate::growth::state::push_grows,
    };

    match ty.kind {
        ast::TypeKind::Unit => {},
        ast::TypeKind::Ref { mutable, .. } => {},
        ast::TypeKind::Path { path, args } => {
            if path.rest@.len() == 0 {
                resolve_name_grows(s, path.head.name@, args@, path.span, ty.span);
            } else {
                if path.rest@.len() == 1 && s.namespace_named(path.head.name@) is Some {
                    let (s1, item) = resolve_ns(s, path);
                    match item {
                        Some(Some(NsItem::Struct(id))) => {
                            named_ty_grows(s1, TypeName::Struct(id), path.text(), args@, ty.span);
                        },
                        Some(Some(NsItem::Enum(id))) => {
                            named_ty_grows(s1, TypeName::Enum(id), path.text(), args@, ty.span);
                        },
                        Some(Some(NsItem::Reactor(id))) => {
                            named_ty_grows(s1, TypeName::Reactor(id), path.text(), args@, ty.span);
                        },
                        _ => {},
                    }
                }
            }
        },
    }
}

pub broadcast proof fn written_tys_grows(s: State, list: Seq<ast::Type>)
    ensures
        grew(s, (#[trigger] written_tys(s, list)).0),
    decreases list, 0nat,
{
    broadcast use {grew_reflexive, grew_transitive, crate::growth::state::push_grows};

    if list.len() > 0 {
        written_tys_grows(s, list.drop_last());
        let (s1, done) = written_tys(s, list.drop_last());
        written_ty_grows(s1, list.last());
    }
}

pub broadcast proof fn named_ty_grows(
    s: State,
    t: TypeName,
    shown: Seq<char>,
    args: Seq<ast::Type>,
    span: Span,
)
    ensures
        grew(s, (#[trigger] named_ty(s, t, shown, args, span)).0),
    decreases args, 1nat,
{
    broadcast use {
        grew_reflexive,
        grew_transitive,
        crate::growth::instances::explicit_enum_instance_grows,
        crate::growth::instances::explicit_struct_instance_grows,
        crate::growth::instances::template_arity_grows,
        crate::growth::state::push_grows,
    };

    match t {
        TypeName::Builtin(scalar) => {},
        TypeName::Reactor(id) => {},
        TypeName::Struct(id) => {
            if args.len() > 0 {
                written_tys_grows(s, args);
            }
        },
        TypeName::Enum(id) => {
            if args.len() > 0 {
                written_tys_grows(s, args);
            }
        },
    }
}

pub broadcast proof fn resolve_all_grows(s: State, list: Seq<ast::Type>)
    ensures
        grew(s, (#[trigger] resolve_all(s, list)).0),
{
    broadcast use {grew_reflexive, grew_transitive, written_tys_grows};

    reveal(resolve_all);
}

pub broadcast proof fn resolve_ns_trait_grows(s: State, path: ast::Path, target: usize)
    ensures
        grew(s, (#[trigger] resolve_ns_trait(s, path, target)).0),
{
    broadcast use {grew_reflexive, grew_transitive, crate::growth::state::push_grows};

    reveal(resolve_ns_trait);
}

pub broadcast proof fn written_param_ty_grows(s: State, ty: ast::Type)
    ensures
        grew(s, (#[trigger] written_param_ty(s, ty)).0),
    decreases ty,
{
    broadcast use {
        grew_reflexive,
        grew_transitive,
        written_ty_grows,
        crate::growth::state::push_grows,
    };

    match ty.kind {
        ast::TypeKind::Ref { mutable, inner } => {
            if !(mutable) {
                written_param_ty_grows(s, *inner);
            }
        },
        _ => {},
    }
}

pub broadcast proof fn resolve_param_ty_grows(s: State, ty: ast::Type)
    ensures
        grew(s, (#[trigger] resolve_param_ty(s, ty)).0),
{
    broadcast use {grew_reflexive, grew_transitive, written_param_ty_grows};

    reveal(resolve_param_ty);
}

pub broadcast proof fn resolve_trait_grows(s: State, path: ast::Path)
    ensures
        grew(s, (#[trigger] resolve_trait(s, path)).0),
{
    broadcast use {
        grew_reflexive,
        grew_transitive,
        resolve_ns_trait_grows,
        crate::growth::state::push_grows,
    };

    reveal(resolve_trait);
}

pub broadcast proof fn resolve_ty_grows(s: State, ty: ast::Type)
    ensures
        grew(s, (#[trigger] resolve_ty(s, ty)).0),
{
    broadcast use {grew_reflexive, grew_transitive, written_ty_grows};

    reveal(resolve_ty);
}

} // verus!
