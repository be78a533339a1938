//! Each step of `pat.rs` keeps what was there.

use vstd::prelude::*;
use crate::ast;
use crate::model;
use crate::growth::{grew, grew_reflexive, grew_transitive};
use crate::hir::{EnumId, StructId};
use crate::pat::{
    Head, bare_ctor_pat, builtin_head, check_alternatives, check_pat, check_slots, construct_head,
    construct_pair_head, construct_pat, expect_pat_ty, named_slots, pat_slots, pattern, struct_head,
    variant_head,
};
use crate::span::Span;
use crate::state::State;

verus! {

pub broadcast proof fn builtin_head_grows(s: State, name: Seq<char>, ty: model::Ty, span: Span)
    ensures
        grew(s, (#[trigger] builtin_head(s, name, ty, span)).0),
{
    broadcast use {grew_reflexive, grew_transitive, crate::growth::state::push_grows};

    reveal(builtin_head);
}

pub broadcast proof fn named_slots_grows(
    s: State,
    names: Seq<Seq<char>>,
    args: Seq<ast::PatArg>,
    subject: Seq<char>,
)
    ensures
        grew(s, (#[trigger] named_slots(s, names, args, subject)).0),
    decreases args.len(),
{
    broadcast use {grew_reflexive, grew_transitive, crate::growth::state::push_grows};

    if args.len() > 0 {
        named_slots_grows(s, names, args.drop_last(), subject);
    }
}

pub broadcast proof fn pat_slots_grows(
    s: State,
    names: Seq<Seq<char>>,
    args: Seq<ast::PatArg>,
    rest: bool,
    subject: Seq<char>,
    span: Span,
)
    ensures
        grew(s, (#[trigger] pat_slots(s, names, args, rest, subject, span)).0),
{
    broadcast use {
        grew_reflexive,
        grew_transitive,
        named_slots_grows,
        crate::growth::state::push_grows,
    };

    reveal(pat_slots);
}

pub broadcast proof fn bare_ctor_pat_grows(s: State, name: Seq<char>, ty: model::Ty, span: Span)
    ensures
        grew(s, (#[trigger] bare_ctor_pat(s, name, ty, span)).0),
{
    broadcast use {grew_reflexive, grew_transitive, builtin_head_grows, pat_slots_grows};

    reveal(bare_ctor_pat);
}

pub broadcast proof fn expect_pat_ty_grows(
    s: State,
    found: model::Ty,
    expected: model::Ty,
    span: Span,
)
    ensures
        grew(s, (#[trigger] expect_pat_ty(s, found, expected, span))),
{
    broadcast use {grew_reflexive, grew_transitive, crate::growth::state::push_grows};

    reveal(expect_pat_ty);
}

pub broadcast proof fn struct_head_grows(
    s: State,
    id: StructId,
    display: Seq<char>,
    ty: model::Ty,
    span: Span,
)
    ensures
        grew(s, (#[trigger] struct_head(s, id, display, ty, span)).0),
{
    broadcast use {grew_reflexive, grew_transitive, expect_pat_ty_grows};

    reveal(struct_head);
}

pub broadcast proof fn variant_head_grows(
    s: State,
    id: EnumId,
    display: Seq<char>,
    variant: ast::Ident,
    ty: model::Ty,
    span: Span,
)
    ensures
        grew(s, (#[trigger] variant_head(s, id, display, variant, ty, span)).0),
{
    broadcast use {
        grew_reflexive,
        grew_transitive,
        expect_pat_ty_grows,
        crate::growth::state::push_grows,
    };

    reveal(variant_head);
}

pub broadcast proof fn construct_pair_head_grows(
    s: State,
    path: ast::Path,
    ty: model::Ty,
    span: Span,
)
    ensures
        grew(s, (#[trigger] construct_pair_head(s, path, ty, span)).0),
{
    broadcast use {
        grew_reflexive,
        grew_transitive,
        builtin_head_grows,
        struct_head_grows,
        variant_head_grows,
        crate::growth::resolve::resolve_ns_grows,
        crate::growth::state::push_grows,
    };

    reveal(construct_pair_head);
}

pub broadcast proof fn construct_head_grows(s: State, path: ast::Path, ty: model::Ty, span: Span)
    ensures
        grew(s, (#[trigger] construct_head(s, path, ty, span)).0),
{
    broadcast use {
        grew_reflexive,
        grew_transitive,
        builtin_head_grows,
        construct_pair_head_grows,
        struct_head_grows,
        variant_head_grows,
        crate::growth::resolve::resolve_ns_grows,
        crate::growth::state::push_grows,
    };

    reveal(construct_head);
}

pub broadcast proof fn check_slots_grows(
    s: State,
    slots: Seq<Option<usize>>,
    types: Seq<model::Ty>,
    args: Seq<ast::PatArg>,
    span: Span,
)
    ensures
        grew(s, (#[trigger] check_slots(s, slots, types, args, span)).0),
    decreases args, 1nat, slots.len(),
{
    broadcast use {grew_reflexive, grew_transitive, crate::growth::state::push_grows};

    if slots.len() > 0 {
        check_slots_grows(s, slots.drop_last(), types, args, span);
        let (s1, done) = check_slots(s, slots.drop_last(), types, args, span);
        match slots.last() {
            Some(k) => {
                if k < args.len() && slots.len() <= types.len() {
                    check_pat_grows(s1, args[k as int].pat, types[slots.len() - 1]);
                }
            },
            _ => {},
        }
    }
}

pub broadcast proof fn construct_pat_grows(
    s: State,
    h: Head,
    args: Seq<ast::PatArg>,
    rest: bool,
    span: Span,
)
    ensures
        grew(s, (#[trigger] construct_pat(s, h, args, rest, span)).0),
    decreases args, 2nat, 0nat,
{
    broadcast use {grew_reflexive, grew_transitive, pat_slots_grows};

    let (s1, slots) = pat_slots(s, h.names, args, rest, h.subject, span);
    match slots {
        None => {},
        Some(slots) => {
            check_slots_grows(s1, slots, h.types, args, span);
        },
    }
}

pub broadcast proof fn check_pat_grows(s: State, pat: ast::Pat, ty: model::Ty)
    ensures
        grew(s, (#[trigger] check_pat(s, pat, ty)).0),
    decreases pat, 3nat, 0nat,
{
    broadcast use {
        grew_reflexive,
        grew_transitive,
        crate::growth::binding::declare_local_grows,
        bare_ctor_pat_grows,
        construct_head_grows,
        expect_pat_ty_grows,
        crate::growth::state::push_grows,
    };

    let span = pat.span;
    match pat.kind {
        ast::PatKind::Wild => {},
        ast::PatKind::Binding(name) => {},
        ast::PatKind::Int(v) => {},
        ast::PatKind::Str(v) => {},
        ast::PatKind::Bool(v) => {},
        ast::PatKind::Or(alts) => {
            check_alternatives_grows(s, alts@, ty);
        },
        ast::PatKind::Construct { path, args, rest } => {
            let (s1, head) = construct_head(s, path, ty, span);
            match head {
                None => {},
                Some(h) => {
                    construct_pat_grows(s1, h, args@, rest, span);
                },
            }
        },
    }
}

pub broadcast proof fn check_alternatives_grows(s: State, alts: Seq<ast::Pat>, ty: model::Ty)
    ensures
        grew(s, (#[trigger] check_alternatives(s, alts, ty)).0),
    decreases alts, 1nat, 0nat,
{
    broadcast use {grew_reflexive, grew_transitive, crate::growth::state::push_grows};

    if alts.len() > 0 {
        check_alternatives_grows(s, alts.drop_last(), ty);
        let (s1, done) = check_alternatives(s, alts.drop_last(), ty);
        check_pat_grows(s1, alts.last(), ty);
    }
}

pub broadcast proof fn pattern_grows(s: State, pat: ast::Pat, ty: model::Ty)
    ensures
        grew(s, (#[trigger] pattern(s, pat, ty)).0),
{
    broadcast use {grew_reflexive, grew_transitive, check_pat_grows};

    reveal(pattern);
}

} // verus!
