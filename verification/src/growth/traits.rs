//! Each step of `traits.rs` keeps what was there.

use vstd::prelude::*;
use crate::ast;
use crate::model;
use crate::growth::{
    grew, grew_impls, grew_impls_transitive, grew_is_wandered, grew_reflexive, grew_transitive,
    homes_stay, registering_keeps, same_pairing, wandered_is_grew_impls, widened,
};
use crate::hir::{FnId, TraitId, EQ};
use crate::reports;
use crate::text::joined;
use crate::state::{method_names, State};
use crate::traits::{
    declare_impl, declare_impl_fn, declare_impl_fns, declare_impls, declare_impls_of, define_member,
    define_members, define_trait, define_traits, define_traits_of, existing_impl, impl_header,
    impl_refused, quoted, receiver_home, unwritten, written_names, Header,
};
use crate::types::fits_itself;

verus! {

pub broadcast proof fn declare_impl_fn_grows(
    s: State,
    h: Header,
    decl: ast::FnDecl,
    done: Seq<(Seq<char>, Option<FnId>)>,
)
    ensures
        grew(s, (#[trigger] declare_impl_fn(s, h, decl, done)).0),
{
    broadcast use {
        grew_reflexive,
        grew_transitive,
        crate::growth::instances::substitute_grows,
        crate::growth::instances::substitute_all_grows,
        crate::growth::instances::with_fn_grows,
        crate::growth::item::resolve_params_grows,
        crate::growth::item::return_ty_grows,
        crate::growth::state::push_grows,
        crate::growth::state::with_self_ty_grows,
    };

    reveal(declare_impl_fn);
}

pub broadcast proof fn declare_impl_fns_grows(s: State, h: Header, fns: Seq<ast::FnDecl>)
    ensures
        grew(s, (#[trigger] declare_impl_fns(s, h, fns)).0),
    decreases fns.len(),
{
    broadcast use {
        grew_reflexive,
        grew_transitive,
        crate::growth::state::push_grows,
        declare_impl_fn_grows,
    };

    if fns.len() > 0 {
        declare_impl_fns_grows(s, h, fns.drop_last());
    }
}

pub broadcast proof fn define_member_grows(
    s: State,
    m: ast::TraitMember,
    done: Seq<model::TraitMethod>,
)
    ensures
        grew(s, (#[trigger] define_member(s, m, done)).0),
{
    broadcast use {
        grew_reflexive,
        grew_transitive,
        crate::growth::item::resolve_params_grows,
        crate::growth::item::return_ty_grows,
        crate::growth::state::push_grows,
        crate::growth::state::with_self_ty_grows,
    };

    reveal(define_member);
}

pub broadcast proof fn define_members_grows(s: State, members: Seq<ast::TraitMember>)
    ensures
        grew(s, (#[trigger] define_members(s, members)).0),
    decreases members.len(),
{
    broadcast use {
        grew_reflexive,
        grew_transitive,
        crate::growth::state::push_grows,
        define_member_grows,
    };

    if members.len() > 0 {
        define_members_grows(s, members.drop_last());
    }
}

pub broadcast proof fn define_trait_grows(s: State, decl: ast::TraitDecl)
    ensures
        grew(s, (#[trigger] define_trait(s, decl))),
{
    broadcast use {
        grew_reflexive,
        grew_transitive,
        crate::growth::state::push_grows,
        crate::growth::tables::with_methods_grows,
        define_members_grows,
    };

    reveal(define_trait);
}

pub broadcast proof fn define_traits_of_grows(s: State, items: Seq<ast::Item>)
    ensures
        grew(s, (#[trigger] define_traits_of(s, items))),
    decreases items.len(),
{
    broadcast use {grew_reflexive, grew_transitive, define_trait_grows};

    if items.len() > 0 {
        define_traits_of_grows(s, items.drop_last());
    }
}

pub broadcast proof fn define_traits_grows(s: State, module: ast::Module)
    ensures
        grew(s, (#[trigger] define_traits(s, module))),
{
    broadcast use {grew_reflexive, grew_transitive, define_traits_of_grows};

    reveal(define_traits);
}

pub broadcast proof fn impl_header_grows(s: State, decl: ast::ImplDecl)
    ensures
        grew(s, (#[trigger] impl_header(s, decl)).0),
{
    broadcast use {
        grew_reflexive,
        grew_transitive,
        crate::growth::resolve::resolve_trait_grows,
        crate::growth::resolve::resolve_ty_grows,
        crate::growth::state::push_grows,
    };

    reveal(impl_header);
}

/// A pairing that no impl was found for has none.
proof fn not_found_not_there(
    impls: Seq<model::ImplDef>,
    trait_id: TraitId,
    receiver: model::Ty,
    i: int,
)
    requires
        existing_impl(impls, trait_id, receiver) is None,
        0 <= i < impls.len(),
    ensures
        !(impls[i].trait_id == trait_id && impls[i].receiver == receiver),
    decreases impls.len(),
{
    fits_itself(receiver);
    if i < impls.len() - 1 {
        not_found_not_there(impls.drop_last(), trait_id, receiver, i);
        assert(impls.drop_last()[i] == impls[i]);
    }
}

/// What an impl's header lets through is a new pairing of a trait other than `Eq`, in a file where
/// it may live.
proof fn admitted_is_new_and_at_home(s: State, decl: ast::ImplDecl)
    ensures
        impl_header(s, decl).1 matches Some(h) ==> {
            let s1 = impl_header(s, decl).0;
            &&& existing_impl(s1.impls, h.trait_id, h.receiver) is None
            &&& h.trait_id.0 != EQ
            &&& s1.current == s1.trait_module(h.trait_id) || receiver_home(s1, h.receiver) == Some(
                Some(s1.current),
            )
        },
{
    reveal(impl_header);
    reveal(impl_refused);
}

/// An impl is registered only where it may live, and only once.
pub broadcast proof fn declare_impl_grows(s: State, decl: ast::ImplDecl, index: int)
    ensures
        grew_impls(s, (#[trigger] declare_impl(s, decl, index))),
{
    broadcast use {
        grew_reflexive,
        grew_transitive,
        grew_is_wandered,
        wandered_is_grew_impls,
        grew_impls_transitive,
        crate::growth::state::push_grows,
        declare_impl_fns_grows,
        impl_header_grows,
    };

    reveal(declare_impl);
    let (s1, header) = impl_header(s, decl);
    if let Some(h) = header {
        let (s2, methods) = declare_impl_fns(s1, h, decl.fns@);
        let missing = unwritten(
            method_names(s2.trait_methods(h.trait_id)),
            written_names(methods),
        );
        let s3 = if missing.len() > 0 {
            s2.push(
                reports::incomplete_impl(
                    decl.span,
                    h.trait_name,
                    h.receiver_name,
                    joined(quoted(missing), ", "@),
                ),
            )
        } else {
            s2
        };
        let def = model::ImplDef {
            trait_id: h.trait_id,
            receiver: h.receiver,
            methods,
            module: s3.current,
            item: index as usize,
        };
        assert(grew(s1, s3));
        admitted_is_new_and_at_home(s, decl);
        assert(s1.impls == s3.impls && widened(s1, s3)) by {
            reveal(grew);
        }
        assert forall|i: int| 0 <= i < s3.impls.len() implies !same_pairing(
            #[trigger] s3.impls[i],
            def,
        ) by {
            not_found_not_there(s3.impls, h.trait_id, h.receiver, i);
        }
        homes_stay(s1, s3, def);
        registering_keeps(s3, def);
    }
}

pub broadcast proof fn declare_impls_of_grows(s: State, items: Seq<ast::Item>)
    ensures
        grew_impls(s, (#[trigger] declare_impls_of(s, items))),
    decreases items.len(),
{
    broadcast use {
        grew_reflexive,
        grew_is_wandered,
        wandered_is_grew_impls,
        grew_impls_transitive,
        declare_impl_grows,
    };

    if items.len() == 0 {
        assert(grew(s, s));
    } else {
        declare_impls_of_grows(s, items.drop_last());
    }
}

pub broadcast proof fn declare_impls_grows(s: State, module: ast::Module)
    ensures
        grew_impls(s, (#[trigger] declare_impls(s, module))),
{
    broadcast use declare_impls_of_grows;

    reveal(declare_impls);
}

} // verus!
