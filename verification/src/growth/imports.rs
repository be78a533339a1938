//! Each step of `imports.rs` keeps what was there.

use vstd::prelude::*;
use crate::ast;
use crate::growth::{grew, grew_reflexive, grew_transitive, widened};
use crate::hir::FnId;
use crate::imports::{
    bind_each, bind_fn_imports, bind_fns, bind_import, bind_imports, bind_item, bind_items,
    bind_kind, bind_namespace, bind_type, check_specifiers, collect_decls, import_files,
};
use crate::span::Span;
use crate::state::{DeclKind, State, TypeName};

verus! {

pub broadcast proof fn with_decls_grows(s: State, m: Map<Seq<char>, (DeclKind, bool)>)
    ensures
        grew(s, (#[trigger] s.with_decls(m))),
{
    reveal(State::with_decls);
    reveal(grew);
    reveal(widened);
}

pub broadcast proof fn with_targets_grows(s: State, list: Seq<Option<usize>>)
    ensures
        grew(s, (#[trigger] s.with_targets(list))),
{
    reveal(State::with_targets);
    reveal(grew);
    reveal(widened);
}

pub broadcast proof fn pending_grows(s: State, local: Seq<char>, target: usize, source: Seq<char>)
    ensures
        grew(s, (#[trigger] s.pending(local, target, source))),
{
    reveal(State::pending);
    reveal(grew);
    reveal(widened);
}

pub broadcast proof fn nothing_pending_grows(s: State)
    ensures
        grew(s, (#[trigger] s.nothing_pending())),
{
    reveal(State::nothing_pending);
    reveal(grew);
    reveal(widened);
}

pub broadcast proof fn naming_fn_in_grows(s: State, module: usize, name: Seq<char>, id: FnId)
    ensures
        grew(s, (#[trigger] s.naming_fn_in(module, name, id))),
{
    reveal(State::naming_fn_in);
    reveal(grew);
    reveal(widened);
}

pub broadcast proof fn bind_type_grows(s: State, local: Seq<char>, t: TypeName)
    ensures
        grew(s, (#[trigger] bind_type(s, local, t))),
{
    broadcast use {
        grew_reflexive,
        grew_transitive,
        crate::growth::tables::naming_reactor_grows,
        crate::growth::tables::naming_type_grows,
    };

    reveal(bind_type);
}

pub broadcast proof fn bind_kind_grows(
    s: State,
    kind: DeclKind,
    local: Seq<char>,
    target: usize,
    source: Seq<char>,
)
    ensures
        grew(s, (#[trigger] bind_kind(s, kind, local, target, source))),
{
    broadcast use {
        grew_reflexive,
        grew_transitive,
        bind_type_grows,
        pending_grows,
        crate::growth::tables::naming_trait_grows,
    };

    reveal(bind_kind);
}

pub broadcast proof fn bind_item_grows(
    s: State,
    claimed: Map<Seq<char>, Span>,
    specifier: Seq<char>,
    item: ast::ImportItem,
    target: usize,
)
    ensures
        grew(s, (#[trigger] bind_item(s, claimed, specifier, item, target)).0),
{
    broadcast use {
        grew_reflexive,
        grew_transitive,
        bind_kind_grows,
        crate::growth::state::push_grows,
    };

    reveal(bind_item);
}

pub broadcast proof fn bind_items_grows(
    s: State,
    claimed: Map<Seq<char>, Span>,
    specifier: Seq<char>,
    items: Seq<ast::ImportItem>,
    target: usize,
)
    ensures
        grew(s, (#[trigger] bind_items(s, claimed, specifier, items, target)).0),
    decreases items.len(),
{
    broadcast use {grew_reflexive, grew_transitive, bind_item_grows};

    if items.len() > 0 {
        bind_items_grows(s, claimed, specifier, items.drop_last(), target);
    }
}

pub broadcast proof fn bind_namespace_grows(
    s: State,
    claimed: Map<Seq<char>, Span>,
    name: ast::Ident,
    target: usize,
)
    ensures
        grew(s, (#[trigger] bind_namespace(s, claimed, name, target)).0),
{
    broadcast use {
        grew_reflexive,
        grew_transitive,
        crate::growth::state::push_grows,
        crate::growth::tables::naming_namespace_grows,
    };

    reveal(bind_namespace);
}

pub broadcast proof fn bind_import_grows(
    s: State,
    claimed: Map<Seq<char>, Span>,
    decl: ast::ImportDecl,
    target: usize,
)
    ensures
        grew(s, (#[trigger] bind_import(s, claimed, decl, target)).0),
{
    broadcast use {grew_reflexive, grew_transitive, bind_items_grows, bind_namespace_grows};

    reveal(bind_import);
}

pub broadcast proof fn bind_each_grows(s: State, imports: Seq<ast::ImportDecl>)
    ensures
        grew(s, (#[trigger] bind_each(s, imports)).0),
    decreases imports.len(),
{
    broadcast use {grew_reflexive, grew_transitive, bind_import_grows};

    if imports.len() > 0 {
        bind_each_grows(s, imports.drop_last());
    }
}

pub broadcast proof fn bind_fns_grows(s: State, list: Seq<(usize, Seq<char>, usize, Seq<char>)>)
    ensures
        grew(s, (#[trigger] bind_fns(s, list))),
    decreases list.len(),
{
    broadcast use {grew_reflexive, grew_transitive, naming_fn_in_grows};

    if list.len() > 0 {
        bind_fns_grows(s, list.drop_last());
    }
}

pub broadcast proof fn bind_fn_imports_grows(s: State)
    ensures
        grew(s, (#[trigger] bind_fn_imports(s))),
{
    broadcast use {grew_reflexive, grew_transitive, bind_fns_grows, nothing_pending_grows};

    reveal(bind_fn_imports);
}

pub broadcast proof fn bind_imports_grows(s: State, module: ast::Module)
    ensures
        grew(s, (#[trigger] bind_imports(s, module))),
{
    broadcast use {grew_reflexive, grew_transitive, bind_each_grows};

    reveal(bind_imports);
}

pub broadcast proof fn import_files_grows(s: State, imports: Seq<ast::ImportDecl>)
    ensures
        grew(s, (#[trigger] import_files(s, imports)).0),
    decreases imports.len(),
{
    broadcast use {grew_reflexive, grew_transitive, crate::growth::state::push_grows};

    if imports.len() > 0 {
        import_files_grows(s, imports.drop_last());
    }
}

pub broadcast proof fn check_specifiers_grows(s: State, module: ast::Module)
    ensures
        grew(s, (#[trigger] check_specifiers(s, module))),
{
    broadcast use {grew_reflexive, grew_transitive, import_files_grows, with_targets_grows};

    reveal(check_specifiers);
}

pub broadcast proof fn collect_decls_grows(s: State, module: ast::Module)
    ensures
        grew(s, (#[trigger] collect_decls(s, module))),
{
    broadcast use {grew_reflexive, grew_transitive, with_decls_grows};

    reveal(collect_decls);
}

} // verus!
