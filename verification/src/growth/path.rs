//! Each step of `path.rs` keeps what was there.

use vstd::prelude::*;
use crate::ast;
use crate::model;
use crate::growth::{grew, grew_reflexive, grew_transitive};
use crate::hir::{EnumId, ReactorId};
use crate::path::{
    bare_builtin, check_far_path, check_ns_path, check_outer_path, check_path, check_variant_path,
    field_access, handle_member, project, unit_variant,
};
use crate::span::Span;
use crate::state::State;

verus! {

pub broadcast proof fn bare_builtin_grows(
    s: State,
    option: bool,
    name: Seq<char>,
    expected: Option<model::Ty>,
    span: Span,
)
    ensures
        grew(s, (#[trigger] bare_builtin(s, option, name, expected, span)).0),
{
    broadcast use {
        grew_reflexive,
        grew_transitive,
        crate::growth::plan::plan_option_grows,
        crate::growth::plan::plan_result_grows,
        crate::growth::plan::without_arguments_grows,
    };

    reveal(bare_builtin);
}

pub broadcast proof fn handle_member_grows(
    s: State,
    base: model::Expr,
    id: ReactorId,
    name: ast::Ident,
    span: Span,
)
    ensures
        grew(s, (#[trigger] handle_member(s, base, id, name, span)).0),
{
    broadcast use {grew_reflexive, grew_transitive, crate::growth::state::push_grows};

    reveal(handle_member);
}

pub broadcast proof fn field_access_grows(s: State, base: model::Expr, name: ast::Ident, span: Span)
    ensures
        grew(s, (#[trigger] field_access(s, base, name, span)).0),
{
    broadcast use {
        grew_reflexive,
        grew_transitive,
        handle_member_grows,
        crate::growth::state::push_grows,
    };

    reveal(field_access);
}

pub broadcast proof fn project_grows(s: State, e: model::Expr, head: Span, rest: Seq<ast::Ident>)
    ensures
        grew(s, (#[trigger] project(s, e, head, rest)).0),
    decreases rest.len(),
{
    broadcast use {grew_reflexive, grew_transitive, field_access_grows};

    if rest.len() > 0 {
        project_grows(s, e, head, rest.drop_last());
    }
}

pub broadcast proof fn unit_variant_grows(
    s: State,
    id: EnumId,
    index: int,
    path: ast::Path,
    first: int,
    expected: Option<model::Ty>,
    span: Span,
)
    ensures
        grew(s, (#[trigger] unit_variant(s, id, index, path, first, expected, span)).0),
{
    broadcast use {
        grew_reflexive,
        grew_transitive,
        project_grows,
        crate::growth::plan::plan_variant_grows,
        crate::growth::plan::without_arguments_grows,
        crate::growth::state::push_grows,
    };

    reveal(unit_variant);
}

pub broadcast proof fn check_variant_path_grows(
    s: State,
    id: EnumId,
    path: ast::Path,
    first: int,
    expected: Option<model::Ty>,
    span: Span,
)
    ensures
        grew(s, (#[trigger] check_variant_path(s, id, path, first, expected, span)).0),
{
    broadcast use {
        grew_reflexive,
        grew_transitive,
        bare_builtin_grows,
        unit_variant_grows,
        crate::growth::state::push_grows,
    };

    reveal(check_variant_path);
}

pub broadcast proof fn check_ns_path_grows(
    s: State,
    path: ast::Path,
    expected: Option<model::Ty>,
    span: Span,
)
    ensures
        grew(s, (#[trigger] check_ns_path(s, path, expected, span)).0),
{
    broadcast use {
        grew_reflexive,
        grew_transitive,
        check_variant_path_grows,
        crate::growth::resolve::resolve_ns_grows,
        crate::growth::state::push_grows,
    };

    reveal(check_ns_path);
}

pub broadcast proof fn check_outer_path_grows(
    s: State,
    path: ast::Path,
    expected: Option<model::Ty>,
)
    ensures
        grew(s, (#[trigger] check_outer_path(s, path, expected)).0),
{
    broadcast use {
        grew_reflexive,
        grew_transitive,
        check_ns_path_grows,
        crate::growth::state::push_grows,
    };

    reveal(check_outer_path);
}

pub broadcast proof fn check_far_path_grows(s: State, path: ast::Path, expected: Option<model::Ty>)
    ensures
        grew(s, (#[trigger] check_far_path(s, path, expected)).0),
{
    broadcast use {
        grew_reflexive,
        grew_transitive,
        check_outer_path_grows,
        check_variant_path_grows,
        crate::growth::state::push_grows,
    };

    reveal(check_far_path);
}

pub broadcast proof fn check_path_grows(s: State, path: ast::Path, expected: Option<model::Ty>)
    ensures
        grew(s, (#[trigger] check_path(s, path, expected)).0),
{
    broadcast use {
        grew_reflexive,
        grew_transitive,
        bare_builtin_grows,
        check_far_path_grows,
        project_grows,
    };

    reveal(check_path);
}

} // verus!
