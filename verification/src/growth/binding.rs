//! Each step of `binding.rs` keeps what was there.

use vstd::prelude::*;
use crate::model;
use crate::binding::{
    borrowed_arguments, declare_local, declare_role, expect, missing_authority,
    no_borrowed_arguments, require_task_authority, require_task_context,
};
use crate::growth::{grew, grew_reflexive, grew_transitive};
use crate::hir::{Capability, LocalRole};
use crate::span::Span;
use crate::state::State;

verus! {

pub broadcast proof fn borrowed_arguments_grows(
    s: State,
    args: Seq<model::Expr>,
    what: Seq<char>,
    when: Seq<char>,
)
    ensures
        grew(s, (#[trigger] borrowed_arguments(s, args, what, when))),
    decreases args.len(),
{
    broadcast use {grew_reflexive, grew_transitive, crate::growth::state::push_grows};

    if args.len() > 0 {
        borrowed_arguments_grows(s, args.drop_last(), what, when);
    }
}

pub broadcast proof fn declare_role_grows(
    s: State,
    name: Seq<char>,
    ty: model::Ty,
    mutable: bool,
    role: LocalRole,
    span: Span,
)
    ensures
        grew(s, (#[trigger] declare_role(s, name, ty, mutable, role, span)).0),
{
    broadcast use {
        grew_reflexive,
        grew_transitive,
        crate::growth::state::bound_grows,
        crate::growth::state::push_grows,
    };

    reveal(declare_role);
}

pub broadcast proof fn declare_local_grows(
    s: State,
    name: Seq<char>,
    ty: model::Ty,
    mutable: bool,
    span: Span,
)
    ensures
        grew(s, (#[trigger] declare_local(s, name, ty, mutable, span)).0),
{
    broadcast use {
        grew_reflexive,
        grew_transitive,
        declare_role_grows,
        crate::growth::state::push_grows,
    };

    reveal(declare_local);
}

pub broadcast proof fn expect_grows(
    s: State,
    found: model::Expr,
    expected: Option<model::Ty>,
    span: Span,
)
    ensures
        grew(s, (#[trigger] expect(s, found, expected, span)).0),
{
    broadcast use {grew_reflexive, grew_transitive, crate::growth::state::push_grows};

    reveal(expect);
}

pub broadcast proof fn missing_authority_grows(
    s: State,
    what: Seq<char>,
    needs: Seq<Capability>,
    span: Span,
)
    ensures
        grew(s, (#[trigger] missing_authority(s, what, needs, span)).0),
    decreases needs.len(),
{
    broadcast use {grew_reflexive, grew_transitive, crate::growth::state::push_grows};

    if needs.len() > 0 {
        missing_authority_grows(s, what, needs.drop_last(), span);
    }
}

pub broadcast proof fn no_borrowed_arguments_grows(
    s: State,
    task: model::Expr,
    what: Seq<char>,
    when: Seq<char>,
)
    ensures
        grew(s, (#[trigger] no_borrowed_arguments(s, task, what, when))),
{
    broadcast use {grew_reflexive, grew_transitive, borrowed_arguments_grows};

    reveal(no_borrowed_arguments);
}

pub broadcast proof fn require_task_context_grows(s: State, what: Seq<char>, span: Span)
    ensures
        grew(s, (#[trigger] require_task_context(s, what, span)).0),
{
    broadcast use {grew_reflexive, grew_transitive, crate::growth::state::push_grows};

    reveal(require_task_context);
}

pub broadcast proof fn require_task_authority_grows(
    s: State,
    what: Seq<char>,
    needs: Seq<Capability>,
    span: Span,
)
    ensures
        grew(s, (#[trigger] require_task_authority(s, what, needs, span)).0),
{
    broadcast use {
        grew_reflexive,
        grew_transitive,
        missing_authority_grows,
        require_task_context_grows,
    };

    reveal(require_task_authority);
}

} // verus!
