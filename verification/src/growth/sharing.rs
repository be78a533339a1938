//! Equal arguments share one instance, however often and wherever they are asked for, and every
//! instance that was asked for is made.

use vstd::prelude::*;
use crate::copies::{place_is_first, place_is_unique, place_of};
use crate::generics::{
    enum_keys, fill_enum, fill_struct, instantiate_enum, instantiate_struct, param_identity,
    struct_keys, INSTANCE_CEILING, INSTANCE_DEPTH,
};
use crate::growth::{
    grew, grew_is_wandered, grew_reflexive, grew_transitive, wandered, widened, widened_transitive,
};
use crate::hir::{EnumId, FnId, StructId};
use crate::instances::{fn_keys, new_fn_instance, request_fn_instance};
use crate::model;
use crate::growth::typing::same_fns;
use crate::mono::{fill, fill_from, mono_from, mono_instance};
use crate::span::Span;
use crate::state::{Fill, State};

verus! {

/// What stands first in a list stands first in every list that begins with it.
proof fn first_stays_first<T>(a: Seq<T>, b: Seq<T>, x: T)
    requires
        a.len() <= b.len(),
        forall|i: int| 0 <= i < a.len() ==> a[i] == b[i],
        place_of(a, x) is Some,
    ensures
        place_of(b, x) == place_of(a, x),
{
    place_is_first(a, x);
    place_is_unique(b, x, place_of(a, x)->0);
}

proof fn added_last_is_found<T>(a: Seq<T>, b: Seq<T>, x: T)
    requires
        a.len() < b.len(),
        forall|i: int| 0 <= i < a.len() ==> a[i] == b[i],
        b[a.len() as int] == x,
        place_of(a, x) is None,
    ensures
        place_of(b, x) == Some(a.len() as int),
{
    place_is_first(a, x);
    assert forall|j: int| 0 <= j < a.len() implies b[j] != x by {
        assert(a[j] != x);
    }
    place_is_unique(b, x, a.len() as int);
}

/// The id a struct template has at given arguments, if it has one yet.
#[verifier::opaque]
pub open spec fn known_struct(
    s: State,
    template: StructId,
    args: Seq<model::Ty>,
) -> Option<StructId> {
    if args == param_identity(s.struct_params(template)) {
        Some(template)
    } else {
        s.struct_made(template, args)
    }
}

proof fn known_struct_is_given(
    s: State,
    template: StructId,
    args: Seq<model::Ty>,
    at: Span,
    depth: usize,
)
    requires
        known_struct(s, template, args) is Some,
    ensures
        instantiate_struct(s, template, args, at, depth).0 == s,
        instantiate_struct(s, template, args, at, depth).1 == known_struct(s, template, args),
{
    reveal(known_struct);
}

proof fn known_struct_stays(a: State, b: State, template: StructId, args: Seq<model::Ty>)
    requires
        widened(a, b),
        template.0 < a.program.structs.len(),
        known_struct(a, template, args) is Some,
    ensures
        known_struct(b, template, args) == known_struct(a, template, args),
{
    reveal(known_struct);
    reveal(State::struct_made);
    reveal(widened);
    reveal(State::struct_params);
    assert(b.program.structs[template.0 as int].type_params
        == a.program.structs[template.0 as int].type_params);
    if args != param_identity(a.struct_params(template)) {
        let x = (template, args);
        let old_keys = struct_keys(a.struct_instances);
        let new_keys = struct_keys(b.struct_instances);
        assert forall|j: int| 0 <= j < old_keys.len() implies old_keys[j] == new_keys[j] by {
            assert(a.struct_instances[j] == b.struct_instances[j]);
        }
        first_stays_first(old_keys, new_keys, x);
        place_is_first(old_keys, x);
        let i = place_of(old_keys, x)->0;
        assert(a.struct_instances[i] == b.struct_instances[i]);
    }
}

proof fn new_struct_is_known(s: State, template: StructId, args: Seq<model::Ty>, at: Span)
    requires
        known_struct(s, template, args) is None,
        template.0 < s.program.structs.len(),
    ensures
        known_struct(s.with_struct_instance(template, args, at), template, args) == Some(
            StructId(s.program.structs.len() as u32),
        ),
{
    reveal(known_struct);
    reveal(State::struct_made);
    reveal(State::with_struct_instance);
    reveal(State::struct_params);
    let s1 = s.with_struct_instance(template, args, at);
    let x = (template, args);
    let old_keys = struct_keys(s.struct_instances);
    let new_keys = struct_keys(s1.struct_instances);
    assert(s1.program.structs[template.0 as int] == s.program.structs[template.0 as int]);
    assert(new_keys[old_keys.len() as int] == x);
    added_last_is_found(old_keys, new_keys, x);
}

proof fn filling_struct_widens(s: State, index: usize, depth: usize)
    ensures
        widened(s, fill_struct(s, index, depth)),
{
    crate::growth::generics::fill_struct_grows(s, index, depth);
    reveal(grew);
}

/// What a new instance comes to: where it is put off and where it is filled at once.
#[verifier::rlimit(100)]
proof fn new_struct_is_given(
    s: State,
    template: StructId,
    args: Seq<model::Ty>,
    at: Span,
    depth: usize,
)
    requires
        known_struct(s, template, args) is None,
        instantiate_struct(s, template, args, at, depth).1 is Some,
    ensures
        instantiate_struct(s, template, args, at, depth).1 == Some(
            StructId(s.program.structs.len() as u32),
        ),
        widened(
            s.with_struct_instance(template, args, at),
            instantiate_struct(s, template, args, at, depth).0,
        ),
{
    assert(args != param_identity(s.struct_params(template)) && s.struct_made(
        template,
        args,
    ) is None) by {
        reveal(known_struct);
    }
    let s1 = s.with_struct_instance(template, args, at);
    let index = s.struct_instances.len() as usize;
    let f = Fill::Struct(index, depth);
    crate::growth::generics::with_fill_widens(s1, f);
    filling_struct_widens(s1, index, depth);
}

/// What a struct template is given at some arguments is what it is known as from there on.
pub proof fn struct_is_known_once_given(
    s: State,
    template: StructId,
    args: Seq<model::Ty>,
    at: Span,
    depth: usize,
)
    requires
        template.0 < s.program.structs.len(),
        instantiate_struct(s, template, args, at, depth).1 is Some,
    ensures
        known_struct(instantiate_struct(s, template, args, at, depth).0, template, args)
            == instantiate_struct(s, template, args, at, depth).1,
{
    let s1 = instantiate_struct(s, template, args, at, depth).0;
    if known_struct(s, template, args) is Some {
        known_struct_is_given(s, template, args, at, depth);
    } else {
        let made = s.with_struct_instance(template, args, at);
        new_struct_is_known(s, template, args, at);
        new_struct_is_given(s, template, args, at, depth);
        assert(template.0 < made.program.structs.len()) by {
            reveal(State::with_struct_instance);
        }
        known_struct_stays(made, s1, template, args);
    }
}

/// A struct template at given arguments has one id: asked for again in any later state, it is the
/// one that was made, and nothing changes.
pub proof fn struct_instances_are_shared(
    s: State,
    template: StructId,
    args: Seq<model::Ty>,
    at: Span,
    depth: usize,
    later: State,
    again: Span,
    deeper: usize,
)
    requires
        template.0 < s.program.structs.len(),
        instantiate_struct(s, template, args, at, depth).1 is Some,
        grew(instantiate_struct(s, template, args, at, depth).0, later),
    ensures
        instantiate_struct(later, template, args, again, deeper).0 == later,
        instantiate_struct(later, template, args, again, deeper).1 == instantiate_struct(
            s,
            template,
            args,
            at,
            depth,
        ).1,
{
    let s1 = instantiate_struct(s, template, args, at, depth).0;
    assert(widened(s1, later)) by {
        reveal(grew);
    }
    if known_struct(s, template, args) is Some {
        known_struct_is_given(s, template, args, at, depth);
        known_struct_stays(s, later, template, args);
    } else {
        let made = s.with_struct_instance(template, args, at);
        new_struct_is_known(s, template, args, at);
        new_struct_is_given(s, template, args, at, depth);
        widened_transitive(made, s1, later);
        assert(template.0 < made.program.structs.len()) by {
            reveal(State::with_struct_instance);
        }
        known_struct_stays(made, later, template, args);
    }
    known_struct_is_given(later, template, args, again, deeper);
}

/// The id an enum template has at given arguments, if it has one yet.
#[verifier::opaque]
pub open spec fn known_enum(s: State, template: EnumId, args: Seq<model::Ty>) -> Option<EnumId> {
    if args == param_identity(s.enum_params(template)) {
        Some(template)
    } else {
        s.enum_made(template, args)
    }
}

proof fn known_enum_is_given(
    s: State,
    template: EnumId,
    args: Seq<model::Ty>,
    at: Span,
    depth: usize,
)
    requires
        known_enum(s, template, args) is Some,
    ensures
        instantiate_enum(s, template, args, at, depth).0 == s,
        instantiate_enum(s, template, args, at, depth).1 == known_enum(s, template, args),
{
    reveal(known_enum);
}

proof fn known_enum_stays(a: State, b: State, template: EnumId, args: Seq<model::Ty>)
    requires
        widened(a, b),
        template.0 < a.program.enums.len(),
        known_enum(a, template, args) is Some,
    ensures
        known_enum(b, template, args) == known_enum(a, template, args),
{
    reveal(known_enum);
    reveal(State::enum_made);
    reveal(widened);
    reveal(State::enum_params);
    assert(b.program.enums[template.0 as int].type_params
        == a.program.enums[template.0 as int].type_params);
    if args != param_identity(a.enum_params(template)) {
        let x = (template, args);
        let old_keys = enum_keys(a.enum_instances);
        let new_keys = enum_keys(b.enum_instances);
        assert forall|j: int| 0 <= j < old_keys.len() implies old_keys[j] == new_keys[j] by {
            assert(a.enum_instances[j] == b.enum_instances[j]);
        }
        first_stays_first(old_keys, new_keys, x);
        place_is_first(old_keys, x);
        let i = place_of(old_keys, x)->0;
        assert(a.enum_instances[i] == b.enum_instances[i]);
    }
}

proof fn new_enum_is_known(s: State, template: EnumId, args: Seq<model::Ty>, at: Span)
    requires
        known_enum(s, template, args) is None,
        template.0 < s.program.enums.len(),
    ensures
        known_enum(s.with_enum_instance(template, args, at), template, args) == Some(
            EnumId(s.program.enums.len() as u32),
        ),
{
    reveal(known_enum);
    reveal(State::enum_made);
    reveal(State::with_enum_instance);
    reveal(State::enum_params);
    let s1 = s.with_enum_instance(template, args, at);
    let x = (template, args);
    let old_keys = enum_keys(s.enum_instances);
    let new_keys = enum_keys(s1.enum_instances);
    assert(s1.program.enums[template.0 as int] == s.program.enums[template.0 as int]);
    assert(new_keys[old_keys.len() as int] == x);
    added_last_is_found(old_keys, new_keys, x);
}

proof fn filling_enum_widens(s: State, index: usize, depth: usize)
    ensures
        widened(s, fill_enum(s, index, depth)),
{
    crate::growth::generics::fill_enum_grows(s, index, depth);
    reveal(grew);
}

/// What a new instance comes to: where it is put off and where it is filled at once.
#[verifier::rlimit(100)]
proof fn new_enum_is_given(
    s: State,
    template: EnumId,
    args: Seq<model::Ty>,
    at: Span,
    depth: usize,
)
    requires
        known_enum(s, template, args) is None,
        instantiate_enum(s, template, args, at, depth).1 is Some,
    ensures
        instantiate_enum(s, template, args, at, depth).1 == Some(
            EnumId(s.program.enums.len() as u32),
        ),
        widened(
            s.with_enum_instance(template, args, at),
            instantiate_enum(s, template, args, at, depth).0,
        ),
{
    assert(args != param_identity(s.enum_params(template)) && s.enum_made(
        template,
        args,
    ) is None) by {
        reveal(known_enum);
    }
    let s1 = s.with_enum_instance(template, args, at);
    let index = s.enum_instances.len() as usize;
    let f = Fill::Enum(index, depth);
    crate::growth::generics::with_fill_widens(s1, f);
    filling_enum_widens(s1, index, depth);
}

/// What an enum template is given at some arguments is what it is known as from there on.
pub proof fn enum_is_known_once_given(
    s: State,
    template: EnumId,
    args: Seq<model::Ty>,
    at: Span,
    depth: usize,
)
    requires
        template.0 < s.program.enums.len(),
        instantiate_enum(s, template, args, at, depth).1 is Some,
    ensures
        known_enum(instantiate_enum(s, template, args, at, depth).0, template, args)
            == instantiate_enum(s, template, args, at, depth).1,
{
    let s1 = instantiate_enum(s, template, args, at, depth).0;
    if known_enum(s, template, args) is Some {
        known_enum_is_given(s, template, args, at, depth);
    } else {
        let made = s.with_enum_instance(template, args, at);
        new_enum_is_known(s, template, args, at);
        new_enum_is_given(s, template, args, at, depth);
        assert(template.0 < made.program.enums.len()) by {
            reveal(State::with_enum_instance);
        }
        known_enum_stays(made, s1, template, args);
    }
}

/// The same of an enum template.
pub proof fn enum_instances_are_shared(
    s: State,
    template: EnumId,
    args: Seq<model::Ty>,
    at: Span,
    depth: usize,
    later: State,
    again: Span,
    deeper: usize,
)
    requires
        template.0 < s.program.enums.len(),
        instantiate_enum(s, template, args, at, depth).1 is Some,
        grew(instantiate_enum(s, template, args, at, depth).0, later),
    ensures
        instantiate_enum(later, template, args, again, deeper).0 == later,
        instantiate_enum(later, template, args, again, deeper).1 == instantiate_enum(
            s,
            template,
            args,
            at,
            depth,
        ).1,
{
    let s1 = instantiate_enum(s, template, args, at, depth).0;
    assert(widened(s1, later)) by {
        reveal(grew);
    }
    if known_enum(s, template, args) is Some {
        known_enum_is_given(s, template, args, at, depth);
        known_enum_stays(s, later, template, args);
    } else {
        let made = s.with_enum_instance(template, args, at);
        new_enum_is_known(s, template, args, at);
        new_enum_is_given(s, template, args, at, depth);
        widened_transitive(made, s1, later);
        assert(template.0 < made.program.enums.len()) by {
            reveal(State::with_enum_instance);
        }
        known_enum_stays(made, later, template, args);
    }
    known_enum_is_given(later, template, args, again, deeper);
}

/// Whether a copy of a function is refused: it would go too deep, or there are too many.
pub open spec fn copy_refused(
    s: State,
    template: FnId,
    args: Seq<model::Ty>,
    depth: usize,
) -> bool {
    &&& args != param_identity(s.fn_type_params(template))
    &&& s.fn_made(template, args) is None
    &&& depth > INSTANCE_DEPTH || s.fns_full()
}

/// A generic function at given arguments has one copy: asked for again in any later state, it is
/// the one that was asked for first, and nothing changes.
pub proof fn copies_are_shared(
    s: State,
    template: FnId,
    args: Seq<model::Ty>,
    at: Span,
    depth: usize,
    later: State,
    again: Span,
    deeper: usize,
)
    requires
        template.0 < s.program.fns.len(),
        !copy_refused(s, template, args, depth),
        wandered(request_fn_instance(s, template, args, at, depth).0, later),
    ensures
        request_fn_instance(later, template, args, again, deeper).0 == later,
        request_fn_instance(later, template, args, again, deeper).1 == request_fn_instance(
            s,
            template,
            args,
            at,
            depth,
        ).1,
{
    broadcast use {
        grew_reflexive,
        grew_transitive,
        grew_is_wandered,
        crate::growth::wandered_transitive,
        crate::growth::instances::request_fn_instance_grows,
        crate::growth::instances::substitute_grows,
        crate::growth::instances::substitute_named_grows,
        crate::growth::instances::with_fn_grows,
        crate::growth::typing::substitute_types,
        crate::growth::typing::substitute_named_types,
        crate::growth::typing::with_fn_types,
    };

    let r = request_fn_instance(s, template, args, at, depth);
    assert(wandered(s, later));
    assert(widened(s, later) && widened(r.0, later)) by {
        reveal(wandered);
    }
    reveal(request_fn_instance);
    reveal(State::fn_made);
    reveal(widened);
    reveal(State::fn_type_params);
    assert(later.program.fns[template.0 as int].type_params
        == s.program.fns[template.0 as int].type_params);
    assert(later.fn_type_params(template) == s.fn_type_params(template));
    if args != param_identity(s.fn_type_params(template)) {
        let x = (template, args);
        let old_keys = fn_keys(s.fn_instances);
        let new_keys = fn_keys(later.fn_instances);
        assert forall|j: int| 0 <= j < old_keys.len() implies old_keys[j] == new_keys[j] by {
            assert(s.fn_instances[j] == later.fn_instances[j]);
        }
        match place_of(old_keys, x) {
            Some(i) => {
                first_stays_first(old_keys, new_keys, x);
                place_is_first(old_keys, x);
                assert(s.fn_instances[i] == later.fn_instances[i]);
            },
            None => {
                let n = s.fn_instances.len() as int;
                assert(r.0.fn_instances.len() == n + 1 && r.0.fn_instances[n].template == template
                    && r.0.fn_instances[n].args == args && r.0.fn_instances[n].id == r.1) by {
                    reveal(new_fn_instance);
                    reveal(State::with_fn_instance);
                }
                assert(r.0.fn_instances[n] == later.fn_instances[n]);
                assert(new_keys[n] == x);
                added_last_is_found(old_keys, new_keys, x);
            },
        }
    }
}

impl State {
    /// Every table of functions has `n` rows.
    pub open spec fn fn_rows(self, n: nat) -> bool {
        &&& self.program.fns.len() == n
        &&& self.fn_owner.len() == n
        &&& self.fn_bounds.len() == n
        &&& self.signatures.len() == n
        &&& self.param_modes.len() == n
        &&& self.mode_pinned.len() == n
    }
}

/// A template at its own parameters is itself, and asking for it changes nothing.
pub proof fn identity_is_the_template(s: State, template: FnId, at: Span, depth: usize)
    ensures
        ({
            let args = param_identity(s.fn_type_params(template));
            &&& request_fn_instance(s, template, args, at, depth).0 == s
            &&& request_fn_instance(s, template, args, at, depth).1 == template
        }),
{
    reveal(request_fn_instance);
}

/// Asking for a copy adds one row to every table of functions, or none to any.
pub proof fn asking_adds_one_row_or_none(
    s: State,
    template: FnId,
    args: Seq<model::Ty>,
    at: Span,
    depth: usize,
    n: nat,
)
    requires
        s.fn_rows(n),
    ensures
        ({
            let r = request_fn_instance(s, template, args, at, depth).0;
            same_fns(s, r) || r.fn_rows(n + 1)
        }),
{
    broadcast use {
        crate::growth::typing::push_types,
        crate::growth::typing::over_the_ceiling_types,
        crate::growth::typing::substitute_types,
        crate::growth::typing::substitute_named_types,
    };

    reveal(request_fn_instance);
    reveal(new_fn_instance);
    reveal(State::with_fn);
    reveal(State::with_fn_instance);
}

/// Asking again for the same copy gives the same function and adds no row, whether the copy was made
/// the first time or refused.
pub proof fn asking_again_adds_nothing(
    s: State,
    template: FnId,
    args: Seq<model::Ty>,
    at: Span,
    depth: usize,
)
    requires
        template.0 < s.program.fns.len(),
    ensures
        ({
            let first = request_fn_instance(s, template, args, at, depth);
            let second = request_fn_instance(first.0, template, args, at, depth);
            same_fns(first.0, second.0) && second.1 == first.1
        }),
{
    broadcast use {
        grew_reflexive,
        grew_is_wandered,
        crate::growth::typing::push_types,
        crate::growth::typing::over_the_ceiling_types,
    };

    let first = request_fn_instance(s, template, args, at, depth);
    if copy_refused(s, template, args, depth) {
        reveal(request_fn_instance);
        reveal(State::fn_type_params);
        reveal(State::fn_made);
        reveal(State::fns_full);
    } else {
        assert(grew(first.0, first.0));
        copies_are_shared(s, template, args, at, depth, first.0, at, depth);
    }
}

// ---------------------------------------------------------------- nothing is left undone

/// How far the making of copies gets.
pub open spec fn mono_end(s: State, next: nat) -> nat
    decreases INSTANCE_CEILING - next,
{
    if next >= s.worklist.len() || next >= INSTANCE_CEILING {
        next
    } else {
        mono_end(
            mono_instance(s.with_work_cursor((next + 1) as usize), s.worklist[next as int]),
            next + 1,
        )
    }
}

/// Every copy that was asked for is made, also those that the making itself asks for: the ceiling
/// on instances ends the asking, never the making.
pub proof fn every_copy_is_made(s: State, next: nat)
    requires
        s.bounded(),
    ensures
        mono_end(s, next) >= mono_from(s, next).worklist.len(),
    decreases INSTANCE_CEILING - next,
{
    broadcast use {
        grew_transitive,
        crate::growth::state::with_work_cursor_grows,
        crate::growth::mono::mono_instance_grows,
    };

    if next < s.worklist.len() {
        let after = mono_instance(
            s.with_work_cursor((next + 1) as usize),
            s.worklist[next as int],
        );
        assert(grew(s, after));
        assert(after.bounded()) by {
            reveal(grew);
        }
        every_copy_is_made(after, next + 1);
    }
}

/// How far the filling of types gets.
pub open spec fn fill_end(s: State, next: nat) -> nat
    decreases INSTANCE_CEILING - next,
{
    if next >= s.fill_queue.len() || next >= INSTANCE_CEILING {
        next
    } else {
        fill_end(
            fill(s.with_fill_cursor((next + 1) as usize), s.fill_queue[next as int]),
            next + 1,
        )
    }
}

/// Every type instance that was put off is filled, also those that the filling itself puts off.
pub proof fn every_type_is_filled(s: State, next: nat)
    requires
        s.bounded(),
    ensures
        fill_end(s, next) >= fill_from(s, next).fill_queue.len(),
    decreases INSTANCE_CEILING - next,
{
    broadcast use {
        grew_transitive,
        crate::growth::state::with_fill_cursor_grows,
        crate::growth::mono::fill_grows,
    };

    if next < s.fill_queue.len() {
        let after = fill(s.with_fill_cursor((next + 1) as usize), s.fill_queue[next as int]);
        assert(grew(s, after));
        assert(after.bounded()) by {
            reveal(grew);
        }
        every_type_is_filled(after, next + 1);
    }
}

} // verus!
