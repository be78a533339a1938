//! Each step of `generics.rs` keeps what was there.

use vstd::prelude::*;
use crate::model;
use crate::generics::{
    INSTANCE_CEILING, INSTANCE_DEPTH, arguments, below, fill_enum, fill_struct, instantiate_enum,
    instantiate_struct, param_identity, room, subst, subst_all, subst_enum, subst_fields,
    subst_struct, subst_variants,
};
use crate::growth::{
    grew, grew_is_wandered, grew_reflexive, grew_transitive, wandered_back, wandered_transitive,
    widened, widened_transitive, with_current_wanders,
};
use crate::hir::{EnumId, StructId};
use crate::span::Span;
use crate::state::{Fill, State};

verus! {

pub broadcast proof fn over_the_ceiling_grows(s: State, r: crate::span::Report)
    ensures
        grew(s, (#[trigger] s.over_the_ceiling(r))),
{
    broadcast use {
        grew_reflexive,
        grew_transitive,
        crate::growth::state::push_grows,
        crate::growth::state::with_cap_reported_grows,
    };

    reveal(State::over_the_ceiling);
}

/// One more instance, and nothing else.
pub proof fn with_struct_instance_widens(
    s: State,
    template: StructId,
    args: Seq<model::Ty>,
    at: Span,
)
    ensures
        widened(s, s.with_struct_instance(template, args, at)),
        s.with_struct_instance(template, args, at).impls == s.impls,
        s.with_struct_instance(template, args, at).current == s.current,
        s.bounded() && s.made() < INSTANCE_CEILING ==> s.with_struct_instance(
            template,
            args,
            at,
        ).bounded(),
{
    reveal(State::with_struct_instance);
    reveal(State::made);
    reveal(widened);
}

/// One more instance, and nothing else.
pub proof fn with_enum_instance_widens(
    s: State,
    template: EnumId,
    args: Seq<model::Ty>,
    at: Span,
)
    ensures
        widened(s, s.with_enum_instance(template, args, at)),
        s.with_enum_instance(template, args, at).impls == s.impls,
        s.with_enum_instance(template, args, at).current == s.current,
        s.bounded() && s.made() < INSTANCE_CEILING ==> s.with_enum_instance(
            template,
            args,
            at,
        ).bounded(),
{
    reveal(State::with_enum_instance);
    reveal(State::made);
    reveal(widened);
}

pub broadcast proof fn with_struct_fields_grows(
    s: State,
    id: StructId,
    fields: Seq<model::FieldDef>,
)
    ensures
        grew(s, (#[trigger] s.with_struct_fields(id, fields))),
{
    reveal(State::with_struct_fields);
    reveal(grew);
    reveal(widened);
}

pub broadcast proof fn with_variants_grows(s: State, id: EnumId, variants: Seq<model::VariantDef>)
    ensures
        grew(s, (#[trigger] s.with_variants(id, variants))),
{
    reveal(State::with_variants);
    reveal(grew);
    reveal(widened);
}

/// One more instance to fill.
pub proof fn with_fill_widens(s: State, f: Fill)
    ensures
        widened(s, s.with_fill(f)),
        s.with_fill(f).impls == s.impls,
        s.with_fill(f).current == s.current,
        s.bounded() && s.fill_queue.len() < s.struct_instances.len() + s.enum_instances.len()
            ==> s.with_fill(f).bounded(),
{
    reveal(State::with_fill);
    reveal(widened);
}

pub broadcast proof fn fill_struct_grows(s: State, index: usize, depth: usize)
    ensures
        grew(s, (#[trigger] fill_struct(s, index, depth))),
    decreases 2 * room(below(depth)) + 1, 0int,
{
    broadcast use {
        grew_reflexive,
        grew_transitive,
        grew_is_wandered,
        wandered_back,
        wandered_transitive,
        with_current_wanders,
        with_struct_fields_grows,
    };

    if index < s.struct_instances.len() {
        let i = s.struct_instances[index as int];
        subst_fields_grows(
            s.with_current(i.module),
            s.struct_fields(i.template),
            i.args,
            i.at,
            below(depth),
            s.made(),
        );
    }
}

/// What an instance does to the state, once it is known to be new and within the limits.
proof fn new_struct_grows(
    s: State,
    template: StructId,
    args: Seq<model::Ty>,
    at: Span,
    depth: usize,
)
    requires
        s.made() < INSTANCE_CEILING,
        depth <= INSTANCE_DEPTH,
    ensures
        ({
            let index = s.struct_instances.len() as usize;
            let s1 = s.with_struct_instance(template, args, at);
            &&& grew(s, s1)
            &&& grew(s, s1.with_fill(Fill::Struct(index, depth)))
        }),
{
    let index = s.struct_instances.len() as usize;
    let f = Fill::Struct(index, depth);
    let s1 = s.with_struct_instance(template, args, at);
    with_struct_instance_widens(s, template, args, at);
    with_fill_widens(s1, f);
    widened_transitive(s, s1, s1.with_fill(f));
    reveal(grew);
    reveal(State::with_struct_instance);
    reveal(State::with_fill);
    reveal(State::made);
}

pub broadcast proof fn instantiate_struct_grows(
    s: State,
    template: StructId,
    args: Seq<model::Ty>,
    at: Span,
    depth: usize,
)
    ensures
        grew(s, (#[trigger] instantiate_struct(s, template, args, at, depth)).0),
    decreases 2 * room(depth), 0int,
{
    broadcast use {
        grew_reflexive,
        grew_transitive,
        over_the_ceiling_grows,
        crate::growth::state::push_grows,
    };

    if args != param_identity(s.struct_params(template)) {
        match s.struct_made(template, args) {
            Some(i) => {},
            None => {
                if depth <= INSTANCE_DEPTH && s.made() < INSTANCE_CEILING {
                    new_struct_grows(s, template, args, at, depth);
                    if !s.defining_types {
                        fill_struct_grows(
                            s.with_struct_instance(template, args, at),
                            s.struct_instances.len() as usize,
                            depth,
                        );
                    }
                }
            },
        }
    }
}

pub broadcast proof fn subst_struct_grows(
    s: State,
    id: StructId,
    args: Seq<model::Ty>,
    at: Span,
    depth: usize,
    bound: usize,
)
    ensures
        grew(s, (#[trigger] subst_struct(s, id, args, at, depth, bound)).0),
    decreases 2 * room(depth), 2 * bound + 1,
{
    broadcast use {grew_reflexive, grew_transitive};

    match s.struct_instance(id) {
        Some(i) => {
            if i.serial < bound {
                subst_all_grows(s, i.args, args, at, depth, i.serial);
                let (s1, new_args) = subst_all(s, i.args, args, at, depth, i.serial);
                instantiate_struct_grows(s1, i.template, new_args, at, depth);
            }
        },
        None => {
            if !(s.struct_params(id).len() == 0) {
                instantiate_struct_grows(
                    s,
                    id,
                    arguments(args, s.struct_params(id).len()),
                    at,
                    depth,
                );
            }
        },
    }
}

pub broadcast proof fn subst_all_grows(
    s: State,
    list: Seq<model::Ty>,
    args: Seq<model::Ty>,
    at: Span,
    depth: usize,
    bound: usize,
)
    ensures
        grew(s, (#[trigger] subst_all(s, list, args, at, depth, bound)).0),
    decreases 2 * room(depth), 2 * bound + 2, list,
{
    broadcast use {grew_reflexive, grew_transitive, crate::growth::state::push_grows};

    if list.len() > 0 {
        subst_all_grows(s, list.drop_last(), args, at, depth, bound);
        let (s1, done) = subst_all(s, list.drop_last(), args, at, depth, bound);
        subst_grows(s1, list.last(), args, at, depth, bound);
    }
}

/// What an instance does to the state, once it is known to be new and within the limits.
proof fn new_enum_grows(s: State, template: EnumId, args: Seq<model::Ty>, at: Span, depth: usize)
    requires
        s.made() < INSTANCE_CEILING,
        depth <= INSTANCE_DEPTH,
    ensures
        ({
            let index = s.enum_instances.len() as usize;
            let s1 = s.with_enum_instance(template, args, at);
            &&& grew(s, s1)
            &&& grew(s, s1.with_fill(Fill::Enum(index, depth)))
        }),
{
    let index = s.enum_instances.len() as usize;
    let f = Fill::Enum(index, depth);
    let s1 = s.with_enum_instance(template, args, at);
    with_enum_instance_widens(s, template, args, at);
    with_fill_widens(s1, f);
    widened_transitive(s, s1, s1.with_fill(f));
    reveal(grew);
    reveal(State::with_enum_instance);
    reveal(State::with_fill);
    reveal(State::made);
}

pub broadcast proof fn instantiate_enum_grows(
    s: State,
    template: EnumId,
    args: Seq<model::Ty>,
    at: Span,
    depth: usize,
)
    ensures
        grew(s, (#[trigger] instantiate_enum(s, template, args, at, depth)).0),
    decreases 2 * room(depth), 0int,
{
    broadcast use {
        grew_reflexive,
        grew_transitive,
        over_the_ceiling_grows,
        crate::growth::state::push_grows,
    };

    if args != param_identity(s.enum_params(template)) {
        match s.enum_made(template, args) {
            Some(i) => {},
            None => {
                if depth <= INSTANCE_DEPTH && s.made() < INSTANCE_CEILING {
                    new_enum_grows(s, template, args, at, depth);
                    if !s.defining_types {
                        fill_enum_grows(
                            s.with_enum_instance(template, args, at),
                            s.enum_instances.len() as usize,
                            depth,
                        );
                    }
                }
            },
        }
    }
}

pub broadcast proof fn subst_enum_grows(
    s: State,
    id: EnumId,
    args: Seq<model::Ty>,
    at: Span,
    depth: usize,
    bound: usize,
)
    ensures
        grew(s, (#[trigger] subst_enum(s, id, args, at, depth, bound)).0),
    decreases 2 * room(depth), 2 * bound + 1,
{
    broadcast use {grew_reflexive, grew_transitive};

    match s.enum_instance(id) {
        Some(i) => {
            if i.serial < bound {
                subst_all_grows(s, i.args, args, at, depth, i.serial);
                let (s1, new_args) = subst_all(s, i.args, args, at, depth, i.serial);
                instantiate_enum_grows(s1, i.template, new_args, at, depth);
            }
        },
        None => {
            if !(s.enum_params(id).len() == 0) {
                instantiate_enum_grows(s, id, arguments(args, s.enum_params(id).len()), at, depth);
            }
        },
    }
}

pub broadcast proof fn subst_grows(
    s: State,
    ty: model::Ty,
    args: Seq<model::Ty>,
    at: Span,
    depth: usize,
    bound: usize,
)
    ensures
        grew(s, (#[trigger] subst(s, ty, args, at, depth, bound)).0),
    decreases 2 * room(depth), 2 * bound + 2, ty,
{
    broadcast use {grew_reflexive, grew_transitive};

    match ty {
        model::Ty::Param { index, .. } => {},
        model::Ty::Option(t) => {
            subst_grows(s, *t, args, at, depth, bound);
        },
        model::Ty::Result(t, e) => {
            subst_grows(s, *t, args, at, depth, bound);
            let (s1, t1) = subst(s, *t, args, at, depth, bound);
            subst_grows(s1, *e, args, at, depth, bound);
        },
        model::Ty::Task(t) => {
            subst_grows(s, *t, args, at, depth, bound);
        },
        model::Ty::Shared(t) => {
            subst_grows(s, *t, args, at, depth, bound);
        },
        model::Ty::Slots(t) => {
            subst_grows(s, *t, args, at, depth, bound);
        },
        model::Ty::Input(t) => {
            subst_grows(s, *t, args, at, depth, bound);
        },
        model::Ty::Signal(t) => {
            subst_grows(s, *t, args, at, depth, bound);
        },
        model::Ty::Event(t) => {
            subst_grows(s, *t, args, at, depth, bound);
        },
        model::Ty::Ref(t) => {
            subst_grows(s, *t, args, at, depth, bound);
        },
        model::Ty::Struct(id) => {
            subst_struct_grows(s, id, args, at, depth, bound);
        },
        model::Ty::Enum(id) => {
            subst_enum_grows(s, id, args, at, depth, bound);
        },
        _ => {},
    }
}

pub broadcast proof fn subst_fields_grows(
    s: State,
    list: Seq<model::FieldDef>,
    args: Seq<model::Ty>,
    at: Span,
    depth: usize,
    bound: usize,
)
    ensures
        grew(s, (#[trigger] subst_fields(s, list, args, at, depth, bound)).0),
    decreases 2 * room(depth), 2 * bound + 3, list,
{
    broadcast use {grew_reflexive, grew_transitive, crate::growth::state::push_grows};

    if list.len() > 0 {
        subst_fields_grows(s, list.drop_last(), args, at, depth, bound);
        let (s1, done) = subst_fields(s, list.drop_last(), args, at, depth, bound);
        subst_grows(s1, list.last().ty, args, at, depth, bound);
    }
}

pub broadcast proof fn subst_variants_grows(
    s: State,
    list: Seq<model::VariantDef>,
    args: Seq<model::Ty>,
    at: Span,
    depth: usize,
    bound: usize,
)
    ensures
        grew(s, (#[trigger] subst_variants(s, list, args, at, depth, bound)).0),
    decreases 2 * room(depth), 2 * bound + 4, list,
{
    broadcast use {grew_reflexive, grew_transitive, crate::growth::state::push_grows};

    if list.len() > 0 {
        subst_variants_grows(s, list.drop_last(), args, at, depth, bound);
        let (s1, done) = subst_variants(s, list.drop_last(), args, at, depth, bound);
        subst_fields_grows(s1, list.last().fields, args, at, depth, bound);
    }
}

pub broadcast proof fn fill_enum_grows(s: State, index: usize, depth: usize)
    ensures
        grew(s, (#[trigger] fill_enum(s, index, depth))),
    decreases 2 * room(below(depth)) + 1, 0int,
{
    broadcast use {
        grew_reflexive,
        grew_transitive,
        grew_is_wandered,
        wandered_back,
        wandered_transitive,
        with_current_wanders,
        with_variants_grows,
    };

    if index < s.enum_instances.len() {
        let i = s.enum_instances[index as int];
        subst_variants_grows(
            s.with_current(i.module),
            s.enum_variants(i.template),
            i.args,
            i.at,
            below(depth),
            s.made(),
        );
    }
}

} // verus!
