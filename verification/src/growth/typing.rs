//! Working with types asks for no copy of a function.

use vstd::prelude::*;
use crate::model;
use crate::generics::{
    INSTANCE_CEILING, INSTANCE_DEPTH, arguments, below, fill_enum, fill_struct, instantiate_enum,
    instantiate_struct, param_identity, room, subst, subst_all, subst_enum, subst_fields,
    subst_struct, subst_variants,
};
use crate::hir::{EnumId, StructId};
use crate::instances::{NewFn, substitute, substitute_named};
use crate::span::{Report, Span};
use crate::state::{Fill, State};

verus! {

/// The rows that functions have in the tables are the same.
pub open spec fn same_fns(a: State, b: State) -> bool {
    &&& a.program.fns == b.program.fns
    &&& a.fn_owner == b.fn_owner
    &&& a.fn_bounds == b.fn_bounds
    &&& a.signatures == b.signatures
    &&& a.param_modes == b.param_modes
    &&& a.mode_pinned == b.mode_pinned
}

/// The same functions have been asked for.
pub open spec fn same_asked(a: State, b: State) -> bool {
    a.fn_instances == b.fn_instances && a.worklist == b.worklist
}

pub open spec fn typed(a: State, b: State) -> bool {
    same_asked(a, b) && same_fns(a, b)
}

pub broadcast proof fn push_types(s: State, r: Report)
    ensures
        typed(s, (#[trigger] s.push(r))),
{
    reveal(State::push);
}

pub broadcast proof fn with_current_types(s: State, v: usize)
    ensures
        typed(s, (#[trigger] s.with_current(v))),
{
    reveal(State::with_current);
}

pub broadcast proof fn with_cap_reported_types(s: State, v: bool)
    ensures
        typed(s, (#[trigger] s.with_cap_reported(v))),
{
    reveal(State::with_cap_reported);
}

pub broadcast proof fn with_struct_instance_types(
    s: State,
    template: StructId,
    args: Seq<model::Ty>,
    at: Span,
)
    ensures
        typed(s, (#[trigger] s.with_struct_instance(template, args, at))),
{
    reveal(State::with_struct_instance);
}

pub broadcast proof fn with_enum_instance_types(
    s: State,
    template: EnumId,
    args: Seq<model::Ty>,
    at: Span,
)
    ensures
        typed(s, (#[trigger] s.with_enum_instance(template, args, at))),
{
    reveal(State::with_enum_instance);
}

pub broadcast proof fn with_struct_fields_types(
    s: State,
    id: StructId,
    fields: Seq<model::FieldDef>,
)
    ensures
        typed(s, (#[trigger] s.with_struct_fields(id, fields))),
{
    reveal(State::with_struct_fields);
}

pub broadcast proof fn with_variants_types(s: State, id: EnumId, variants: Seq<model::VariantDef>)
    ensures
        typed(s, (#[trigger] s.with_variants(id, variants))),
{
    reveal(State::with_variants);
}

pub broadcast proof fn with_fill_types(s: State, f: Fill)
    ensures
        typed(s, (#[trigger] s.with_fill(f))),
{
    reveal(State::with_fill);
}

pub broadcast proof fn with_fn_types(s: State, f: NewFn)
    ensures
        same_asked(s, (#[trigger] s.with_fn(f))),
{
    reveal(State::with_fn);
}

pub broadcast proof fn over_the_ceiling_types(s: State, r: crate::span::Report)
    ensures
        typed(s, (#[trigger] s.over_the_ceiling(r))),
{
    broadcast use {push_types, with_cap_reported_types};

    reveal(State::over_the_ceiling);
}

pub broadcast proof fn fill_struct_types(s: State, index: usize, depth: usize)
    ensures
        typed(s, (#[trigger] fill_struct(s, index, depth))),
    decreases 2 * room(below(depth)) + 1, 0int,
{
    broadcast use {with_current_types, with_struct_fields_types};

    if index < s.struct_instances.len() {
        let i = s.struct_instances[index as int];
        subst_fields_types(
            s.with_current(i.module),
            s.struct_fields(i.template),
            i.args,
            i.at,
            below(depth),
            s.made(),
        );
    }
}

pub broadcast proof fn instantiate_struct_types(
    s: State,
    template: StructId,
    args: Seq<model::Ty>,
    at: Span,
    depth: usize,
)
    ensures
        typed(s, (#[trigger] instantiate_struct(s, template, args, at, depth)).0),
    decreases 2 * room(depth), 0int,
{
    broadcast use {over_the_ceiling_types, push_types, with_fill_types, with_struct_instance_types};

    if !(args == param_identity(s.struct_params(template))) {
        match s.struct_made(template, args) {
            Some(i) => {},
            None => {
                if !(depth > INSTANCE_DEPTH) {
                    if !(s.made() >= INSTANCE_CEILING) {
                        let index = s.struct_instances.len() as usize;
                        let s1 = s.with_struct_instance(template, args, at);
                        if !(s.defining_types) {
                            fill_struct_types(s1, index, depth);
                        }
                    }
                }
            },
        }
    }
}

pub broadcast proof fn subst_struct_types(
    s: State,
    id: StructId,
    args: Seq<model::Ty>,
    at: Span,
    depth: usize,
    bound: usize,
)
    ensures
        typed(s, (#[trigger] subst_struct(s, id, args, at, depth, bound)).0),
    decreases 2 * room(depth), 2 * bound + 1,
{
    match s.struct_instance(id) {
        Some(i) => {
            if i.serial < bound {
                subst_all_types(s, i.args, args, at, depth, i.serial);
                let (s1, new_args) = subst_all(s, i.args, args, at, depth, i.serial);
                instantiate_struct_types(s1, i.template, new_args, at, depth);
            }
        },
        None => {
            if !(s.struct_params(id).len() == 0) {
                instantiate_struct_types(
                    s,
                    id,
                    arguments(args, s.struct_params(id).len()),
                    at,
                    depth,
                );
            }
        },
    }
}

pub broadcast proof fn subst_all_types(
    s: State,
    list: Seq<model::Ty>,
    args: Seq<model::Ty>,
    at: Span,
    depth: usize,
    bound: usize,
)
    ensures
        typed(s, (#[trigger] subst_all(s, list, args, at, depth, bound)).0),
    decreases 2 * room(depth), 2 * bound + 2, list,
{
    broadcast use {push_types};

    if list.len() > 0 {
        subst_all_types(s, list.drop_last(), args, at, depth, bound);
        let (s1, done) = subst_all(s, list.drop_last(), args, at, depth, bound);
        subst_types(s1, list.last(), args, at, depth, bound);
    }
}

pub broadcast proof fn instantiate_enum_types(
    s: State,
    template: EnumId,
    args: Seq<model::Ty>,
    at: Span,
    depth: usize,
)
    ensures
        typed(s, (#[trigger] instantiate_enum(s, template, args, at, depth)).0),
    decreases 2 * room(depth), 0int,
{
    broadcast use {over_the_ceiling_types, push_types, with_enum_instance_types, with_fill_types};

    if !(args == param_identity(s.enum_params(template))) {
        match s.enum_made(template, args) {
            Some(i) => {},
            None => {
                if !(depth > INSTANCE_DEPTH) {
                    if !(s.made() >= INSTANCE_CEILING) {
                        let index = s.enum_instances.len() as usize;
                        let s1 = s.with_enum_instance(template, args, at);
                        if !(s.defining_types) {
                            fill_enum_types(s1, index, depth);
                        }
                    }
                }
            },
        }
    }
}

pub broadcast proof fn subst_enum_types(
    s: State,
    id: EnumId,
    args: Seq<model::Ty>,
    at: Span,
    depth: usize,
    bound: usize,
)
    ensures
        typed(s, (#[trigger] subst_enum(s, id, args, at, depth, bound)).0),
    decreases 2 * room(depth), 2 * bound + 1,
{
    match s.enum_instance(id) {
        Some(i) => {
            if i.serial < bound {
                subst_all_types(s, i.args, args, at, depth, i.serial);
                let (s1, new_args) = subst_all(s, i.args, args, at, depth, i.serial);
                instantiate_enum_types(s1, i.template, new_args, at, depth);
            }
        },
        None => {
            if !(s.enum_params(id).len() == 0) {
                instantiate_enum_types(s, id, arguments(args, s.enum_params(id).len()), at, depth);
            }
        },
    }
}

pub broadcast proof fn subst_types(
    s: State,
    ty: model::Ty,
    args: Seq<model::Ty>,
    at: Span,
    depth: usize,
    bound: usize,
)
    ensures
        typed(s, (#[trigger] subst(s, ty, args, at, depth, bound)).0),
    decreases 2 * room(depth), 2 * bound + 2, ty,
{
    match ty {
        model::Ty::Param { index, .. } => {},
        model::Ty::Option(t) => {
            subst_types(s, *t, args, at, depth, bound);
        },
        model::Ty::Result(t, e) => {
            subst_types(s, *t, args, at, depth, bound);
            let (s1, t1) = subst(s, *t, args, at, depth, bound);
            subst_types(s1, *e, args, at, depth, bound);
        },
        model::Ty::Task(t) => {
            subst_types(s, *t, args, at, depth, bound);
        },
        model::Ty::Shared(t) => {
            subst_types(s, *t, args, at, depth, bound);
        },
        model::Ty::Slots(t) => {
            subst_types(s, *t, args, at, depth, bound);
        },
        model::Ty::Input(t) => {
            subst_types(s, *t, args, at, depth, bound);
        },
        model::Ty::Signal(t) => {
            subst_types(s, *t, args, at, depth, bound);
        },
        model::Ty::Event(t) => {
            subst_types(s, *t, args, at, depth, bound);
        },
        model::Ty::Ref(t) => {
            subst_types(s, *t, args, at, depth, bound);
        },
        model::Ty::Struct(id) => {
            subst_struct_types(s, id, args, at, depth, bound);
        },
        model::Ty::Enum(id) => {
            subst_enum_types(s, id, args, at, depth, bound);
        },
        _ => {},
    }
}

pub broadcast proof fn subst_fields_types(
    s: State,
    list: Seq<model::FieldDef>,
    args: Seq<model::Ty>,
    at: Span,
    depth: usize,
    bound: usize,
)
    ensures
        typed(s, (#[trigger] subst_fields(s, list, args, at, depth, bound)).0),
    decreases 2 * room(depth), 2 * bound + 3, list,
{
    broadcast use {push_types};

    if list.len() > 0 {
        subst_fields_types(s, list.drop_last(), args, at, depth, bound);
        let (s1, done) = subst_fields(s, list.drop_last(), args, at, depth, bound);
        subst_types(s1, list.last().ty, args, at, depth, bound);
    }
}

pub broadcast proof fn subst_variants_types(
    s: State,
    list: Seq<model::VariantDef>,
    args: Seq<model::Ty>,
    at: Span,
    depth: usize,
    bound: usize,
)
    ensures
        typed(s, (#[trigger] subst_variants(s, list, args, at, depth, bound)).0),
    decreases 2 * room(depth), 2 * bound + 4, list,
{
    broadcast use {push_types};

    if list.len() > 0 {
        subst_variants_types(s, list.drop_last(), args, at, depth, bound);
        let (s1, done) = subst_variants(s, list.drop_last(), args, at, depth, bound);
        subst_fields_types(s1, list.last().fields, args, at, depth, bound);
    }
}

pub broadcast proof fn fill_enum_types(s: State, index: usize, depth: usize)
    ensures
        typed(s, (#[trigger] fill_enum(s, index, depth))),
    decreases 2 * room(below(depth)) + 1, 0int,
{
    broadcast use {with_current_types, with_variants_types};

    if index < s.enum_instances.len() {
        let i = s.enum_instances[index as int];
        subst_variants_types(
            s.with_current(i.module),
            s.enum_variants(i.template),
            i.args,
            i.at,
            below(depth),
            s.made(),
        );
    }
}

pub broadcast proof fn substitute_types(s: State, ty: model::Ty, args: Seq<model::Ty>, at: Span)
    ensures
        typed(s, (#[trigger] substitute(s, ty, args, at)).0),
{
    broadcast use {subst_types};

    reveal(substitute);
}

pub broadcast proof fn substitute_named_types(
    s: State,
    list: Seq<(Seq<char>, model::Ty)>,
    args: Seq<model::Ty>,
    at: Span,
)
    ensures
        typed(s, (#[trigger] substitute_named(s, list, args, at)).0),
    decreases list.len(),
{
    broadcast use {push_types, substitute_types};

    if list.len() > 0 {
        substitute_named_types(s, list.drop_last(), args, at);
    }
}

} // verus!
