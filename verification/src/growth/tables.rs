//! Each step of `tables.rs` keeps what was there.

use vstd::prelude::*;
use crate::model;
use crate::growth::{grew, grew_reflexive, grew_transitive, widened};
use crate::hir::{FnId, ReactorId, TraitId};
use crate::state::{Ns, State, TypeName};

verus! {

pub broadcast proof fn with_here_grows(s: State, ns: Ns)
    ensures
        grew(s, (#[trigger] s.with_here(ns))),
{
    reveal(State::with_here);
    reveal(grew);
    reveal(widened);
}

pub broadcast proof fn naming_type_grows(s: State, name: Seq<char>, v: TypeName)
    ensures
        grew(s, (#[trigger] s.naming_type(name, v))),
{
    broadcast use {grew_reflexive, grew_transitive, with_here_grows};

    reveal(State::naming_type);
}

pub broadcast proof fn naming_fn_grows(s: State, name: Seq<char>, v: FnId)
    ensures
        grew(s, (#[trigger] s.naming_fn(name, v))),
{
    broadcast use {grew_reflexive, grew_transitive, with_here_grows};

    reveal(State::naming_fn);
}

pub broadcast proof fn naming_reactor_grows(s: State, name: Seq<char>, v: ReactorId)
    ensures
        grew(s, (#[trigger] s.naming_reactor(name, v))),
{
    broadcast use {grew_reflexive, grew_transitive, with_here_grows};

    reveal(State::naming_reactor);
}

pub broadcast proof fn naming_trait_grows(s: State, name: Seq<char>, v: TraitId)
    ensures
        grew(s, (#[trigger] s.naming_trait(name, v))),
{
    broadcast use {grew_reflexive, grew_transitive, with_here_grows};

    reveal(State::naming_trait);
}

pub broadcast proof fn naming_namespace_grows(s: State, name: Seq<char>, v: usize)
    ensures
        grew(s, (#[trigger] s.naming_namespace(name, v))),
{
    broadcast use {grew_reflexive, grew_transitive, with_here_grows};

    reveal(State::naming_namespace);
}

pub broadcast proof fn with_new_struct_grows(s: State, def: model::StructDef)
    ensures
        grew(s, (#[trigger] s.with_new_struct(def))),
{
    reveal(State::with_new_struct);
    reveal(grew);
    reveal(widened);
}

pub broadcast proof fn with_new_enum_grows(s: State, def: model::EnumDef)
    ensures
        grew(s, (#[trigger] s.with_new_enum(def))),
{
    reveal(State::with_new_enum);
    reveal(grew);
    reveal(widened);
}

pub broadcast proof fn with_new_reactor_grows(s: State, def: model::ReactorDef)
    ensures
        grew(s, (#[trigger] s.with_new_reactor(def))),
{
    reveal(State::with_new_reactor);
    reveal(grew);
    reveal(widened);
}

pub broadcast proof fn with_trait_grows(s: State, def: model::TraitDef)
    ensures
        grew(s, (#[trigger] s.with_trait(def))),
{
    reveal(State::with_trait);
    reveal(grew);
    reveal(widened);
}

pub broadcast proof fn with_methods_grows(s: State, id: TraitId, methods: Seq<model::TraitMethod>)
    ensures
        grew(s, (#[trigger] s.with_methods(id, methods))),
{
    reveal(State::with_methods);
    reveal(grew);
    reveal(widened);
}

pub broadcast proof fn with_main_grows(s: State, id: FnId)
    ensures
        grew(s, (#[trigger] s.with_main(id))),
{
    reveal(State::with_main);
    reveal(grew);
    reveal(widened);
}

pub broadcast proof fn with_fn_of_item_grows(s: State, list: Seq<Option<FnId>>)
    ensures
        grew(s, (#[trigger] s.with_fn_of_item(list))),
{
    reveal(State::with_fn_of_item);
    reveal(grew);
    reveal(widened);
}

pub broadcast proof fn with_body_grows(s: State, id: FnId, body: model::Expr)
    ensures
        grew(s, (#[trigger] s.with_body(id, body))),
{
    reveal(State::with_body);
    reveal(grew);
    reveal(widened);
}

pub broadcast proof fn fresh_grows(s: State)
    ensures
        grew(s, (#[trigger] s.fresh())),
{
    reveal(State::fresh);
    reveal(grew);
    reveal(widened);
}

} // verus!
