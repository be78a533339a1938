//! Each step of `wiring.rs` keeps what was there.

use vstd::prelude::*;
use crate::ast;
use crate::growth::{grew, grew_reflexive, grew_transitive, widened};
use crate::hir::ReactorId;
use crate::span::Span;
use crate::state::{Sort, State};
use crate::wiring::{
    Wires, acyclic, initial_call, initial_calls, initial_read, initial_reads, scan_each,
    scan_reactor, scan_reactors, signal_read, signal_reads, wire_member, wire_members, wire_signal,
    wire_state,
};

verus! {

pub broadcast proof fn with_wires_grows(s: State, id: ReactorId, w: Wires)
    ensures
        grew(s, (#[trigger] s.with_wires(id, w))),
{
    reveal(State::with_wires);
    reveal(grew);
    reveal(widened);
}

pub broadcast proof fn acyclic_grows(s: State, w: Wires, id: ReactorId)
    ensures
        grew(s, (#[trigger] acyclic(s, w, id)).0),
{
    broadcast use {grew_reflexive, grew_transitive, crate::growth::state::push_grows};

    reveal(acyclic);
}

pub broadcast proof fn initial_call_grows(
    s: State,
    w: Wires,
    m: Map<Seq<char>, Sort>,
    at: (Seq<char>, Span),
)
    ensures
        grew(s, (#[trigger] initial_call(s, w, m, at)).0),
{
    broadcast use {grew_reflexive, grew_transitive, crate::growth::state::push_grows};

    reveal(initial_call);
}

pub broadcast proof fn initial_calls_grows(
    s: State,
    w: Wires,
    m: Map<Seq<char>, Sort>,
    list: Seq<(Seq<char>, Span)>,
)
    ensures
        grew(s, (#[trigger] initial_calls(s, w, m, list)).0),
    decreases list.len(),
{
    broadcast use {grew_reflexive, grew_transitive, initial_call_grows};

    if list.len() > 0 {
        initial_calls_grows(s, w, m, list.drop_last());
    }
}

pub broadcast proof fn initial_read_grows(
    s: State,
    w: Wires,
    id: ReactorId,
    m: Map<Seq<char>, Sort>,
    node: int,
    at: (Seq<char>, Span),
)
    ensures
        grew(s, (#[trigger] initial_read(s, w, id, m, node, at)).0),
{
    broadcast use {grew_reflexive, grew_transitive, crate::growth::state::push_grows};

    reveal(initial_read);
}

pub broadcast proof fn initial_reads_grows(
    s: State,
    w: Wires,
    id: ReactorId,
    m: Map<Seq<char>, Sort>,
    node: int,
    list: Seq<(Seq<char>, Span)>,
)
    ensures
        grew(s, (#[trigger] initial_reads(s, w, id, m, node, list)).0),
    decreases list.len(),
{
    broadcast use {grew_reflexive, grew_transitive, initial_read_grows};

    if list.len() > 0 {
        initial_reads_grows(s, w, id, m, node, list.drop_last());
    }
}

pub broadcast proof fn signal_read_grows(
    s: State,
    w: Wires,
    id: ReactorId,
    m: Map<Seq<char>, Sort>,
    node: int,
    at: (Seq<char>, Span),
)
    ensures
        grew(s, (#[trigger] signal_read(s, w, id, m, node, at)).0),
{
    broadcast use {grew_reflexive, grew_transitive, crate::growth::state::push_grows};

    reveal(signal_read);
}

pub broadcast proof fn signal_reads_grows(
    s: State,
    w: Wires,
    id: ReactorId,
    m: Map<Seq<char>, Sort>,
    node: int,
    list: Seq<(Seq<char>, Span)>,
)
    ensures
        grew(s, (#[trigger] signal_reads(s, w, id, m, node, list)).0),
    decreases list.len(),
{
    broadcast use {grew_reflexive, grew_transitive, signal_read_grows};

    if list.len() > 0 {
        signal_reads_grows(s, w, id, m, node, list.drop_last());
    }
}

pub broadcast proof fn wire_signal_grows(
    s: State,
    w: Wires,
    id: ReactorId,
    m: Map<Seq<char>, Sort>,
    name: Seq<char>,
    body: ast::Expr,
)
    ensures
        grew(s, (#[trigger] wire_signal(s, w, id, m, name, body)).0),
{
    broadcast use {grew_reflexive, grew_transitive, signal_reads_grows};

    reveal(wire_signal);
}

pub broadcast proof fn wire_state_grows(
    s: State,
    w: Wires,
    id: ReactorId,
    m: Map<Seq<char>, Sort>,
    name: Seq<char>,
    init: ast::Expr,
)
    ensures
        grew(s, (#[trigger] wire_state(s, w, id, m, name, init)).0),
{
    broadcast use {grew_reflexive, grew_transitive, initial_calls_grows, initial_reads_grows};

    reveal(wire_state);
}

pub broadcast proof fn wire_member_grows(
    s: State,
    w: Wires,
    id: ReactorId,
    m: Map<Seq<char>, Sort>,
    member: ast::Member,
)
    ensures
        grew(s, (#[trigger] wire_member(s, w, id, m, member)).0),
{
    broadcast use {grew_reflexive, grew_transitive, wire_signal_grows, wire_state_grows};

    reveal(wire_member);
}

pub broadcast proof fn wire_members_grows(
    s: State,
    w: Wires,
    id: ReactorId,
    m: Map<Seq<char>, Sort>,
    members: Seq<ast::Member>,
)
    ensures
        grew(s, (#[trigger] wire_members(s, w, id, m, members)).0),
    decreases members.len(),
{
    broadcast use {grew_reflexive, grew_transitive, wire_member_grows};

    if members.len() > 0 {
        wire_members_grows(s, w, id, m, members.drop_last());
    }
}

pub broadcast proof fn scan_reactor_grows(s: State, id: ReactorId, decl: ast::ReactorDecl)
    ensures
        grew(s, (#[trigger] scan_reactor(s, id, decl)).0),
{
    broadcast use {
        grew_reflexive,
        grew_transitive,
        acyclic_grows,
        wire_members_grows,
        with_wires_grows,
    };

    reveal(scan_reactor);
}

pub broadcast proof fn scan_each_grows(
    s: State,
    items: Seq<ast::Item>,
    ids: Seq<ReactorId>,
    places: Seq<usize>,
)
    ensures
        grew(s, (#[trigger] scan_each(s, items, ids, places)).0),
    decreases ids.len(),
{
    broadcast use {
        grew_reflexive,
        grew_transitive,
        crate::growth::state::push_grows,
        scan_reactor_grows,
    };

    if !(ids.len() == 0 || places.len() == 0) {
        scan_each_grows(s, items, ids.drop_last(), places.drop_last());
    }
}

pub broadcast proof fn scan_reactors_grows(s: State, module: ast::Module)
    ensures
        grew(s, (#[trigger] scan_reactors(s, module)).0),
{
    broadcast use {grew_reflexive, grew_transitive, scan_each_grows};

    reveal(scan_reactors);
}

} // verus!
