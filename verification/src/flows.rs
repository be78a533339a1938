//! What flows into what: the graph of a reactor, said over the names that are free in its bodies.
//!
//! A node depends on exactly what its body reads, a handler writes exactly the cells its body
//! assigns, and the plan of an input holds every node that one of those cells can reach.

use vstd::prelude::*;
use crate::ast;
use crate::graph::{edges, everything, is_path, reaches};
use crate::hir::ReactorId;
use crate::order::{
    plan_is_the_touched_part, plan_of, sorted_is_a_permutation, touched, touched_extends,
};
use crate::reactor::{check_reactor, with_plans};
use crate::scan::{mentioned, mentioned_by_handler, mentions};
use crate::scopes::{
    block_assigns, free_calls, free_reads, mentions_more, message_binds, scans_mention_members,
    handler_scans_mention_members,
};
use crate::span::Span;
use crate::state::{Sort, State};
use crate::table::find;
use crate::wiring::{
    acyclic, called_elsewhere, edge, handler_write, handler_writes, initial_call, initial_calls,
    initial_read, initial_reads, member_namespace, node_ids, ordered, row_with, scan_reactor,
    signal_call, signal_calls, signal_read, signal_reads, wire_handler, wire_member, wire_members,
    wire_signal, wire_state, Wires,
};

verus! {

/// Nothing but what is reported sets two states apart.
pub open spec fn only_reports(a: State, b: State) -> bool {
    b == (State { errors: b.errors, ..a })
}

proof fn same_meaning(a: State, b: State, id: ReactorId, name: Seq<char>)
    requires
        only_reports(a, b),
    ensures
        b.node_place(id, name) == a.node_place(id, name),
        b.input_place(id, name) == a.input_place(id, name),
        b.reactor_nodes(id) == a.reactor_nodes(id),
        called_elsewhere(b, name) == called_elsewhere(a, name),
{
    reveal(State::node_place);
    reveal(State::input_place);
    reveal(State::reactor_nodes);
    reveal(State::reactor_inputs);
    reveal(called_elsewhere);
    reveal(State::fn_named);
    reveal(State::type_named);
    reveal(State::here);
    reveal(State::at);
}

// ---------------------------------------------------------------- rows

/// `x` is the node of a name of the list that counts.
pub open spec fn leads_to(
    s: State,
    id: ReactorId,
    counts: spec_fn(Seq<char>) -> bool,
    list: Seq<(Seq<char>, Span)>,
    x: usize,
) -> bool {
    exists|n: Seq<char>| #[trigger] mentions(list, n) && counts(n) && is_place(s, id, n, x)
}

/// `x` is the node a name names.
pub open spec fn is_place(s: State, id: ReactorId, n: Seq<char>, x: usize) -> bool {
    s.node_place(id, n) is Some && (s.node_place(id, n)->0) as usize == x
}

/// Row `at` gained the nodes of the names that count, and nothing else changed.
#[verifier::opaque]
pub open spec fn gained(
    before: Seq<Seq<usize>>,
    after: Seq<Seq<usize>>,
    at: int,
    s: State,
    id: ReactorId,
    counts: spec_fn(Seq<char>) -> bool,
    list: Seq<(Seq<char>, Span)>,
) -> bool {
    &&& after.len() == before.len()
    &&& forall|i: int, x: usize|
        0 <= i < before.len() ==> (#[trigger] after[i].contains(x) <==> before[i].contains(x) || (i
            == at && leads_to(s, id, counts, list, x)))
}

proof fn row_gains(rows: Seq<Seq<usize>>, at: int, v: usize, i: int, x: usize)
    requires
        0 <= i < rows.len(),
    ensures
        row_with(rows, at, v).len() == rows.len(),
        row_with(rows, at, v)[i].contains(x) <==> rows[i].contains(x) || (i == at && x == v),
{
    if i == at {
        let row = rows[i];
        if !row.contains(v) {
            let more = row.push(v);
            assert(more[row.len() as int] == v);
            if row.contains(x) {
                let k = choose|k: int| 0 <= k < row.len() && row[k] == x;
                assert(more[k] == x);
            }
            if more.contains(x) && x != v {
                let k = choose|k: int| 0 <= k < more.len() && more[k] == x;
                assert(row[k] == x);
            }
        }
    }
}

proof fn gained_nothing(
    rows: Seq<Seq<usize>>,
    at: int,
    s: State,
    id: ReactorId,
    counts: spec_fn(Seq<char>) -> bool,
    list: Seq<(Seq<char>, Span)>,
)
    requires
        list.len() == 0,
    ensures
        gained(rows, rows, at, s, id, counts, list),
{
    reveal(gained);
}

/// One more name on the list: its node is added if it counts.
proof fn gained_one_more(
    before: Seq<Seq<usize>>,
    mid: Seq<Seq<usize>>,
    after: Seq<Seq<usize>>,
    at: int,
    s: State,
    id: ReactorId,
    counts: spec_fn(Seq<char>) -> bool,
    list: Seq<(Seq<char>, Span)>,
)
    requires
        list.len() > 0,
        gained(before, mid, at, s, id, counts, list.drop_last()),
        after == if counts(list.last().0) && s.node_place(id, list.last().0) is Some {
            row_with(mid, at, (s.node_place(id, list.last().0)->0) as usize)
        } else {
            mid
        },
    ensures
        gained(before, after, at, s, id, counts, list),
{
    reveal(gained);
    let init = list.drop_last();
    let n = list.last().0;
    assert(init.push(list.last()) =~= list);
    assert forall|i: int, x: usize| 0 <= i < before.len() implies (#[trigger] after[i].contains(x)
        <==> before[i].contains(x) || (i == at && leads_to(s, id, counts, list, x))) by {
        assert(mid[i].contains(x) <==> before[i].contains(x) || (i == at && leads_to(
            s,
            id,
            counts,
            init,
            x,
        )));
        row_gains(mid, at, (s.node_place(id, n)->0) as usize, i, x);
        assert forall|k: Seq<char>| #[trigger] mentions(
            list,
            k,
        ) <==> mentions(init, k) || k == n by {
            mentions_more(init, list.last(), k);
        }
        if leads_to(s, id, counts, init, x) {
            let k = choose|k: Seq<char>| #[trigger]
                mentions(init, k) && counts(k) && is_place(s, id, k, x);
            assert(mentions(list, k));
        }
        if leads_to(s, id, counts, list, x) {
            let k = choose|k: Seq<char>| #[trigger]
                mentions(list, k) && counts(k) && is_place(s, id, k, x);
            if k != n {
                assert(mentions(init, k));
            }
        }
        assert(mentions(list, n));
    }
    row_gains_length(mid, at, (s.node_place(id, n)->0) as usize);
}

proof fn row_gains_length(rows: Seq<Seq<usize>>, at: int, v: usize)
    ensures
        row_with(rows, at, v).len() == rows.len(),
{
}

/// Some name of the list is one that must not stand there.
pub open spec fn offends(list: Seq<(Seq<char>, Span)>, bad: spec_fn(Seq<char>) -> bool) -> bool {
    exists|n: Seq<char>| #[trigger] mentions(list, n) && bad(n)
}

proof fn offends_more(list: Seq<(Seq<char>, Span)>, bad: spec_fn(Seq<char>) -> bool)
    requires
        list.len() > 0,
    ensures
        offends(list, bad) <==> offends(list.drop_last(), bad) || bad(list.last().0),
{
    let init = list.drop_last();
    assert(init.push(list.last()) =~= list);
    assert forall|k: Seq<char>| #[trigger] mentions(list, k) <==> mentions(init, k) || k
        == list.last().0 by {
        mentions_more(init, list.last(), k);
    }
    assert(mentions(list, list.last().0));
    if offends(init, bad) {
        let k = choose|k: Seq<char>| #[trigger] mentions(init, k) && bad(k);
        assert(mentions(list, k));
    }
    if offends(list, bad) && !bad(list.last().0) {
        let k = choose|k: Seq<char>| #[trigger] mentions(list, k) && bad(k);
        assert(mentions(init, k));
    }
}

// ---------------------------------------------------------------- what counts

/// What a state cell may be initialised from.
pub open spec fn is_param(m: Map<Seq<char>, Sort>) -> spec_fn(Seq<char>) -> bool {
    |n: Seq<char>| find(m, n) == Some(Sort::Param)
}

/// What a state cell may not be initialised from.
pub open spec fn no_param(m: Map<Seq<char>, Sort>) -> spec_fn(Seq<char>) -> bool {
    |n: Seq<char>| find(m, n) is Some && find(m, n) != Some(Sort::Param)
}

/// A member that holds a value.
pub open spec fn is_node(m: Map<Seq<char>, Sort>) -> spec_fn(Seq<char>) -> bool {
    |n: Seq<char>| find(m, n) is Some && find(m, n) != Some(Sort::Input)
}

pub open spec fn is_input(m: Map<Seq<char>, Sort>) -> spec_fn(Seq<char>) -> bool {
    |n: Seq<char>| find(m, n) == Some(Sort::Input)
}

/// A name in call position that means a member.
pub open spec fn called_member(s: State, m: Map<Seq<char>, Sort>) -> spec_fn(Seq<char>) -> bool {
    |n: Seq<char>| find(m, n) is Some && !called_elsewhere(s, n)
}

pub open spec fn called_signal(s: State, m: Map<Seq<char>, Sort>) -> spec_fn(Seq<char>) -> bool {
    |n: Seq<char>| find(m, n) == Some(Sort::Signal) && !called_elsewhere(s, n)
}

pub open spec fn is_cell(m: Map<Seq<char>, Sort>) -> spec_fn(Seq<char>) -> bool {
    |n: Seq<char>| find(m, n) == Some(Sort::State)
}

proof fn initial_reads_flow(
    s0: State,
    s: State,
    w: Wires,
    id: ReactorId,
    m: Map<Seq<char>, Sort>,
    node: int,
    list: Seq<(Seq<char>, Span)>,
)
    requires
        only_reports(s0, s),
    ensures
        ({
            let r = initial_reads(s, w, id, m, node, list);
            &&& only_reports(s0, r.0)
            &&& gained(w.deps, r.1.deps, node, s0, id, is_param(m), list)
            &&& r.1.writes == w.writes
            &&& r.1.order == w.order
            &&& r.1.ok <==> w.ok && !offends(list, no_param(m))
        }),
    decreases list.len(),
{
    if list.len() == 0 {
        gained_nothing(w.deps, node, s0, id, is_param(m), list);
    } else {
        let init = list.drop_last();
        let n = list.last().0;
        initial_reads_flow(s0, s, w, id, m, node, init);
        let b = initial_reads(s, w, id, m, node, init);
        let r = initial_reads(s, w, id, m, node, list);
        same_meaning(s0, b.0, id, n);
        reveal(initial_read);
        reveal(edge);
        reveal(Wires::depends);
        reveal(Wires::assigns);
        reveal(Wires::broken);
        reveal(State::push);
        gained_one_more(
            w.deps,
            b.1.deps,
            r.1.deps,
            node,
            s0,
            id,
            is_param(m),
            list,
        );
        offends_more(list, no_param(m));
    }
}

proof fn initial_calls_flow(
    s0: State,
    s: State,
    w: Wires,
    id: ReactorId,
    m: Map<Seq<char>, Sort>,
    list: Seq<(Seq<char>, Span)>,
)
    requires
        only_reports(s0, s),
    ensures
        ({
            let r = initial_calls(s, w, m, list);
            &&& only_reports(s0, r.0)
            &&& r.1.deps == w.deps
            &&& r.1.writes == w.writes
            &&& r.1.order == w.order
            &&& r.1.ok <==> w.ok && !offends(list, called_member(s0, m))
        }),
    decreases list.len(),
{
    if list.len() == 0 {
    } else {
        let init = list.drop_last();
        let n = list.last().0;
        initial_calls_flow(s0, s, w, id, m, init);
        let b = initial_calls(s, w, m, init);
        let r = initial_calls(s, w, m, list);
        same_meaning(s0, b.0, id, n);
        reveal(initial_call);
        reveal(edge);
        reveal(Wires::depends);
        reveal(Wires::assigns);
        reveal(Wires::broken);
        reveal(State::push);
        offends_more(list, called_member(s0, m));
    }
}

proof fn signal_reads_flow(
    s0: State,
    s: State,
    w: Wires,
    id: ReactorId,
    m: Map<Seq<char>, Sort>,
    node: int,
    list: Seq<(Seq<char>, Span)>,
)
    requires
        only_reports(s0, s),
    ensures
        ({
            let r = signal_reads(s, w, id, m, node, list);
            &&& only_reports(s0, r.0)
            &&& gained(w.deps, r.1.deps, node, s0, id, is_node(m), list)
            &&& r.1.writes == w.writes
            &&& r.1.order == w.order
            &&& r.1.ok <==> w.ok && !offends(list, is_input(m))
        }),
    decreases list.len(),
{
    if list.len() == 0 {
        gained_nothing(w.deps, node, s0, id, is_node(m), list);
    } else {
        let init = list.drop_last();
        let n = list.last().0;
        signal_reads_flow(s0, s, w, id, m, node, init);
        let b = signal_reads(s, w, id, m, node, init);
        let r = signal_reads(s, w, id, m, node, list);
        same_meaning(s0, b.0, id, n);
        reveal(signal_read);
        reveal(edge);
        reveal(Wires::depends);
        reveal(Wires::assigns);
        reveal(Wires::broken);
        reveal(State::push);
        gained_one_more(
            w.deps,
            b.1.deps,
            r.1.deps,
            node,
            s0,
            id,
            is_node(m),
            list,
        );
        offends_more(list, is_input(m));
    }
}

proof fn signal_calls_flow(
    s0: State,
    s: State,
    w: Wires,
    id: ReactorId,
    m: Map<Seq<char>, Sort>,
    node: int,
    list: Seq<(Seq<char>, Span)>,
)
    requires
        only_reports(s0, s),
    ensures
        ({
            let r = signal_calls(s, w, id, m, node, list);
            &&& gained(w.deps, r.deps, node, s0, id, called_signal(s0, m), list)
            &&& r.writes == w.writes
            &&& r.order == w.order
            &&& r.ok == w.ok
        }),
    decreases list.len(),
{
    if list.len() == 0 {
        gained_nothing(w.deps, node, s0, id, called_signal(s0, m), list);
    } else {
        let init = list.drop_last();
        let n = list.last().0;
        signal_calls_flow(s0, s, w, id, m, node, init);
        let b = signal_calls(s, w, id, m, node, init);
        let r = signal_calls(s, w, id, m, node, list);
        same_meaning(s0, s, id, n);
        reveal(signal_call);
        reveal(edge);
        reveal(Wires::depends);
        reveal(Wires::assigns);
        reveal(Wires::broken);
        reveal(State::push);
        gained_one_more(
            w.deps,
            b.deps,
            r.deps,
            node,
            s0,
            id,
            called_signal(s0, m),
            list,
        );
    }
}

proof fn handler_writes_flow(
    s0: State,
    s: State,
    w: Wires,
    id: ReactorId,
    m: Map<Seq<char>, Sort>,
    input: int,
    list: Seq<(Seq<char>, Span)>,
)
    requires
        only_reports(s0, s),
    ensures
        ({
            let r = handler_writes(s, w, id, m, input, list);
            &&& gained(w.writes, r.writes, input, s0, id, is_cell(m), list)
            &&& r.deps == w.deps
            &&& r.order == w.order
            &&& r.ok == w.ok
        }),
    decreases list.len(),
{
    if list.len() == 0 {
        gained_nothing(w.writes, input, s0, id, is_cell(m), list);
    } else {
        let init = list.drop_last();
        let n = list.last().0;
        handler_writes_flow(s0, s, w, id, m, input, init);
        let b = handler_writes(s, w, id, m, input, init);
        let r = handler_writes(s, w, id, m, input, list);
        same_meaning(s0, s, id, n);
        reveal(handler_write);
        reveal(edge);
        reveal(Wires::depends);
        reveal(Wires::assigns);
        reveal(Wires::broken);
        reveal(State::push);
        gained_one_more(
            w.writes,
            b.writes,
            r.writes,
            input,
            s0,
            id,
            is_cell(m),
            list,
        );
    }
}

// ---------------------------------------------------------------- members

/// A declared member makes node `i` depend on node `x`.
pub open spec fn makes_depend(
    s: State,
    id: ReactorId,
    m: Map<Seq<char>, Sort>,
    member: ast::Member,
    i: int,
    x: usize,
) -> bool {
    match member.kind {
        ast::MemberKind::State { name, init, .. } => s.node_place(id, name.name@) == Some(i)
            && exists|n: Seq<char>| #[trigger]
            free_reads(init, n) && find(m, n) == Some(Sort::Param) && is_place(s, id, n, x),
        ast::MemberKind::Signal { name, body, .. } => s.node_place(id, name.name@) == Some(i) && ((
        exists|n: Seq<char>| #[trigger]
            free_reads(body, n) && find(m, n) is Some && find(m, n) != Some(Sort::Input)
                && is_place(s, id, n, x)) || (exists|n: Seq<char>| #[trigger]
            free_calls(body, n) && find(m, n) == Some(Sort::Signal) && !called_elsewhere(s, n)
                && is_place(s, id, n, x))),
        _ => false,
    }
}

/// A declared handler of input `i` assigns cell `x`.
pub open spec fn makes_write(
    s: State,
    id: ReactorId,
    m: Map<Seq<char>, Sort>,
    member: ast::Member,
    i: int,
    x: usize,
) -> bool {
    match member.kind {
        ast::MemberKind::On { input, params, body, .. } => s.input_place(id, input.name@) == Some(i)
            && exists|n: Seq<char>| #[trigger]
            block_assigns(body, n) && !message_binds(params@, n) && find(m, n) == Some(Sort::State)
                && is_place(s, id, n, x),
        _ => false,
    }
}

/// A declared member reads, or calls, what it may not.
pub open spec fn misreads(
    s: State,
    id: ReactorId,
    m: Map<Seq<char>, Sort>,
    member: ast::Member,
) -> bool {
    match member.kind {
        ast::MemberKind::State { name, init, .. } => s.node_place(id, name.name@) is Some && ((
        exists|n: Seq<char>| #[trigger]
            free_reads(init, n) && find(m, n) is Some && find(m, n) != Some(Sort::Param)) || (
        exists|n: Seq<char>| #[trigger]
            free_calls(init, n) && find(m, n) is Some && !called_elsewhere(s, n))),
        ast::MemberKind::Signal { name, body, .. } => s.node_place(id, name.name@) is Some
            && exists|n: Seq<char>| #[trigger]
            free_reads(body, n) && find(m, n) == Some(Sort::Input),
        _ => false,
    }
}

/// One member, wired.
#[verifier::opaque]
pub open spec fn wired(
    s0: State,
    id: ReactorId,
    m: Map<Seq<char>, Sort>,
    member: ast::Member,
    w: Wires,
    r: (State, Wires),
) -> bool {
    &&& only_reports(s0, r.0)
    &&& r.1.deps.len() == w.deps.len()
    &&& r.1.writes.len() == w.writes.len()
    &&& forall|i: int, x: usize|
        0 <= i < w.deps.len() ==> (#[trigger] r.1.deps[i].contains(x) <==> w.deps[i].contains(x)
            || makes_depend(s0, id, m, member, i, x))
    &&& forall|i: int, x: usize|
        0 <= i < w.writes.len() ==> (#[trigger] r.1.writes[i].contains(x) <==> w.writes[i].contains(
            x,
        ) || makes_write(s0, id, m, member, i, x))
    &&& r.1.ok <==> w.ok && !misreads(s0, id, m, member)
}

proof fn state_is_wired(
    s0: State,
    s: State,
    w: Wires,
    id: ReactorId,
    m: Map<Seq<char>, Sort>,
    member: ast::Member,
)
    requires
        only_reports(s0, s),
        member.kind is State,
    ensures
        wired(s0, id, m, member, w, wire_member(s, w, id, m, member)),
{
    reveal(wire_member);
    reveal(wire_state);
    reveal(wired);
    let name = member.kind->State_name.name@;
    let init = member.kind->State_init;
    same_meaning(s0, s, id, name);
    match s0.node_place(id, name) {
        Some(node) => {
            let f = mentioned(m, init);
            initial_reads_flow(s0, s, w, id, m, node, f.reads);
            let q = initial_reads(s, w, id, m, node, f.reads);
            initial_calls_flow(s0, q.0, q.1, id, m, f.calls);
            let r = initial_calls(q.0, q.1, m, f.calls);
            assert forall|n: Seq<char>| (#[trigger] mentions(f.reads, n) <==> m.dom().contains(n)
                && free_reads(init, n)) by {
                scans_mention_members(m, init, n);
            }
            assert forall|n: Seq<char>| (#[trigger] mentions(f.calls, n) <==> m.dom().contains(n)
                && free_calls(init, n)) by {
                scans_mention_members(m, init, n);
            }
            reveal(gained);
            assert forall|i: int, x: usize| 0 <= i < w.deps.len() implies (
            #[trigger] r.1.deps[i].contains(x) <==> w.deps[i].contains(x) || makes_depend(
                s0,
                id,
                m,
                member,
                i,
                x,
            )) by {
                assert(q.1.deps[i].contains(x) <==> w.deps[i].contains(x) || (i == node && leads_to(
                    s0,
                    id,
                    is_param(m),
                    f.reads,
                    x,
                )));
                if leads_to(s0, id, is_param(m), f.reads, x) {
                    let n = choose|n: Seq<char>| #[trigger]
                        mentions(f.reads, n) && is_param(m)(n) && is_place(s0, id, n, x);
                    assert(free_reads(init, n));
                }
                if makes_depend(s0, id, m, member, i, x) {
                    let n = choose|n: Seq<char>| #[trigger]
                        free_reads(init, n) && find(m, n) == Some(Sort::Param) && is_place(
                            s0,
                            id,
                            n,
                            x,
                        );
                    assert(mentions(f.reads, n));
                    assert(is_param(m)(n));
                }
            }
            if offends(f.reads, no_param(m)) {
                let n = choose|n: Seq<char>| #[trigger] mentions(f.reads, n) && no_param(m)(n);
                assert(free_reads(init, n));
            }
            if offends(f.calls, called_member(s0, m)) {
                let n = choose|n: Seq<char>| #[trigger]
                    mentions(f.calls, n) && called_member(s0, m)(n);
                assert(free_calls(init, n));
            }
            if misreads(s0, id, m, member) {
                if exists|n: Seq<char>| #[trigger]
                    free_reads(init, n) && find(m, n) is Some && find(m, n) != Some(Sort::Param) {
                    let n = choose|n: Seq<char>| #[trigger]
                        free_reads(init, n) && find(m, n) is Some && find(m, n) != Some(
                            Sort::Param,
                        );
                    assert(mentions(f.reads, n));
                    assert(no_param(m)(n));
                } else {
                    let n = choose|n: Seq<char>| #[trigger]
                        free_calls(init, n) && find(m, n) is Some && !called_elsewhere(s0, n);
                    assert(mentions(f.calls, n));
                    assert(called_member(s0, m)(n));
                }
            }
        },
        None => {},
    }
}

proof fn signal_is_wired(
    s0: State,
    s: State,
    w: Wires,
    id: ReactorId,
    m: Map<Seq<char>, Sort>,
    member: ast::Member,
)
    requires
        only_reports(s0, s),
        member.kind is Signal,
    ensures
        wired(s0, id, m, member, w, wire_member(s, w, id, m, member)),
{
    reveal(wire_member);
    reveal(wire_signal);
    reveal(wired);
    let name = member.kind->Signal_name.name@;
    let body = member.kind->Signal_body;
    same_meaning(s0, s, id, name);
    match s0.node_place(id, name) {
        Some(node) => {
            let f = mentioned(m, body);
            signal_reads_flow(s0, s, w, id, m, node, f.reads);
            let q = signal_reads(s, w, id, m, node, f.reads);
            signal_calls_flow(s0, q.0, q.1, id, m, node, f.calls);
            let r = (q.0, signal_calls(q.0, q.1, id, m, node, f.calls));
            assert forall|n: Seq<char>| (#[trigger] mentions(f.reads, n) <==> m.dom().contains(n)
                && free_reads(body, n)) by {
                scans_mention_members(m, body, n);
            }
            assert forall|n: Seq<char>| (#[trigger] mentions(f.calls, n) <==> m.dom().contains(n)
                && free_calls(body, n)) by {
                scans_mention_members(m, body, n);
            }
            reveal(gained);
            assert forall|i: int, x: usize| 0 <= i < w.deps.len() implies (
            #[trigger] r.1.deps[i].contains(x) <==> w.deps[i].contains(x) || makes_depend(
                s0,
                id,
                m,
                member,
                i,
                x,
            )) by {
                assert(q.1.deps[i].contains(x) <==> w.deps[i].contains(x) || (i == node && leads_to(
                    s0,
                    id,
                    is_node(m),
                    f.reads,
                    x,
                )));
                if leads_to(s0, id, is_node(m), f.reads, x) {
                    let n = choose|n: Seq<char>| #[trigger]
                        mentions(f.reads, n) && is_node(m)(n) && is_place(s0, id, n, x);
                    assert(free_reads(body, n));
                }
                if leads_to(s0, id, called_signal(s0, m), f.calls, x) {
                    let n = choose|n: Seq<char>| #[trigger]
                        mentions(f.calls, n) && called_signal(s0, m)(n) && is_place(s0, id, n, x);
                    assert(free_calls(body, n));
                }
                if makes_depend(s0, id, m, member, i, x) {
                    if exists|n: Seq<char>| #[trigger]
                        free_reads(body, n) && find(m, n) is Some && find(m, n) != Some(Sort::Input)
                            && is_place(s0, id, n, x) {
                        let n = choose|n: Seq<char>| #[trigger]
                            free_reads(body, n) && find(m, n) is Some && find(m, n) != Some(
                                Sort::Input,
                            ) && is_place(s0, id, n, x);
                        assert(mentions(f.reads, n));
                        assert(is_node(m)(n));
                    } else {
                        let n = choose|n: Seq<char>| #[trigger]
                            free_calls(body, n) && find(m, n) == Some(Sort::Signal)
                                && !called_elsewhere(s0, n) && is_place(s0, id, n, x);
                        assert(mentions(f.calls, n));
                        assert(called_signal(s0, m)(n));
                    }
                }
            }
            if offends(f.reads, is_input(m)) {
                let n = choose|n: Seq<char>| #[trigger] mentions(f.reads, n) && is_input(m)(n);
                assert(free_reads(body, n));
            }
            if misreads(s0, id, m, member) {
                let n = choose|n: Seq<char>| #[trigger]
                    free_reads(body, n) && find(m, n) == Some(Sort::Input);
                assert(mentions(f.reads, n));
                assert(is_input(m)(n));
            }
        },
        None => {},
    }
}

proof fn handler_is_wired(
    s0: State,
    s: State,
    w: Wires,
    id: ReactorId,
    m: Map<Seq<char>, Sort>,
    member: ast::Member,
)
    requires
        only_reports(s0, s),
        member.kind is On,
    ensures
        wired(s0, id, m, member, w, wire_member(s, w, id, m, member)),
{
    reveal(wire_member);
    reveal(wire_handler);
    reveal(wired);
    let input = member.kind->On_input.name@;
    let params = member.kind->On_params@;
    let body = member.kind->On_body;
    same_meaning(s0, s, id, input);
    match s0.input_place(id, input) {
        Some(at) => {
            let f = mentioned_by_handler(m, params, body);
            handler_writes_flow(s0, s, w, id, m, at, f.writes);
            let r = handler_writes(s, w, id, m, at, f.writes);
            assert forall|n: Seq<char>| (#[trigger] mentions(f.writes, n) <==> m.dom().contains(n)
                && !message_binds(params, n) && block_assigns(body, n)) by {
                handler_scans_mention_members(m, params, body, n);
            }
            reveal(gained);
            assert forall|i: int, x: usize| 0 <= i < w.writes.len() implies (
            #[trigger] r.writes[i].contains(x) <==> w.writes[i].contains(x) || makes_write(
                s0,
                id,
                m,
                member,
                i,
                x,
            )) by {
                if leads_to(s0, id, is_cell(m), f.writes, x) {
                    let n = choose|n: Seq<char>| #[trigger]
                        mentions(f.writes, n) && is_cell(m)(n) && is_place(s0, id, n, x);
                    assert(block_assigns(body, n));
                }
                if makes_write(s0, id, m, member, i, x) {
                    let n = choose|n: Seq<char>| #[trigger]
                        block_assigns(body, n) && !message_binds(params, n) && find(m, n) == Some(
                            Sort::State,
                        ) && is_place(s0, id, n, x);
                    assert(mentions(f.writes, n));
                    assert(is_cell(m)(n));
                }
            }
        },
        None => {},
    }
}

proof fn member_is_wired(
    s0: State,
    s: State,
    w: Wires,
    id: ReactorId,
    m: Map<Seq<char>, Sort>,
    member: ast::Member,
)
    requires
        only_reports(s0, s),
    ensures
        wired(s0, id, m, member, w, wire_member(s, w, id, m, member)),
{
    match member.kind {
        ast::MemberKind::State { .. } => state_is_wired(s0, s, w, id, m, member),
        ast::MemberKind::Signal { .. } => signal_is_wired(s0, s, w, id, m, member),
        ast::MemberKind::On { .. } => handler_is_wired(s0, s, w, id, m, member),
        ast::MemberKind::Input { .. } => {
            reveal(wire_member);
            reveal(wired);
        },
    }
}

pub open spec fn some_depends(
    s: State,
    id: ReactorId,
    m: Map<Seq<char>, Sort>,
    members: Seq<ast::Member>,
    i: int,
    x: usize,
) -> bool {
    exists|k: int| 0 <= k < members.len() && makes_depend(s, id, m, #[trigger] members[k], i, x)
}

pub open spec fn some_writes(
    s: State,
    id: ReactorId,
    m: Map<Seq<char>, Sort>,
    members: Seq<ast::Member>,
    i: int,
    x: usize,
) -> bool {
    exists|k: int| 0 <= k < members.len() && makes_write(s, id, m, #[trigger] members[k], i, x)
}

pub open spec fn some_misread(
    s: State,
    id: ReactorId,
    m: Map<Seq<char>, Sort>,
    members: Seq<ast::Member>,
) -> bool {
    exists|k: int| 0 <= k < members.len() && misreads(s, id, m, #[trigger] members[k])
}

proof fn members_are_wired(
    s: State,
    w: Wires,
    id: ReactorId,
    m: Map<Seq<char>, Sort>,
    members: Seq<ast::Member>,
)
    ensures
        ({
            let r = wire_members(s, w, id, m, members);
            &&& only_reports(s, r.0)
            &&& r.1.deps.len() == w.deps.len()
            &&& r.1.writes.len() == w.writes.len()
            &&& forall|i: int, x: usize|
                0 <= i < w.deps.len() ==> (#[trigger] r.1.deps[i].contains(x)
                    <==> w.deps[i].contains(x) || some_depends(s, id, m, members, i, x))
            &&& forall|i: int, x: usize|
                0 <= i < w.writes.len() ==> (#[trigger] r.1.writes[i].contains(x)
                    <==> w.writes[i].contains(x) || some_writes(s, id, m, members, i, x))
            &&& r.1.ok <==> w.ok && !some_misread(s, id, m, members)
        }),
    decreases members.len(),
{
    if members.len() > 0 {
        let init = members.drop_last();
        let last = members.last();
        members_are_wired(s, w, id, m, init);
        let b = wire_members(s, w, id, m, init);
        let r = wire_members(s, w, id, m, members);
        member_is_wired(s, b.0, b.1, id, m, last);
        reveal(wired);
        assert(members[members.len() - 1] == last);
        assert forall|k: int| 0 <= k < init.len() implies #[trigger] init[k] == members[k] by {}
        assert forall|k: int| 0 <= k < members.len() implies #[trigger] members[k] == if k
            < init.len() {
            init[k]
        } else {
            last
        } by {}
        assert forall|i: int, x: usize| 0 <= i < w.deps.len() implies (
        #[trigger] r.1.deps[i].contains(x) <==> w.deps[i].contains(x) || some_depends(
            s,
            id,
            m,
            members,
            i,
            x,
        )) by {
            assert(b.1.deps[i].contains(x) <==> w.deps[i].contains(x) || some_depends(
                s,
                id,
                m,
                init,
                i,
                x,
            ));
            if some_depends(s, id, m, init, i, x) {
                let k = choose|k: int|
                    0 <= k < init.len() && makes_depend(s, id, m, #[trigger] init[k], i, x);
                assert(makes_depend(s, id, m, members[k], i, x));
            }
        }
        assert forall|i: int, x: usize| 0 <= i < w.writes.len() implies (
        #[trigger] r.1.writes[i].contains(x) <==> w.writes[i].contains(x) || some_writes(
            s,
            id,
            m,
            members,
            i,
            x,
        )) by {
            assert(b.1.writes[i].contains(x) <==> w.writes[i].contains(x) || some_writes(
                s,
                id,
                m,
                init,
                i,
                x,
            ));
            if some_writes(s, id, m, init, i, x) {
                let k = choose|k: int|
                    0 <= k < init.len() && makes_write(s, id, m, #[trigger] init[k], i, x);
                assert(makes_write(s, id, m, members[k], i, x));
            }
        }
        if some_misread(s, id, m, init) {
            let k = choose|k: int| 0 <= k < init.len() && misreads(s, id, m, #[trigger] init[k]);
            assert(misreads(s, id, m, members[k]));
        }
    }
}

// ---------------------------------------------------------------- laws

/// The graph of a reactor is what its bodies say. One node depends on another exactly if its own
/// body reads it, or calls it, where the name is free; an input writes a cell exactly if a handler
/// of it assigns that cell, in whatever branch, loop or arm, where the name is free.
pub proof fn graphs_are_what_bodies_say(s: State, id: ReactorId, decl: ast::ReactorDecl)
    ensures
        ({
            let m = member_namespace(s, id);
            let w = scan_reactor(s, id, decl).1;
            &&& w.deps.len() == s.reactor_nodes(id).len()
            &&& w.writes.len() == s.reactor_inputs(id).len()
            &&& forall|i: int, x: usize|
                0 <= i < w.deps.len() ==> (#[trigger] w.deps[i].contains(x) <==> some_depends(
                    s,
                    id,
                    m,
                    decl.members@,
                    i,
                    x,
                ))
            &&& forall|i: int, x: usize|
                0 <= i < w.writes.len() ==> (#[trigger] w.writes[i].contains(x) <==> some_writes(
                    s,
                    id,
                    m,
                    decl.members@,
                    i,
                    x,
                ))
            &&& w.ok ==> !some_misread(s, id, m, decl.members@)
        }),
{
    reveal(scan_reactor);
    reveal(acyclic);
    reveal(ordered);
    reveal(Wires::broken);
    let m = member_namespace(s, id);
    let bare = Wires::bare(s.reactor_nodes(id).len(), s.reactor_inputs(id).len());
    members_are_wired(s, bare, id, m, decl.members@);
}

proof fn written_is_touched(deps: Seq<Seq<usize>>, writes: Seq<usize>, x: usize)
    requires
        writes.contains(x),
    ensures
        touched(deps, writes, x),
{
    let all = everything(deps.len());
    let p = seq![x];
    assert(is_path(deps, all, p));
    assert(p[0] == x && p.last() == x);
    assert(reaches(deps, all, x, x));
}

/// Every cell that a handler assigns in any branch is in the plan of its input, and so is every
/// signal that reads that cell.
pub proof fn plans_hold_what_handlers_assign(
    s: State,
    id: ReactorId,
    decl: ast::ReactorDecl,
    i: int,
    x: usize,
    reader: usize,
)
    requires
        s.reactor_nodes(id).len() <= usize::MAX,
        scan_reactor(s, id, decl).1.ok,
        0 <= i < s.reactor_inputs(id).len(),
        x < s.reactor_nodes(id).len(),
        some_writes(s, id, member_namespace(s, id), decl.members@, i, x),
    ensures
        ({
            let m = member_namespace(s, id);
            let w = scan_reactor(s, id, decl).1;
            let plan = plan_of(w.deps, w.order, w.writes[i]);
            &&& plan.contains(x)
            &&& reader < s.reactor_nodes(id).len() && some_depends(
                s,
                id,
                m,
                decl.members@,
                reader as int,
                x,
            ) ==> plan.contains(reader)
        }),
{
    let w = scan_reactor(s, id, decl).1;
    graphs_are_what_bodies_say(s, id, decl);
    assert(w.writes[i].contains(x));
    written_is_touched(w.deps, w.writes[i], x);
    assert(w.order == crate::order::sorted(w.deps)) by {
        reveal(scan_reactor);
        reveal(acyclic);
        reveal(ordered);
        reveal(Wires::broken);
    }
    sorted_is_a_permutation(w.deps);
    assert(w.order.contains(x));
    plan_is_the_touched_part(w.deps, w.order, w.writes[i], x);
    if reader < w.deps.len() && some_depends(
        s,
        id,
        member_namespace(s, id),
        decl.members@,
        reader as int,
        x,
    ) {
        assert(w.deps[reader as int].contains(x));
        assert(edges(w.deps, reader as int).contains(x));
        touched_extends(w.deps, w.writes[i], reader, x);
        assert(w.order.contains(reader));
        plan_is_the_touched_part(w.deps, w.order, w.writes[i], reader);
    }
}

proof fn plans_are_given(s: State, id: ReactorId, w: Wires, inputs: nat, i: int)
    requires
        id.0 < s.program.reactors.len(),
        0 <= i < s.program.reactors[id.0 as int].inputs.len(),
    ensures
        ({
            let t = with_plans(s, id, w, inputs);
            &&& t.program.reactors.len() == s.program.reactors.len()
            &&& t.program.reactors[id.0 as int].inputs.len()
                == s.program.reactors[id.0 as int].inputs.len()
            &&& i < inputs && i < w.writes.len() ==> t.program.reactors[id.0 as int].inputs[i].plan
                == node_ids(plan_of(w.deps, w.order, w.writes[i]))
        }),
    decreases inputs,
{
    reveal(State::with_plan);
    if inputs > 0 {
        plans_are_given(s, id, w, (inputs - 1) as nat, i);
    }
}

/// What a checked reactor's inputs are given as plans is what was worked out for them.
pub proof fn inputs_are_given_their_plans(
    s: State,
    id: ReactorId,
    decl: ast::ReactorDecl,
    w: Wires,
    i: int,
)
    requires
        ({
            let t = check_reactor(s, id, decl, w);
            &&& id.0 < t.program.reactors.len()
            &&& 0 <= i < t.program.reactors[id.0 as int].inputs.len()
        }),
        i < w.writes.len(),
    ensures
        check_reactor(s, id, decl, w).program.reactors[id.0 as int].inputs[i].plan == node_ids(
            plan_of(w.deps, w.order, w.writes[i]),
        ),
{
    reveal(check_reactor);
    let home = crate::reactor::Home {
        id,
        members: member_namespace(s, id),
        uses: s.reactor_uses(id),
    };
    let n = crate::reactor::check_nodes(s, home, decl, w, w.order);
    let h = crate::reactor::leave_reactor(
        crate::reactor::check_handlers(n, home, decl.members@),
    );
    sizes_stay(h, id, w, h.reactor_inputs(id).len());
    plans_are_given(h, id, w, h.reactor_inputs(id).len(), i);
    reveal(State::reactor_inputs);
}

proof fn sizes_stay(s: State, id: ReactorId, w: Wires, inputs: nat)
    ensures
        with_plans(s, id, w, inputs).program.reactors.len() == s.program.reactors.len(),
        id.0 < s.program.reactors.len() ==> with_plans(
            s,
            id,
            w,
            inputs,
        ).program.reactors[id.0 as int].inputs.len()
            == s.program.reactors[id.0 as int].inputs.len(),
    decreases inputs,
{
    reveal(State::with_plan);
    if inputs > 0 {
        sizes_stay(s, id, w, (inputs - 1) as nat);
    }
}

} // verus!
