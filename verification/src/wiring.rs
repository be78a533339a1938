//! The dependency graph of a reactor, read off its members before any body is typed: the edges,
//! the cycle check, and an order in which every node stands after what it depends on.

use vstd::prelude::*;
use vstd::string::*;
use crate::ast;
use crate::call::builtin_named;
use crate::checker::Checker;
use crate::copies::{place_is_first, place_is_unique, place_of};
use crate::cycle::{find_first_cycle, first_cycle, first_cycle_is_right};
use crate::graph::{edges, everything, flag, is_cycle, lists};
use crate::hir::{nodes_of, reactors_of, InputDef, Node, NodeId, NodeKind, ReactorId};
use crate::instances::{name_at, string_at};
use crate::members::{holds_number, reactor_at, reactor_items};
use crate::model;
use crate::order::{
    lists_all, respects, sorted, sorted_is_a_permutation, sorted_respects_dependencies, topological,
};
use crate::path::unreadable_member;
use crate::reports;
use crate::say;
use crate::scan::{mentioned, mentioned_by_handler, scan, scan_handler, sites};
use crate::span::{texts, Report, Span};
use crate::state::{node_names, Sort, State};
use crate::table::{find, Table};
use crate::text::{join, joined};

verus! {

/// What was worked out about one reactor.
#[verifier::ext_equal]
pub struct Wires {
    /// What each node depends on, in the order its lifted function takes them.
    pub deps: Seq<Seq<usize>>,
    /// The nodes, each after everything it depends on.
    pub order: Seq<usize>,
    /// The state nodes that the handler of each input assigns.
    pub writes: Seq<Seq<usize>>,
    /// False where the graph could not be built: a cycle, or a mention of what is not a node.
    pub ok: bool,
}

/// A list with a value at its end, unless it holds it.
pub open spec fn pushed_once(list: Seq<usize>, value: usize) -> Seq<usize> {
    if list.contains(value) {
        list
    } else {
        list.push(value)
    }
}

/// One list of several, with a value at its end, unless it holds it.
pub open spec fn row_with(rows: Seq<Seq<usize>>, at: int, value: usize) -> Seq<Seq<usize>> {
    if 0 <= at < rows.len() {
        rows.update(at, pushed_once(rows[at], value))
    } else {
        rows
    }
}

impl Wires {
    #[verifier::opaque]
    pub open spec fn depends(self, node: int, dep: int) -> Wires {
        Wires { deps: row_with(self.deps, node, dep as usize), ..self }
    }

    #[verifier::opaque]
    pub open spec fn assigns(self, input: int, node: int) -> Wires {
        Wires { writes: row_with(self.writes, input, node as usize), ..self }
    }

    #[verifier::opaque]
    pub open spec fn broken(self) -> Wires {
        Wires { ok: false, ..self }
    }

    pub open spec fn bare(nodes: nat, inputs: nat) -> Wires {
        Wires {
            deps: Seq::new(nodes, |i: int| seq![]),
            order: seq![],
            writes: Seq::new(inputs, |i: int| seq![]),
            ok: true,
        }
    }
}

pub open spec fn sort_of(kind: NodeKind) -> Sort {
    match kind {
        NodeKind::Param { .. } => Sort::Param,
        NodeKind::State { .. } => Sort::State,
        NodeKind::Signal { .. } => Sort::Signal,
    }
}

pub open spec fn node_sorts(nodes: Seq<model::Node>) -> Map<Seq<char>, Sort>
    decreases nodes.len(),
{
    if nodes.len() == 0 {
        Map::empty()
    } else {
        node_sorts(nodes.drop_last()).insert(nodes.last().name, sort_of(nodes.last().kind))
    }
}

pub open spec fn with_input_sorts(
    m: Map<Seq<char>, Sort>,
    inputs: Seq<model::InputDef>,
) -> Map<Seq<char>, Sort>
    decreases inputs.len(),
{
    if inputs.len() == 0 {
        m
    } else {
        with_input_sorts(m, inputs.drop_last()).insert(inputs.last().name, Sort::Input)
    }
}

/// The members of a reactor, each with what it is.
#[verifier::opaque]
pub open spec fn member_namespace(s: State, id: ReactorId) -> Map<Seq<char>, Sort> {
    with_input_sorts(node_sorts(s.reactor_nodes(id)), s.reactor_inputs(id))
}

/// Whether a name in call position names something that a member of the name stands behind.
#[verifier::opaque]
pub open spec fn called_elsewhere(s: State, name: Seq<char>) -> bool {
    builtin_named(s.vocabulary, name) is Some || s.fn_named(name) is Some || s.type_named(
        name,
    ) is Some
}

/// An edge to a member, which is one of the nodes.
#[verifier::opaque]
pub open spec fn edge(s: State, w: Wires, id: ReactorId, node: int, name: Seq<char>) -> Wires {
    match s.node_place(id, name) {
        Some(dep) => w.depends(node, dep),
        None => w,
    }
}

/// A state initialiser runs once, before any turn: it may read the parameters, and nothing else.
#[verifier::opaque]
pub open spec fn initial_read(
    s: State,
    w: Wires,
    id: ReactorId,
    m: Map<Seq<char>, Sort>,
    node: int,
    at: (Seq<char>, Span),
) -> (State, Wires) {
    match find(m, at.0) {
        Some(Sort::Param) => (s, edge(s, w, id, node, at.0)),
        Some(sort) => (s.push(reports::init_reads(at.1, sort.word(), at.0)), w.broken()),
        None => (s, w),
    }
}

pub open spec fn initial_reads(
    s: State,
    w: Wires,
    id: ReactorId,
    m: Map<Seq<char>, Sort>,
    node: int,
    list: Seq<(Seq<char>, Span)>,
) -> (State, Wires)
    decreases list.len(),
{
    if list.len() == 0 {
        (s, w)
    } else {
        let r = initial_reads(s, w, id, m, node, list.drop_last());
        initial_read(r.0, r.1, id, m, node, list.last())
    }
}

/// To call a member from an initialiser is to call a function of nodes that hold nothing yet.
#[verifier::opaque]
pub open spec fn initial_call(
    s: State,
    w: Wires,
    m: Map<Seq<char>, Sort>,
    at: (Seq<char>, Span),
) -> (State, Wires) {
    if called_elsewhere(s, at.0) {
        (s, w)
    } else {
        match find(m, at.0) {
            Some(sort) => (s.push(reports::init_calls(at.1, sort.word(), at.0)), w.broken()),
            None => (s, w),
        }
    }
}

pub open spec fn initial_calls(
    s: State,
    w: Wires,
    m: Map<Seq<char>, Sort>,
    list: Seq<(Seq<char>, Span)>,
) -> (State, Wires)
    decreases list.len(),
{
    if list.len() == 0 {
        (s, w)
    } else {
        let r = initial_calls(s, w, m, list.drop_last());
        initial_call(r.0, r.1, m, list.last())
    }
}

/// A signal may read any node. An input holds no value between messages.
#[verifier::opaque]
pub open spec fn signal_read(
    s: State,
    w: Wires,
    id: ReactorId,
    m: Map<Seq<char>, Sort>,
    node: int,
    at: (Seq<char>, Span),
) -> (State, Wires) {
    match find(m, at.0) {
        Some(Sort::Input) => (
            s.push(unreadable_member(s, at.0, Sort::Input, at.1)),
            w.broken(),
        ),
        Some(_) => (s, edge(s, w, id, node, at.0)),
        None => (s, w),
    }
}

pub open spec fn signal_reads(
    s: State,
    w: Wires,
    id: ReactorId,
    m: Map<Seq<char>, Sort>,
    node: int,
    list: Seq<(Seq<char>, Span)>,
) -> (State, Wires)
    decreases list.len(),
{
    if list.len() == 0 {
        (s, w)
    } else {
        let r = signal_reads(s, w, id, m, node, list.drop_last());
        signal_read(r.0, r.1, id, m, node, list.last())
    }
}

/// To call a signal names its definition, whose body has to be typed first.
#[verifier::opaque]
pub open spec fn signal_call(
    s: State,
    w: Wires,
    id: ReactorId,
    m: Map<Seq<char>, Sort>,
    node: int,
    name: Seq<char>,
) -> Wires {
    if !called_elsewhere(s, name) && find(m, name) == Some(Sort::Signal) {
        edge(s, w, id, node, name)
    } else {
        w
    }
}

pub open spec fn signal_calls(
    s: State,
    w: Wires,
    id: ReactorId,
    m: Map<Seq<char>, Sort>,
    node: int,
    list: Seq<(Seq<char>, Span)>,
) -> Wires
    decreases list.len(),
{
    if list.len() == 0 {
        w
    } else {
        signal_call(
            s,
            signal_calls(s, w, id, m, node, list.drop_last()),
            id,
            m,
            node,
            list.last().0,
        )
    }
}

/// Only an assignment to a state cell is a write.
#[verifier::opaque]
pub open spec fn handler_write(
    s: State,
    w: Wires,
    id: ReactorId,
    m: Map<Seq<char>, Sort>,
    input: int,
    name: Seq<char>,
) -> Wires {
    if find(m, name) == Some(Sort::State) {
        match s.node_place(id, name) {
            Some(node) => w.assigns(input, node),
            None => w,
        }
    } else {
        w
    }
}

pub open spec fn handler_writes(
    s: State,
    w: Wires,
    id: ReactorId,
    m: Map<Seq<char>, Sort>,
    input: int,
    list: Seq<(Seq<char>, Span)>,
) -> Wires
    decreases list.len(),
{
    if list.len() == 0 {
        w
    } else {
        handler_write(
            s,
            handler_writes(s, w, id, m, input, list.drop_last()),
            id,
            m,
            input,
            list.last().0,
        )
    }
}

#[verifier::opaque]
pub open spec fn wire_state(
    s: State,
    w: Wires,
    id: ReactorId,
    m: Map<Seq<char>, Sort>,
    name: Seq<char>,
    init: ast::Expr,
) -> (State, Wires) {
    match s.node_place(id, name) {
        None => (s, w),
        Some(node) => {
            let found = mentioned(m, init);
            let r = initial_reads(s, w, id, m, node, found.reads);
            initial_calls(r.0, r.1, m, found.calls)
        },
    }
}

#[verifier::opaque]
pub open spec fn wire_signal(
    s: State,
    w: Wires,
    id: ReactorId,
    m: Map<Seq<char>, Sort>,
    name: Seq<char>,
    body: ast::Expr,
) -> (State, Wires) {
    match s.node_place(id, name) {
        None => (s, w),
        Some(node) => {
            let found = mentioned(m, body);
            let r = signal_reads(s, w, id, m, node, found.reads);
            (r.0, signal_calls(r.0, r.1, id, m, node, found.calls))
        },
    }
}

#[verifier::opaque]
pub open spec fn wire_handler(
    s: State,
    w: Wires,
    id: ReactorId,
    m: Map<Seq<char>, Sort>,
    input: Seq<char>,
    params: Seq<ast::HandlerParam>,
    body: ast::Block,
) -> Wires {
    match s.input_place(id, input) {
        None => w,
        Some(i) => handler_writes(
            s,
            w,
            id,
            m,
            i,
            mentioned_by_handler(m, params, body).writes,
        ),
    }
}

#[verifier::opaque]
pub open spec fn wire_member(
    s: State,
    w: Wires,
    id: ReactorId,
    m: Map<Seq<char>, Sort>,
    member: ast::Member,
) -> (State, Wires) {
    match member.kind {
        ast::MemberKind::State { name, init, .. } => wire_state(s, w, id, m, name.name@, init),
        ast::MemberKind::Signal { name, body, .. } => wire_signal(s, w, id, m, name.name@, body),
        ast::MemberKind::On { input, params, body, .. } => (
            s,
            wire_handler(s, w, id, m, input.name@, params@, body),
        ),
        ast::MemberKind::Input { .. } => (s, w),
    }
}

pub open spec fn wire_members(
    s: State,
    w: Wires,
    id: ReactorId,
    m: Map<Seq<char>, Sort>,
    members: Seq<ast::Member>,
) -> (State, Wires)
    decreases members.len(),
{
    if members.len() == 0 {
        (s, w)
    } else {
        let r = wire_members(s, w, id, m, members.drop_last());
        wire_member(r.0, r.1, id, m, members.last())
    }
}

// ---------------------------------------------------------------- cycles

/// Which nodes are signals. A state cell is a temporal boundary: only edges between signals close
/// an instantaneous cycle.
pub open spec fn signals(nodes: Seq<model::Node>) -> Seq<bool> {
    Seq::new(nodes.len(), |i: int| nodes[i].kind is Signal)
}

pub open spec fn name_of(s: State, id: ReactorId, node: int) -> Seq<char> {
    match s.node(id, node) {
        Some(n) => n.name,
        None => "_"@,
    }
}

pub open spec fn span_of(s: State, id: ReactorId, node: int) -> Span {
    match s.node(id, node) {
        Some(n) => n.span,
        None => Span { start: 0, end: 0 },
    }
}

pub open spec fn cycle_names(s: State, id: ReactorId, cycle: Seq<usize>) -> Seq<Seq<char>> {
    Seq::new(cycle.len(), |i: int| name_of(s, id, cycle[i] as int))
}

/// One step of a cycle in words.
pub open spec fn dependence(names: Seq<Seq<char>>, step: int) -> Seq<char> {
    "`"@ + name_at(names, step) + "` depends on `"@ + name_at(names, step + 1) + "`"@
}

/// Each step but the first points at a place of its own.
pub open spec fn with_steps(
    report: Report,
    s: State,
    id: ReactorId,
    cycle: Seq<usize>,
    names: Seq<Seq<char>>,
    steps: nat,
) -> Report
    decreases steps,
{
    if steps <= 1 {
        report
    } else {
        with_steps(report, s, id, cycle, names, (steps - 1) as nat).secondary(
            span_of(s, id, cycle[steps - 1] as int),
            dependence(names, steps - 1),
        )
    }
}

/// A cycle, reported across every node on it.
#[verifier::opaque]
pub open spec fn cycle_report(s: State, id: ReactorId, cycle: Seq<usize>) -> Report {
    let names = cycle_names(s, id, cycle);
    with_steps(
        reports::causality_cycle(
            span_of(s, id, cycle[0] as int),
            joined(names, " → "@),
            dependence(names, 0),
        ),
        s,
        id,
        cycle,
        names,
        (cycle.len() - 1) as nat,
    ).note(
        "a signal is its expression, so a cycle among signals has no value to settle on"@,
    ).note(
        "break it with a `state` cell: state is the temporal boundary a feedback loop has to cross"@,
    )
}

pub open spec fn node_ids(list: Seq<usize>) -> Seq<NodeId> {
    Seq::new(list.len(), |i: int| NodeId(list[i] as u32))
}

pub open spec fn wired_nodes(nodes: Seq<model::Node>, deps: Seq<Seq<usize>>) -> Seq<model::Node> {
    Seq::new(
        nodes.len(),
        |i: int|
            if i < deps.len() {
                model::Node { deps: node_ids(deps[i]), ..nodes[i] }
            } else {
                nodes[i]
            },
    )
}

impl State {
    /// A reactor with its edges and its order.
    #[verifier::opaque]
    pub open spec fn with_wires(self, id: ReactorId, w: Wires) -> State {
        if id.0 < self.program.reactors.len() {
            State {
                program: model::Program {
                    reactors: self.program.reactors.update(
                        id.0 as int,
                        model::ReactorDef {
                            nodes: wired_nodes(self.program.reactors[id.0 as int].nodes, w.deps),
                            order: node_ids(w.order),
                            ..self.program.reactors[id.0 as int]
                        },
                    ),
                    ..self.program
                },
                ..self
            }
        } else {
            self
        }
    }
}

pub open spec fn counting(n: nat) -> Seq<usize> {
    Seq::new(n, |i: int| i as usize)
}

/// With the order, which is the source order where there is no graph to sort.
#[verifier::opaque]
pub open spec fn ordered(w: Wires) -> Wires {
    Wires {
        order: if w.ok {
            sorted(w.deps)
        } else {
            counting(w.deps.len())
        },
        ..w
    }
}

/// A cycle among the signals is reported.
#[verifier::opaque]
pub open spec fn acyclic(s: State, w: Wires, id: ReactorId) -> (State, Wires) {
    match first_cycle(w.deps, signals(s.reactor_nodes(id))) {
        Some(cycle) => if cycle.len() == 0 {
            (s, w.broken())
        } else {
            (s.push(cycle_report(s, id, cycle)), w.broken())
        },
        None => (s, w),
    }
}

#[verifier::opaque]
pub open spec fn scan_reactor(s: State, id: ReactorId, decl: ast::ReactorDecl) -> (State, Wires) {
    let m = member_namespace(s, id);
    let bare = Wires::bare(s.reactor_nodes(id).len(), s.reactor_inputs(id).len());
    let r = wire_members(s, bare, id, m, decl.members@);
    let c = acyclic(r.0, r.1, id);
    (c.0.with_wires(id, ordered(c.1)), ordered(c.1))
}

pub open spec fn scan_each(
    s: State,
    items: Seq<ast::Item>,
    ids: Seq<ReactorId>,
    places: Seq<usize>,
) -> (State, Seq<Wires>)
    decreases ids.len(),
{
    if ids.len() == 0 || places.len() == 0 {
        (s, seq![])
    } else {
        let r = scan_each(s, items, ids.drop_last(), places.drop_last());
        match reactor_at(items, places.last()) {
            Some(decl) => {
                let one = scan_reactor(r.0, ids.last(), decl);
                (one.0, r.1.push(one.1))
            },
            None => r,
        }
    }
}

/// The graphs of the reactors of a file.
#[verifier::opaque]
pub open spec fn scan_reactors(s: State, module: ast::Module) -> (State, Seq<Wires>) {
    let r = reactor_items(s, module.items@);
    scan_each(s, module.items@, r.0, r.1)
}

// ---------------------------------------------------------------- the order is right

/// Nodes with names of their own.
pub open spec fn names_apart(nodes: Seq<model::Node>) -> bool {
    forall|i: int, j: int|
        0 <= i < j < nodes.len() ==> (#[trigger] nodes[i]).name != (#[trigger] nodes[j]).name
}

/// A declared signal is the node of its name, and so is a state cell. It fails where a name is
/// declared twice.
pub open spec fn well_placed(s: State, id: ReactorId, member: ast::Member) -> bool {
    match member.kind {
        ast::MemberKind::Signal { name, .. } => match s.node_place(id, name.name@) {
            Some(i) => s.reactor_nodes(id)[i].kind is Signal,
            None => true,
        },
        ast::MemberKind::State { name, .. } => match s.node_place(id, name.name@) {
            Some(i) => s.reactor_nodes(id)[i].kind is State,
            None => true,
        },
        _ => true,
    }
}

/// A parameter depends on nothing, and a state cell on parameters alone.
pub open spec fn stratified(nodes: Seq<model::Node>, deps: Seq<Seq<usize>>) -> bool {
    &&& deps.len() == nodes.len()
    &&& forall|i: int, y: usize|
        0 <= i < deps.len() && #[trigger] deps[i].contains(y) ==> nodes[i].kind is Signal || (
        nodes[i].kind is State && y < nodes.len() && nodes[y as int].kind is Param)
}

proof fn input_sorts_are_inputs(
    m: Map<Seq<char>, Sort>,
    inputs: Seq<model::InputDef>,
    name: Seq<char>,
)
    ensures
        find(with_input_sorts(m, inputs), name) == Some(Sort::Input) || find(
            with_input_sorts(m, inputs),
            name,
        ) == find(m, name),
    decreases inputs.len(),
{
    if inputs.len() > 0 {
        input_sorts_are_inputs(m, inputs.drop_last(), name);
    }
}

proof fn sorts_come_from_nodes(nodes: Seq<model::Node>, name: Seq<char>)
    requires
        names_apart(nodes),
    ensures
        match find(node_sorts(nodes), name) {
            Some(sort) => {
                let i = place_of(node_names(nodes), name);
                i is Some && 0 <= i->0 < nodes.len() && sort_of(nodes[i->0].kind) == sort
            },
            None => true,
        },
    decreases nodes.len(),
{
    if nodes.len() > 0 {
        let front = nodes.drop_last();
        let n = nodes.len() - 1;
        assert(names_apart(front)) by {
            assert forall|i: int, j: int| 0 <= i < j < front.len() implies (
            #[trigger] front[i]).name != (#[trigger] front[j]).name by {
                assert(nodes[i].name != nodes[j].name);
            }
        }
        sorts_come_from_nodes(front, name);
        if name == nodes.last().name {
            assert forall|j: int| 0 <= j < n implies node_names(nodes)[j] != name by {
                assert(nodes[j].name != nodes[n].name);
            }
            place_is_unique(node_names(nodes), name, n);
        } else if find(node_sorts(front), name) is Some {
            let i = place_of(node_names(front), name)->0;
            place_is_first(node_names(front), name);
            assert(node_names(nodes)[i] == name);
            assert forall|j: int| 0 <= j < i implies node_names(nodes)[j] != name by {
                assert(node_names(front)[j] != name);
            }
            place_is_unique(node_names(nodes), name, i);
        }
    }
}

/// What the names say of a parameter is so.
proof fn parameters_are_parameters(s: State, id: ReactorId, name: Seq<char>)
    requires
        names_apart(s.reactor_nodes(id)),
        find(member_namespace(s, id), name) == Some(Sort::Param),
    ensures
        s.node_place(id, name) matches Some(i) && 0 <= i < s.reactor_nodes(id).len()
            && s.reactor_nodes(id)[i].kind is Param,
{
    reveal(member_namespace);
    reveal(State::node_place);
    input_sorts_are_inputs(node_sorts(s.reactor_nodes(id)), s.reactor_inputs(id), name);
    sorts_come_from_nodes(s.reactor_nodes(id), name);
}

proof fn an_edge_keeps_strata(nodes: Seq<model::Node>, w: Wires, node: int, dep: int)
    requires
        stratified(nodes, w.deps),
        0 <= node < nodes.len() ==> nodes[node].kind is Signal || (nodes[node].kind is State && 0
            <= dep < nodes.len() && dep <= usize::MAX && nodes[dep].kind is Param),
    ensures
        stratified(nodes, w.depends(node, dep).deps),
{
    reveal(Wires::depends);
    let after = w.depends(node, dep).deps;
    assert forall|i: int, y: usize| 0 <= i < after.len() && #[trigger] after[i].contains(
        y,
    ) implies nodes[i].kind is Signal || (nodes[i].kind is State && y < nodes.len()
        && nodes[y as int].kind is Param) by {
        if i != node || w.deps[i].contains(y) {
            assert(w.deps[i].contains(y));
        } else {
            let row = pushed_once(w.deps[i], dep as usize);
            let k = choose|k: int| 0 <= k < row.len() && row[k] == y;
            if k < w.deps[i].len() {
                assert(w.deps[i][k] == y);
            }
            assert(y == dep as usize);
        }
    }
}

/// The program is as it was, and the strata hold.
pub open spec fn still_sound(s0: State, id: ReactorId, s: State, w: Wires) -> bool {
    &&& s.program == s0.program
    &&& stratified(s0.reactor_nodes(id), w.deps)
}

proof fn same_program_same_nodes(s0: State, id: ReactorId, s: State, name: Seq<char>)
    requires
        s.program == s0.program,
    ensures
        s.reactor_nodes(id) == s0.reactor_nodes(id),
        s.node_place(id, name) == s0.node_place(id, name),
{
    reveal(State::reactor_nodes);
    reveal(State::node_place);
}

proof fn initial_reads_stay_sound(
    s0: State,
    id: ReactorId,
    s: State,
    w: Wires,
    node: int,
    list: Seq<(Seq<char>, Span)>,
)
    requires
        names_apart(s0.reactor_nodes(id)),
        s0.reactor_nodes(id).len() <= usize::MAX,
        still_sound(s0, id, s, w),
        0 <= node < s0.reactor_nodes(id).len() && s0.reactor_nodes(id)[node].kind is State,
    ensures
        ({
            let r = initial_reads(s, w, id, member_namespace(s0, id), node, list);
            still_sound(s0, id, r.0, r.1)
        }),
    decreases list.len(),
{
    if list.len() > 0 {
        let m = member_namespace(s0, id);
        initial_reads_stay_sound(s0, id, s, w, node, list.drop_last());
        let r = initial_reads(s, w, id, m, node, list.drop_last());
        let name = list.last().0;
        reveal(initial_read);
        reveal(edge);
        reveal(State::push);
        reveal(Wires::broken);
        same_program_same_nodes(s0, id, r.0, name);
        if find(m, name) == Some(Sort::Param) {
            parameters_are_parameters(s0, id, name);
            an_edge_keeps_strata(
                s0.reactor_nodes(id),
                r.1,
                node,
                s0.node_place(id, name)->0,
            );
        }
    }
}

proof fn initial_calls_stay_sound(
    s0: State,
    id: ReactorId,
    s: State,
    w: Wires,
    m: Map<Seq<char>, Sort>,
    list: Seq<(Seq<char>, Span)>,
)
    requires
        still_sound(s0, id, s, w),
    ensures
        still_sound(
            s0,
            id,
            initial_calls(s, w, m, list).0,
            initial_calls(s, w, m, list).1,
        ),
    decreases list.len(),
{
    if list.len() > 0 {
        initial_calls_stay_sound(s0, id, s, w, m, list.drop_last());
        reveal(initial_call);
        reveal(State::push);
        reveal(Wires::broken);
    }
}

proof fn signal_reads_stay_sound(
    s0: State,
    id: ReactorId,
    s: State,
    w: Wires,
    m: Map<Seq<char>, Sort>,
    node: int,
    list: Seq<(Seq<char>, Span)>,
)
    requires
        still_sound(s0, id, s, w),
        0 <= node < s0.reactor_nodes(id).len() && s0.reactor_nodes(id)[node].kind is Signal,
    ensures
        still_sound(
            s0,
            id,
            signal_reads(s, w, id, m, node, list).0,
            signal_reads(s, w, id, m, node, list).1,
        ),
    decreases list.len(),
{
    if list.len() > 0 {
        signal_reads_stay_sound(s0, id, s, w, m, node, list.drop_last());
        let r = signal_reads(s, w, id, m, node, list.drop_last());
        let name = list.last().0;
        reveal(signal_read);
        reveal(edge);
        reveal(State::push);
        reveal(Wires::broken);
        if let Some(dep) = r.0.node_place(id, name) {
            an_edge_keeps_strata(s0.reactor_nodes(id), r.1, node, dep);
        }
    }
}

proof fn signal_calls_stay_sound(
    s0: State,
    id: ReactorId,
    s: State,
    w: Wires,
    m: Map<Seq<char>, Sort>,
    node: int,
    list: Seq<(Seq<char>, Span)>,
)
    requires
        still_sound(s0, id, s, w),
        0 <= node < s0.reactor_nodes(id).len() && s0.reactor_nodes(id)[node].kind is Signal,
    ensures
        still_sound(s0, id, s, signal_calls(s, w, id, m, node, list)),
    decreases list.len(),
{
    if list.len() > 0 {
        signal_calls_stay_sound(s0, id, s, w, m, node, list.drop_last());
        let r = signal_calls(s, w, id, m, node, list.drop_last());
        reveal(signal_call);
        reveal(edge);
        if let Some(dep) = s.node_place(id, list.last().0) {
            an_edge_keeps_strata(s0.reactor_nodes(id), r, node, dep);
        }
    }
}

proof fn handler_writes_keep_edges(
    s: State,
    w: Wires,
    id: ReactorId,
    m: Map<Seq<char>, Sort>,
    input: int,
    list: Seq<(Seq<char>, Span)>,
)
    ensures
        handler_writes(s, w, id, m, input, list).deps == w.deps,
    decreases list.len(),
{
    if list.len() > 0 {
        handler_writes_keep_edges(s, w, id, m, input, list.drop_last());
        reveal(handler_write);
        reveal(Wires::assigns);
    }
}

proof fn members_stay_sound(s0: State, id: ReactorId, w: Wires, members: Seq<ast::Member>)
    requires
        names_apart(s0.reactor_nodes(id)),
        s0.reactor_nodes(id).len() <= usize::MAX,
        still_sound(s0, id, s0, w),
        forall|i: int| 0 <= i < members.len() ==> well_placed(s0, id, #[trigger] members[i]),
    ensures
        ({
            let r = wire_members(s0, w, id, member_namespace(s0, id), members);
            still_sound(s0, id, r.0, r.1)
        }),
    decreases members.len(),
{
    if members.len() > 0 {
        let m = member_namespace(s0, id);
        assert forall|i: int| 0 <= i < members.drop_last().len() implies well_placed(
            s0,
            id,
            #[trigger] members.drop_last()[i],
        ) by {
            assert(well_placed(s0, id, members[i]));
        }
        members_stay_sound(s0, id, w, members.drop_last());
        let r = wire_members(s0, w, id, m, members.drop_last());
        assert(well_placed(s0, id, members[members.len() - 1]));
        reveal(wire_member);
        match members.last().kind {
            ast::MemberKind::State { name, init, .. } => {
                reveal(wire_state);
                same_program_same_nodes(s0, id, r.0, name.name@);
                if let Some(node) = s0.node_place(id, name.name@) {
                    place_is_inside(s0, id, name.name@);
                    let found = mentioned(m, init);
                    initial_reads_stay_sound(s0, id, r.0, r.1, node, found.reads);
                    let q = initial_reads(r.0, r.1, id, m, node, found.reads);
                    initial_calls_stay_sound(s0, id, q.0, q.1, m, found.calls);
                }
            },
            ast::MemberKind::Signal { name, body, .. } => {
                reveal(wire_signal);
                same_program_same_nodes(s0, id, r.0, name.name@);
                if let Some(node) = s0.node_place(id, name.name@) {
                    place_is_inside(s0, id, name.name@);
                    let found = mentioned(m, body);
                    signal_reads_stay_sound(s0, id, r.0, r.1, m, node, found.reads);
                    let q = signal_reads(r.0, r.1, id, m, node, found.reads);
                    signal_calls_stay_sound(s0, id, q.0, q.1, m, node, found.calls);
                }
            },
            ast::MemberKind::On { input, params, body, .. } => {
                reveal(wire_handler);
                if let Some(i) = r.0.input_place(id, input.name@) {
                    handler_writes_keep_edges(
                        r.0,
                        r.1,
                        id,
                        m,
                        i,
                        mentioned_by_handler(m, params@, body).writes,
                    );
                }
            },
            ast::MemberKind::Input { .. } => {},
        }
    }
}

proof fn place_is_inside(s: State, id: ReactorId, name: Seq<char>)
    ensures
        s.node_place(id, name) matches Some(i) ==> 0 <= i < s.reactor_nodes(id).len(),
{
    reveal(State::node_place);
    place_is_first(node_names(s.reactor_nodes(id)), name);
}

/// Where no signals close a cycle, nothing does: a state cell depends on parameters alone.
proof fn only_signals_close_cycles(nodes: Seq<model::Node>, deps: Seq<Seq<usize>>)
    requires
        stratified(nodes, deps),
        deps.len() <= usize::MAX,
        first_cycle(deps, signals(nodes)) is None,
    ensures
        crate::order::acyclic(deps),
{
    let all = everything(deps.len());
    first_cycle_is_right(deps, signals(nodes));
    assert forall|c: Seq<usize>| !(#[trigger] is_cycle(deps, all, c)) by {
        if is_cycle(deps, all, c) {
            let last = c.len() - 1;
            assert forall|i: int| 0 <= i < last implies flag(
                signals(nodes),
                #[trigger] c[i],
            ) by {
                assert(edges(deps, c[i] as int).contains(c[i + 1]));
                assert(deps[c[i] as int].contains(c[i + 1]));
                if !(nodes[c[i] as int].kind is Signal) {
                    assert(nodes[c[i + 1] as int].kind is Param);
                    let j = if i + 1 < last {
                        i + 1
                    } else {
                        0
                    };
                    assert(c[j] == c[i + 1]);
                    assert(edges(deps, c[j] as int).contains(c[j + 1]));
                    assert(deps[c[j] as int].contains(c[j + 1]));
                }
            }
            assert forall|i: int| 0 <= i < c.len() - 1 implies #[trigger] edges(
                deps,
                c[i] as int,
            ).contains(c[i + 1]) && flag(signals(nodes), c[i + 1]) by {
                if i + 1 < last {
                    assert(flag(signals(nodes), c[i + 1]));
                } else {
                    assert(flag(signals(nodes), c[0]));
                }
            }
            assert(is_cycle(deps, signals(nodes), c));
        }
    }
}

/// The order of an accepted reactor lists every node once, and each after everything it depends on.
/// Two members under one name are reported when they are declared, and left out here.
pub proof fn accepted_graphs_are_in_order(s: State, id: ReactorId, decl: ast::ReactorDecl)
    requires
        names_apart(s.reactor_nodes(id)),
        s.reactor_nodes(id).len() <= usize::MAX,
        forall|i: int|
            0 <= i < decl.members@.len() ==> well_placed(s, id, #[trigger] decl.members@[i]),
        scan_reactor(s, id, decl).1.ok,
    ensures
        ({
            let w = scan_reactor(s, id, decl).1;
            &&& lists_all(w.deps, w.order)
            &&& respects(w.deps, w.order)
        }),
{
    reveal(scan_reactor);
    reveal(acyclic);
    reveal(ordered);
    reveal(Wires::broken);
    let bare = Wires::bare(s.reactor_nodes(id).len(), s.reactor_inputs(id).len());
    members_stay_sound(s, id, bare, decl.members@);
    let r = wire_members(s, bare, id, member_namespace(s, id), decl.members@);
    same_program_same_nodes(s, id, r.0, seq![]);
    only_signals_close_cycles(s.reactor_nodes(id), r.1.deps);
    sorted_is_a_permutation(r.1.deps);
    sorted_respects_dependencies(r.1.deps);
}

// ---------------------------------------------------------------- carrying it out

/// The executable side of [`Wires`].
pub struct Wiring {
    pub deps: Vec<Vec<usize>>,
    pub order: Vec<usize>,
    pub writes: Vec<Vec<usize>>,
    pub ok: bool,
}

impl Wiring {
    #[verifier::opaque]
    pub open spec fn view(&self) -> Wires {
        Wires {
            deps: lists(self.deps@),
            order: self.order@,
            writes: lists(self.writes@),
            ok: self.ok,
        }
    }

    /// The order lists nodes that there are.
    pub open spec fn wf(&self) -> bool {
        forall|i: int| 0 <= i < self.order@.len() ==> #[trigger] self.order@[i] < self.deps@.len()
    }

    fn bare(nodes: usize, inputs: usize) -> (r: Wiring)
        ensures
            r@ == Wires::bare(nodes as nat, inputs as nat),
            r.wf(),
    {
        let r = Wiring { deps: rows(nodes), order: Vec::new(), writes: rows(inputs), ok: true };
        proof {
            reveal(Wiring::view);
        }
        assert(r@ =~= Wires::bare(nodes as nat, inputs as nat));
        r
    }

    fn depend(&mut self, node: usize, dep: usize)
        ensures
            final(self)@ == old(self)@.depends(node as int, dep as int),
    {
        proof {
            reveal(Wiring::view);
            reveal(Wires::depends);
        }
        add_to_row(&mut self.deps, node, dep);
    }

    fn assign(&mut self, input: usize, node: usize)
        ensures
            final(self)@ == old(self)@.assigns(input as int, node as int),
    {
        proof {
            reveal(Wiring::view);
            reveal(Wires::assigns);
        }
        add_to_row(&mut self.writes, input, node);
    }

    fn fail(&mut self)
        ensures
            final(self)@ == old(self)@.broken(),
    {
        proof {
            reveal(Wiring::view);
            reveal(Wires::broken);
        }
        self.ok = false;
    }

    fn set_order(self) -> (r: Wiring)
        ensures
            r@ == ordered(self@),
            r.wf(),
    {
        proof {
            reveal(Wiring::view);
            reveal(ordered);
        }
        let n: usize = self.deps.len();
        let order = if self.ok {
            let order = topological(&self.deps);
            proof {
                sorted_is_a_permutation(lists(self.deps@));
            }
            assert forall|i: int| 0 <= i < order@.len() implies #[trigger] order@[i] < n by {
                assert(sorted(lists(self.deps@))[i] < lists(self.deps@).len());
            }
            order
        } else {
            count_to(n)
        };
        Wiring { deps: self.deps, order, writes: self.writes, ok: self.ok }
    }
}

pub open spec fn wirings(s: Seq<Wiring>) -> Seq<Wires> {
    Seq::new(s.len(), |i: int| s[i]@)
}

fn rows(n: usize) -> (r: Vec<Vec<usize>>)
    ensures
        lists(r@) == Seq::new(n as nat, |i: int| Seq::<usize>::empty()),
{
    let mut r: Vec<Vec<usize>> = Vec::new();
    for i in 0..n
        invariant
            r.len() == i,
            forall|j: int| 0 <= j < i ==> #[trigger] r@[j]@ == Seq::<usize>::empty(),
    {
        r.push(Vec::new());
    }
    assert(lists(r@) =~= Seq::new(n as nat, |i: int| Seq::<usize>::empty()));
    r
}

fn count_to(n: usize) -> (r: Vec<usize>)
    ensures
        r@ == counting(n as nat),
{
    let mut r: Vec<usize> = Vec::new();
    for i in 0..n
        invariant
            r@ == counting(i as nat),
    {
        r.push(i);
        assert(r@ =~= counting((i + 1) as nat));
    }
    r
}

fn add_to_row(rows: &mut Vec<Vec<usize>>, at: usize, value: usize)
    ensures
        lists(final(rows)@) == row_with(lists(old(rows)@), at as int, value),
{
    if at < rows.len() {
        assert(lists(rows@)[at as int] == rows@[at as int]@);
        if !holds_number(&rows[at], value) {
            rows[at].push(value);
        }
        assert(lists(rows@) =~= row_with(lists(old(rows)@), at as int, value));
    }
}

pub fn ids_of(list: &Vec<usize>) -> (r: Vec<NodeId>)
    ensures
        r@ == node_ids(list@),
{
    let mut r: Vec<NodeId> = Vec::new();
    for i in 0..list.len()
        invariant
            r.len() == i,
            forall|j: int| 0 <= j < i ==> #[trigger] r@[j] == NodeId(list@[j] as u32),
    {
        let n: usize = list[i];
        r.push(NodeId(#[verifier::truncate] (n as u32)));
    }
    assert(r@ =~= node_ids(list@));
    r
}

fn add_node_sorts(nodes: &Vec<Node>) -> (r: Table<Sort>)
    ensures
        r@ == node_sorts(nodes_of(nodes@)),
{
    let mut r: Table<Sort> = Table::new();
    let ghost all = nodes_of(nodes@);
    assert(all.take(0) =~= seq![]);
    for i in 0..nodes.len()
        invariant
            all == nodes_of(nodes@),
            r@ == node_sorts(all.take(i as int)),
    {
        assert(all.take(i + 1).drop_last() =~= all.take(i as int));
        let sort = match nodes[i].kind {
            NodeKind::Param { .. } => Sort::Param,
            NodeKind::State { .. } => Sort::State,
            NodeKind::Signal { .. } => Sort::Signal,
        };
        r.insert(nodes[i].name.as_str(), sort);
    }
    assert(all.take(nodes.len() as int) =~= all);
    r
}

fn add_input_sorts(m: Table<Sort>, inputs: &Vec<InputDef>) -> (r: Table<Sort>)
    ensures
        r@ == with_input_sorts(m@, crate::hir::inputs_of(inputs@)),
{
    let mut r = m;
    let ghost start = r@;
    let ghost all = crate::hir::inputs_of(inputs@);
    assert(all.take(0) =~= seq![]);
    for i in 0..inputs.len()
        invariant
            all == crate::hir::inputs_of(inputs@),
            r@ == with_input_sorts(start, all.take(i as int)),
    {
        assert(all.take(i + 1).drop_last() =~= all.take(i as int));
        r.insert(inputs[i].name.as_str(), Sort::Input);
    }
    assert(all.take(inputs.len() as int) =~= all);
    r
}

fn step_text(names: &Vec<String>, step: usize) -> (r: String)
    requires
        step < usize::MAX,
    ensures
        r@ == dependence(texts(names@), step as int),
{
    let from = string_at(names, step);
    let to = string_at(names, step + 1);
    "`".to_owned().concat(from.as_str()).concat("` depends on `").concat(to.as_str()).concat("`")
}

impl Checker {
    pub fn member_namespace(&self, id: ReactorId) -> (r: Table<Sort>)
        ensures
            r@ == member_namespace(self@, id),
    {
        proof {
            reveal(Checker::view);
            reveal(member_namespace);
            reveal(State::reactor_nodes);
            reveal(State::reactor_inputs);
        }
        if id.index() < self.program.reactors.len() {
            let reactor = &self.program.reactors[id.index()];
            add_input_sorts(add_node_sorts(&reactor.nodes), &reactor.inputs)
        } else {
            Table::new()
        }
    }

    /// How many nodes and how many inputs a reactor was declared with.
    fn sizes(&self, id: ReactorId) -> (r: (usize, usize))
        ensures
            r.0 == self@.reactor_nodes(id).len(),
            r.1 == self@.reactor_inputs(id).len(),
    {
        proof {
            reveal(Checker::view);
            reveal(State::reactor_nodes);
            reveal(State::reactor_inputs);
        }
        if id.index() < self.program.reactors.len() {
            let reactor = &self.program.reactors[id.index()];
            (reactor.nodes.len(), reactor.inputs.len())
        } else {
            (0, 0)
        }
    }

    fn called_elsewhere(&self, name: &str) -> (r: bool)
        ensures
            r == called_elsewhere(self@, name@),
    {
        proof {
            reveal(called_elsewhere);
        }
        self.builtin_named(name).is_some() || self.fn_named(name).is_some() || self.type_named(
            name,
        ).is_some()
    }

    fn edge(&self, w: &mut Wiring, id: ReactorId, node: usize, name: &str)
        ensures
            final(w)@ == edge(self@, old(w)@, id, node as int, name@),
    {
        proof {
            reveal(edge);
        }
        if let Some(dep) = self.node_place(id, name) {
            w.depend(node, dep);
        }
    }

    fn initial_read(
        &mut self,
        w: &mut Wiring,
        id: ReactorId,
        m: &Table<Sort>,
        node: usize,
        name: &str,
        span: Span,
    )
        ensures
            final(self)@ == initial_read(old(self)@, old(w)@, id, m@, node as int, (name@, span)).0,
            final(w)@ == initial_read(old(self)@, old(w)@, id, m@, node as int, (name@, span)).1,
    {
        proof {
            reveal(initial_read);
        }
        match m.get(name) {
            Some(Sort::Param) => self.edge(w, id, node, name),
            Some(sort) => {
                self.push(say::init_reads(span, sort.describe(), name));
                w.fail();
            },
            None => {},
        }
    }

    fn initial_reads(
        &mut self,
        w: &mut Wiring,
        id: ReactorId,
        m: &Table<Sort>,
        node: usize,
        list: &Vec<(String, Span)>,
    )
        ensures
            final(self)@ == initial_reads(
                old(self)@,
                old(w)@,
                id,
                m@,
                node as int,
                sites(list@),
            ).0,
            final(w)@ == initial_reads(old(self)@, old(w)@, id, m@, node as int, sites(list@)).1,
    {
        let ghost start = self@;
        let ghost wires = w@;
        let ghost all = sites(list@);
        assert(all.take(0) =~= seq![]);
        for i in 0..list.len()
            invariant
                all == sites(list@),
                self@ == initial_reads(start, wires, id, m@, node as int, all.take(i as int)).0,
                w@ == initial_reads(start, wires, id, m@, node as int, all.take(i as int)).1,
        {
            assert(all.take(i + 1).drop_last() =~= all.take(i as int));
            self.initial_read(w, id, m, node, list[i].0.as_str(), list[i].1);
        }
        assert(all.take(list.len() as int) =~= all);
    }

    fn initial_call(&mut self, w: &mut Wiring, m: &Table<Sort>, name: &str, span: Span)
        ensures
            final(self)@ == initial_call(old(self)@, old(w)@, m@, (name@, span)).0,
            final(w)@ == initial_call(old(self)@, old(w)@, m@, (name@, span)).1,
    {
        proof {
            reveal(initial_call);
        }
        if self.called_elsewhere(name) {
            return;
        }
        if let Some(sort) = m.get(name) {
            self.push(say::init_calls(span, sort.describe(), name));
            w.fail();
        }
    }

    fn initial_calls(&mut self, w: &mut Wiring, m: &Table<Sort>, list: &Vec<(String, Span)>)
        ensures
            final(self)@ == initial_calls(old(self)@, old(w)@, m@, sites(list@)).0,
            final(w)@ == initial_calls(old(self)@, old(w)@, m@, sites(list@)).1,
    {
        let ghost start = self@;
        let ghost wires = w@;
        let ghost all = sites(list@);
        assert(all.take(0) =~= seq![]);
        for i in 0..list.len()
            invariant
                all == sites(list@),
                self@ == initial_calls(start, wires, m@, all.take(i as int)).0,
                w@ == initial_calls(start, wires, m@, all.take(i as int)).1,
        {
            assert(all.take(i + 1).drop_last() =~= all.take(i as int));
            self.initial_call(w, m, list[i].0.as_str(), list[i].1);
        }
        assert(all.take(list.len() as int) =~= all);
    }

    fn signal_read(
        &mut self,
        w: &mut Wiring,
        id: ReactorId,
        m: &Table<Sort>,
        node: usize,
        name: &str,
        span: Span,
    )
        ensures
            final(self)@ == signal_read(old(self)@, old(w)@, id, m@, node as int, (name@, span)).0,
            final(w)@ == signal_read(old(self)@, old(w)@, id, m@, node as int, (name@, span)).1,
    {
        proof {
            reveal(signal_read);
        }
        match m.get(name) {
            Some(Sort::Input) => {
                self.unreadable_member(name, Sort::Input, span);
                w.fail();
            },
            Some(_) => self.edge(w, id, node, name),
            None => {},
        }
    }

    fn signal_reads(
        &mut self,
        w: &mut Wiring,
        id: ReactorId,
        m: &Table<Sort>,
        node: usize,
        list: &Vec<(String, Span)>,
    )
        ensures
            final(self)@ == signal_reads(
                old(self)@,
                old(w)@,
                id,
                m@,
                node as int,
                sites(list@),
            ).0,
            final(w)@ == signal_reads(old(self)@, old(w)@, id, m@, node as int, sites(list@)).1,
    {
        let ghost start = self@;
        let ghost wires = w@;
        let ghost all = sites(list@);
        assert(all.take(0) =~= seq![]);
        for i in 0..list.len()
            invariant
                all == sites(list@),
                self@ == signal_reads(start, wires, id, m@, node as int, all.take(i as int)).0,
                w@ == signal_reads(start, wires, id, m@, node as int, all.take(i as int)).1,
        {
            assert(all.take(i + 1).drop_last() =~= all.take(i as int));
            self.signal_read(w, id, m, node, list[i].0.as_str(), list[i].1);
        }
        assert(all.take(list.len() as int) =~= all);
    }

    fn signal_call(&self, w: &mut Wiring, id: ReactorId, m: &Table<Sort>, node: usize, name: &str)
        ensures
            final(w)@ == signal_call(self@, old(w)@, id, m@, node as int, name@),
    {
        proof {
            reveal(signal_call);
        }
        if !self.called_elsewhere(name) {
            if let Some(Sort::Signal) = m.get(name) {
                self.edge(w, id, node, name);
            }
        }
    }

    fn signal_calls(
        &self,
        w: &mut Wiring,
        id: ReactorId,
        m: &Table<Sort>,
        node: usize,
        list: &Vec<(String, Span)>,
    )
        ensures
            final(w)@ == signal_calls(self@, old(w)@, id, m@, node as int, sites(list@)),
    {
        let ghost wires = w@;
        let ghost all = sites(list@);
        assert(all.take(0) =~= seq![]);
        for i in 0..list.len()
            invariant
                all == sites(list@),
                w@ == signal_calls(self@, wires, id, m@, node as int, all.take(i as int)),
        {
            assert(all.take(i + 1).drop_last() =~= all.take(i as int));
            self.signal_call(w, id, m, node, list[i].0.as_str());
        }
        assert(all.take(list.len() as int) =~= all);
    }

    fn handler_write(
        &self,
        w: &mut Wiring,
        id: ReactorId,
        m: &Table<Sort>,
        input: usize,
        name: &str,
    )
        ensures
            final(w)@ == handler_write(self@, old(w)@, id, m@, input as int, name@),
    {
        proof {
            reveal(handler_write);
        }
        if let Some(Sort::State) = m.get(name) {
            if let Some(node) = self.node_place(id, name) {
                w.assign(input, node);
            }
        }
    }

    fn handler_writes(
        &self,
        w: &mut Wiring,
        id: ReactorId,
        m: &Table<Sort>,
        input: usize,
        list: &Vec<(String, Span)>,
    )
        ensures
            final(w)@ == handler_writes(self@, old(w)@, id, m@, input as int, sites(list@)),
    {
        let ghost wires = w@;
        let ghost all = sites(list@);
        assert(all.take(0) =~= seq![]);
        for i in 0..list.len()
            invariant
                all == sites(list@),
                w@ == handler_writes(self@, wires, id, m@, input as int, all.take(i as int)),
        {
            assert(all.take(i + 1).drop_last() =~= all.take(i as int));
            self.handler_write(w, id, m, input, list[i].0.as_str());
        }
        assert(all.take(list.len() as int) =~= all);
    }

    fn wire_state(
        &mut self,
        w: &mut Wiring,
        id: ReactorId,
        m: &Table<Sort>,
        name: &str,
        init: &ast::Expr,
    )
        ensures
            final(self)@ == wire_state(old(self)@, old(w)@, id, m@, name@, *init).0,
            final(w)@ == wire_state(old(self)@, old(w)@, id, m@, name@, *init).1,
    {
        proof {
            reveal(wire_state);
            reveal(crate::scan::Scan::view);
        }
        if let Some(node) = self.node_place(id, name) {
            let found = scan(m, init);
            self.initial_reads(w, id, m, node, &found.reads);
            self.initial_calls(w, m, &found.calls);
        }
    }

    fn wire_signal(
        &mut self,
        w: &mut Wiring,
        id: ReactorId,
        m: &Table<Sort>,
        name: &str,
        body: &ast::Expr,
    )
        ensures
            final(self)@ == wire_signal(old(self)@, old(w)@, id, m@, name@, *body).0,
            final(w)@ == wire_signal(old(self)@, old(w)@, id, m@, name@, *body).1,
    {
        proof {
            reveal(wire_signal);
            reveal(crate::scan::Scan::view);
        }
        if let Some(node) = self.node_place(id, name) {
            let found = scan(m, body);
            self.signal_reads(w, id, m, node, &found.reads);
            self.signal_calls(w, id, m, node, &found.calls);
        }
    }

    fn wire_handler(
        &self,
        w: &mut Wiring,
        id: ReactorId,
        m: &Table<Sort>,
        input: &str,
        params: &Vec<ast::HandlerParam>,
        body: &ast::Block,
    )
        ensures
            final(w)@ == wire_handler(self@, old(w)@, id, m@, input@, params@, *body),
    {
        proof {
            reveal(wire_handler);
            reveal(crate::scan::Scan::view);
        }
        if let Some(i) = self.input_place(id, input) {
            let found = scan_handler(m, params, body);
            self.handler_writes(w, id, m, i, &found.writes);
        }
    }

    fn wire_member(
        &mut self,
        w: &mut Wiring,
        id: ReactorId,
        m: &Table<Sort>,
        member: &ast::Member,
    )
        ensures
            final(self)@ == wire_member(old(self)@, old(w)@, id, m@, *member).0,
            final(w)@ == wire_member(old(self)@, old(w)@, id, m@, *member).1,
    {
        proof {
            reveal(wire_member);
        }
        match &member.kind {
            ast::MemberKind::State { name, init, .. } => {
                self.wire_state(w, id, m, name.name.as_str(), init);
            },
            ast::MemberKind::Signal { name, body, .. } => {
                self.wire_signal(w, id, m, name.name.as_str(), body);
            },
            ast::MemberKind::On { input, params, body, .. } => {
                self.wire_handler(w, id, m, input.name.as_str(), params, body);
            },
            ast::MemberKind::Input { .. } => {},
        }
    }

    fn wire_members(
        &mut self,
        w: &mut Wiring,
        id: ReactorId,
        m: &Table<Sort>,
        members: &Vec<ast::Member>,
    )
        ensures
            final(self)@ == wire_members(old(self)@, old(w)@, id, m@, members@).0,
            final(w)@ == wire_members(old(self)@, old(w)@, id, m@, members@).1,
    {
        let ghost start = self@;
        let ghost wires = w@;
        let ghost all = members@;
        assert(all.take(0) =~= seq![]);
        for i in 0..members.len()
            invariant
                all == members@,
                self@ == wire_members(start, wires, id, m@, all.take(i as int)).0,
                w@ == wire_members(start, wires, id, m@, all.take(i as int)).1,
        {
            assert(all.take(i + 1).drop_last() =~= all.take(i as int));
            self.wire_member(w, id, m, &members[i]);
        }
        assert(all.take(members.len() as int) =~= all);
    }

    fn signals(&self, id: ReactorId) -> (r: Vec<bool>)
        ensures
            r@ == signals(self@.reactor_nodes(id)),
    {
        proof {
            reveal(Checker::view);
            reveal(State::reactor_nodes);
        }
        let mut r: Vec<bool> = Vec::new();
        if id.index() < self.program.reactors.len() {
            let nodes = &self.program.reactors[id.index()].nodes;
            for i in 0..nodes.len()
                invariant
                    r.len() == i,
                    forall|j: int| 0 <= j < i ==> #[trigger] r@[j] == (nodes@[j].kind is Signal),
            {
                let signal = match nodes[i].kind {
                    NodeKind::Signal { .. } => true,
                    _ => false,
                };
                r.push(signal);
            }
        }
        assert(r@ =~= signals(self@.reactor_nodes(id)));
        r
    }

    /// The name and the place of a node.
    pub fn node_label(&self, id: ReactorId, node: usize) -> (r: (String, Span))
        ensures
            r.0@ == name_of(self@, id, node as int),
            r.1 == span_of(self@, id, node as int),
    {
        proof {
            reveal(Checker::view);
            reveal(State::node);
            reveal(State::reactor_nodes);
        }
        if id.index() < self.program.reactors.len() {
            let nodes = &self.program.reactors[id.index()].nodes;
            if node < nodes.len() {
                return (nodes[node].name.clone(), nodes[node].span);
            }
        }
        ("_".to_owned(), Span::new(0, 0))
    }

    fn report_cycle(&mut self, id: ReactorId, cycle: &Vec<usize>)
        requires
            cycle.len() > 0,
        ensures
            final(self)@ == old(self)@.push(cycle_report(old(self)@, id, cycle@)),
    {
        proof {
            reveal(cycle_report);
        }
        let mut names: Vec<String> = Vec::new();
        for i in 0..cycle.len()
            invariant
                names.len() == i,
                forall|j: int|
                    0 <= j < i ==> #[trigger] names@[j]@ == name_of(self@, id, cycle@[j] as int),
        {
            let (name, _) = self.node_label(id, cycle[i]);
            names.push(name);
        }
        assert(texts(names@) =~= cycle_names(self@, id, cycle@));
        let (_, head) = self.node_label(id, cycle[0]);
        let path = join(&names, " → ");
        let label = step_text(&names, 0);
        let mut d = say::causality_cycle(head, path.as_str(), label.as_str());
        let ghost base = d@;
        let n: usize = cycle.len() - 1;
        let mut i: usize = 1;
        while i < n
            invariant
                n == cycle.len() - 1,
                1 <= i,
                i <= n || i == 1,
                texts(names@) == cycle_names(self@, id, cycle@),
                d@ == with_steps(base, self@, id, cycle@, texts(names@), i as nat),
            decreases n - i,
        {
            let (_, span) = self.node_label(id, cycle[i]);
            let label = step_text(&names, i);
            d = d.secondary(span, label.as_str());
            i = i + 1;
        }
        self.push(
            d.note(
                "a signal is its expression, so a cycle among signals has no value to settle on",
            ).note(
                "break it with a `state` cell: state is the temporal boundary a feedback loop has to cross",
            ),
        );
    }

    fn acyclic(&mut self, w: &mut Wiring, id: ReactorId)
        ensures
            final(self)@ == acyclic(old(self)@, old(w)@, id).0,
            final(w)@ == acyclic(old(self)@, old(w)@, id).1,
    {
        proof {
            reveal(acyclic);
            reveal(Wiring::view);
        }
        let active = self.signals(id);
        if let Some(cycle) = find_first_cycle(&w.deps, &active) {
            if cycle.len() > 0 {
                self.report_cycle(id, &cycle);
            }
            w.fail();
        }
    }

    fn set_wires(&mut self, id: ReactorId, w: &Wiring)
        ensures
            final(self)@ == old(self)@.with_wires(id, w@),
    {
        proof {
            reveal(Checker::view);
            reveal(Wiring::view);
            reveal(State::with_wires);
        }
        let at: usize = id.index();
        if at < self.program.reactors.len() {
            let ghost before = nodes_of(self.program.reactors@[at as int].nodes@);
            let ghost deps = lists(w.deps@);
            let n: usize = self.program.reactors[at].nodes.len();
            for i in 0..n
                invariant
                    at < self.program.reactors.len(),
                    n == self.program.reactors@[at as int].nodes.len(),
                    deps == lists(w.deps@),
                    before.len() == n,
                    self.program.reactors.len() == old(self).program.reactors.len(),
                    forall|j: int|
                        0 <= j < n ==> #[trigger] self.program.reactors@[at as int].nodes@[j]@
                            == if j < i && j < deps.len() {
                            model::Node { deps: node_ids(deps[j]), ..before[j] }
                        } else {
                            before[j]
                        },
                    forall|j: int|
                        0 <= j < self.program.reactors.len() && j != at
                            ==> #[trigger] self.program.reactors@[j]
                            == old(self).program.reactors@[j],
                    *self == (Checker { program: self.program, ..*old(self) }),
                    self.program == (crate::hir::Program {
                        reactors: self.program.reactors,
                        ..old(self).program
                    }),
                    self.program.reactors@[at as int] == (crate::hir::ReactorDef {
                        nodes: self.program.reactors@[at as int].nodes,
                        ..old(self).program.reactors@[at as int]
                    }),
            {
                if i < w.deps.len() {
                    let found = ids_of(&w.deps[i]);
                    assert(deps[i as int] == w.deps@[i as int]@);
                    let ghost was = self.program.reactors@[at as int].nodes@;
                    let ghost one = was[i as int];
                    self.program.reactors[at].nodes[i].deps = found;
                    let ghost now = self.program.reactors@[at as int].nodes@;
                    assert(now[i as int] == (Node { deps: found, ..one }));
                    assert(now[i as int]@ =~= model::Node { deps: found@, ..one@ });
                    assert(forall|j: int| 0 <= j < n && j != i ==> now[j] == was[j]);
                }
            }
            assert(nodes_of(self.program.reactors@[at as int].nodes@) =~= wired_nodes(
                before,
                deps,
            ));
            self.program.reactors[at].order = ids_of(&w.order);
            assert(reactors_of(self.program.reactors@) =~= reactors_of(
                old(self).program.reactors@,
            ).update(
                at as int,
                model::ReactorDef {
                    nodes: wired_nodes(before, deps),
                    order: node_ids(w.order@),
                    ..reactors_of(old(self).program.reactors@)[at as int]
                },
            ));
        }
    }

    fn scan_reactor(&mut self, id: ReactorId, decl: &ast::ReactorDecl) -> (r: Wiring)
        ensures
            final(self)@ == scan_reactor(old(self)@, id, *decl).0,
            r@ == scan_reactor(old(self)@, id, *decl).1,
            r.wf(),
    {
        proof {
            reveal(scan_reactor);
        }
        let m = self.member_namespace(id);
        let (nodes, inputs) = self.sizes(id);
        let mut w = Wiring::bare(nodes, inputs);
        self.wire_members(&mut w, id, &m, &decl.members);
        self.acyclic(&mut w, id);
        let w = w.set_order();
        self.set_wires(id, &w);
        w
    }

    pub fn scan_reactors(&mut self, module: &ast::Module) -> (r: Vec<Wiring>)
        ensures
            final(self)@ == scan_reactors(old(self)@, *module).0,
            wirings(r@) == scan_reactors(old(self)@, *module).1,
            forall|i: int| 0 <= i < r.len() ==> (#[trigger] r@[i]).wf(),
    {
        proof {
            reveal(scan_reactors);
        }
        let (ids, places) = self.reactor_items(&module.items);
        let mut r: Vec<Wiring> = Vec::new();
        let ghost start = self@;
        assert(ids@.take(0) =~= seq![]);
        assert(wirings(r@) =~= seq![]);
        for i in 0..ids.len()
            invariant
                ids.len() == places.len(),
                self@ == scan_each(
                    start,
                    module.items@,
                    ids@.take(i as int),
                    places@.take(i as int),
                ).0,
                wirings(r@) == scan_each(
                    start,
                    module.items@,
                    ids@.take(i as int),
                    places@.take(i as int),
                ).1,
                forall|i: int| 0 <= i < r.len() ==> (#[trigger] r@[i]).wf(),
        {
            assert(ids@.take(i + 1).drop_last() =~= ids@.take(i as int));
            assert(places@.take(i + 1).drop_last() =~= places@.take(i as int));
            let at: usize = places[i];
            if at < module.items.len() {
                if let ast::Item::Reactor(decl) = &module.items[at] {
                    let w = self.scan_reactor(ids[i], decl);
                    let ghost before = wirings(r@);
                    r.push(w);
                    assert(wirings(r@) =~= before.push(w@));
                }
            }
        }
        assert(ids@.take(ids.len() as int) =~= ids@);
        assert(places@.take(ids.len() as int) =~= places@);
        r
    }
}

} // verus!
