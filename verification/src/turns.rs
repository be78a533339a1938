//! What a turn may reach: nothing the world can see happen, and nothing that might not end.
//!
//! Both are properties of the call graph rather than of one expression. A turn terminates because
//! the code it can reach contains neither recursion nor loops, so it is a finite tree of calls
//! over bounded expressions.

use vstd::prelude::*;
use vstd::string::*;
use crate::cycle::{cycle_from, find_cycle_from};
use crate::filing::{add_all, adding_adds_up, adding_nothing, file_each, filed, push};
use crate::graph::{everything, find_nearest, flag, lists, nearest, nearest_misses_nothing, reaches};
use crate::hir::{
    exprs, inputs_of, nodes_of, Builtin, Expr, ExprKind, FnId, NodeKind, Overflow, Program,
    ReactorId, Stmt, StmtKind, Ty, Vocabulary,
};
use crate::model;
use crate::sink::{builtin_name, fn_name, owned, report_each};
use crate::span::{texts, Diagnostic, Report, Span};
use crate::text::{join, joined};
use crate::walk::{callees, collect_calls, seen, seen_stmts, stmts_among, walk, walk_stmts, within};

verus! {

// ---------------------------------------------------------------- the shared diagnostics

/// The one diagnostic every purity rule shares.
pub open spec fn impure_report(what: Seq<char>, does: Seq<char>, span: Span) -> Report {
    Report::new(
        span,
        "`"@ + what + "` cannot appear in a reactor, because it "@ + does,
    ).label("a turn is pure"@).note(
        "a turn runs to a fixed point with nothing able to observe it part-way; effects leave it through `after`"@,
    )
}

pub fn impure(what: &str, does: &str, span: Span) -> (d: Diagnostic)
    ensures
        d@ == impure_report(what@, does@, span),
{
    Diagnostic::new(
        span,
        "`".to_owned().concat(what).concat("` cannot appear in a reactor, because it ").concat(
            does,
        ),
    ).label("a turn is pure").note(
        "a turn runs to a fixed point with nothing able to observe it part-way; effects leave it through `after`",
    )
}

/// The diagnostic for a loop written in a turn: purity is why a turn cannot be observed,
/// termination is why it is over.
pub open spec fn unterminating_report(what: Seq<char>, span: Span) -> Report {
    Report::new(
        span,
        "a `"@ + what + "` cannot appear in a turn, because a turn must end"@,
    ).label("a loop is not provably finite"@).note(
        "turn-reachable code has neither loops nor recursion, which is what makes every turn provably terminating"@,
    ).note(
        "compute the value with a bounded expression, or move the work into a `task fn` and request it with `after`"@,
    )
}

pub fn unterminating(what: &str, span: Span) -> (d: Diagnostic)
    ensures
        d@ == unterminating_report(what@, span),
{
    Diagnostic::new(
        span,
        "a `".to_owned().concat(what).concat(
            "` cannot appear in a turn, because a turn must end",
        ),
    ).label("a loop is not provably finite").note(
        "turn-reachable code has neither loops nor recursion, which is what makes every turn provably terminating",
    ).note(
        "compute the value with a bounded expression, or move the work into a `task fn` and request it with `after`",
    )
}

// ---------------------------------------------------------------- the first of something

/// What `f` first finds among several expressions.
pub open spec fn first_of<T>(
    es: Seq<model::Expr>,
    f: spec_fn(model::Expr) -> Option<T>,
) -> Option<T>
    decreases es.len(),
{
    if es.len() == 0 {
        None
    } else {
        match f(es[0]) {
            Some(x) => Some(x),
            None => first_of(es.skip(1), f),
        }
    }
}

/// A call the world can see happen.
pub open spec fn impurity(v: model::Vocabulary, e: model::Expr) -> Option<(Builtin, Span)> {
    match e.kind {
        model::ExprKind::Builtin { builtin, .. } => if v.knows(builtin) && !v.builtin(
            builtin,
        ).pure_call {
            Some((builtin, e.span))
        } else {
            None
        },
        _ => None,
    }
}

/// The first impure builtin an expression calls, if any.
pub open spec fn first_impurity(
    v: model::Vocabulary,
    body: model::Expr,
) -> Option<(Builtin, Span)> {
    first_of(within(body), |e: model::Expr| impurity(v, e))
}

pub fn impure_builtin(vocabulary: &Vocabulary, expr: &Expr) -> (r: Option<(Builtin, Span)>)
    ensures
        r == first_impurity(vocabulary@, expr@),
{
    let mut es: Vec<&Expr> = Vec::new();
    assert(seen(es@) =~= seq![]);
    walk(expr, &mut es);
    let ghost all = within(expr@);
    let ghost f = |e: model::Expr| impurity(vocabulary@, e);
    assert(seen(es@) =~= all);
    assert(all.skip(0) =~= all);
    for i in 0..es.len()
        invariant
            all == seen(es@),
            all == within(expr@),
            f == (|e: model::Expr| impurity(vocabulary@, e)),
            first_of(all.skip(i as int), f) == first_of(all, f),
    {
        let e = es[i];
        proof {
            e.look();
            assert(all.skip(i as int)[0] == e@);
            assert(all.skip(i as int).skip(1) =~= all.skip(i + 1));
        }
        if let ExprKind::Builtin { builtin, .. } = &e.kind {
            let known = match builtin {
                Builtin::Host(entry) => (*entry as usize) < vocabulary.host.len(),
                _ => true,
            };
            if known && !vocabulary.builtin(*builtin).pure_call {
                return Some((*builtin, e.span));
            }
        }
        assert(f(e@) is None);
    }
    assert(all.skip(es.len() as int) =~= seq![]);
    None
}

/// A loop: which word to blame, and where.
pub open spec fn loop_at(e: model::Expr) -> Option<(Seq<char>, Span)> {
    match e.kind {
        model::ExprKind::While { .. } => Some(("while"@, e.span)),
        model::ExprKind::Loop { .. } => Some(("loop"@, e.span)),
        _ => None,
    }
}

/// The first loop an expression contains, if any.
pub open spec fn first_loop_in(body: model::Expr) -> Option<(Seq<char>, Span)> {
    first_of(within(body), |e: model::Expr| loop_at(e))
}

pub open spec fn word(r: Option<(&'static str, Span)>) -> Option<(Seq<char>, Span)> {
    match r {
        Some((what, at)) => Some((what@, at)),
        None => None,
    }
}

pub fn first_loop(expr: &Expr) -> (r: Option<(&'static str, Span)>)
    ensures
        word(r) == first_loop_in(expr@),
{
    let mut es: Vec<&Expr> = Vec::new();
    assert(seen(es@) =~= seq![]);
    walk(expr, &mut es);
    let ghost all = within(expr@);
    let ghost f = |e: model::Expr| loop_at(e);
    assert(seen(es@) =~= all);
    assert(all.skip(0) =~= all);
    for i in 0..es.len()
        invariant
            all == seen(es@),
            all == within(expr@),
            f == (|e: model::Expr| loop_at(e)),
            first_of(all.skip(i as int), f) == first_of(all, f),
    {
        let e = es[i];
        proof {
            e.look();
            assert(all.skip(i as int)[0] == e@);
            assert(all.skip(i as int).skip(1) =~= all.skip(i + 1));
        }
        match &e.kind {
            ExprKind::While { .. } => {
                return Some(("while", e.span));
            },
            ExprKind::Loop { .. } => {
                return Some(("loop", e.span));
            },
            _ => {},
        }
        assert(f(e@) is None);
    }
    assert(all.skip(es.len() as int) =~= seq![]);
    None
}

/// One `send` to a `wait` port: where it is written, and which port it names.
#[derive(Clone, Copy, PartialEq, Eq, Structural, Debug)]
pub struct WaitSend {
    pub span: Span,
    pub reactor: ReactorId,
    pub input: usize,
}

/// A `send` whose target is a `wait` input.
pub open spec fn wait_send_at(p: model::Program, e: model::Expr) -> Option<WaitSend> {
    match e.kind {
        model::ExprKind::Builtin { builtin: Builtin::Send, args } => if args.len() == 0 {
            None
        } else {
            match args[0].kind {
                model::ExprKind::ReactorInput { reactor, index } => match reactor.ty {
                    model::Ty::Reactor(id) => if id.0 < p.reactors.len() && index
                        < p.reactors[id.0 as int].inputs.len()
                        && p.reactors[id.0 as int].inputs[index as int].overflow
                        == Overflow::Wait {
                        Some(WaitSend { span: e.span, reactor: id, input: index })
                    } else {
                        None
                    },
                    _ => None,
                },
                _ => None,
            }
        },
        _ => None,
    }
}

/// The first `send` in a body whose target is a `wait` input.
pub open spec fn first_wait_send_in(p: model::Program, body: model::Expr) -> Option<WaitSend> {
    first_of(within(body), |e: model::Expr| wait_send_at(p, e))
}

fn wait_send(program: &Program, e: &Expr) -> (r: Option<WaitSend>)
    ensures
        r == wait_send_at(program@, e@),
{
    proof {
        e.look();
    }
    if let ExprKind::Builtin { builtin: Builtin::Send, args } = &e.kind {
        if args.len() > 0 {
            proof {
                args[0].look();
            }
            assert(exprs(args@)[0] == args@[0]@);
            if let ExprKind::ReactorInput { reactor, index } = &args[0].kind {
                proof {
                    reactor.look();
                }
                if let Ty::Reactor(id) = &reactor.ty {
                    let at: usize = id.index();
                    if at < program.reactors.len() && *index < program.reactors[at].inputs.len()
                        && program.reactors[at].inputs[*index].overflow == Overflow::Wait {
                        return Some(WaitSend { span: e.span, reactor: *id, input: *index });
                    }
                }
            }
        }
    }
    None
}

pub fn first_wait_send(program: &Program, expr: &Expr) -> (r: Option<WaitSend>)
    ensures
        r == first_wait_send_in(program@, expr@),
{
    let mut es: Vec<&Expr> = Vec::new();
    assert(seen(es@) =~= seq![]);
    walk(expr, &mut es);
    let ghost all = within(expr@);
    let ghost f = |e: model::Expr| wait_send_at(program@, e);
    assert(seen(es@) =~= all);
    assert(all.skip(0) =~= all);
    for i in 0..es.len()
        invariant
            all == seen(es@),
            all == within(expr@),
            f == (|e: model::Expr| wait_send_at(program@, e)),
            first_of(all.skip(i as int), f) == first_of(all, f),
    {
        let e = es[i];
        proof {
            assert(all.skip(i as int)[0] == e@);
            assert(all.skip(i as int).skip(1) =~= all.skip(i + 1));
        }
        if let Some(send) = wait_send(program, e) {
            assert(f(e@) == Some(send));
            return Some(send);
        }
        assert(f(e@) is None);
    }
    assert(all.skip(es.len() as int) =~= seq![]);
    None
}

/// A statement's `after`, as the statement to blame and the function it starts. An operand that is
/// not a call names no function.
pub open spec fn after_root(it: model::Stmt) -> Seq<(Span, FnId)> {
    match it.kind {
        model::StmtKind::After { task, .. } => match task.kind {
            model::ExprKind::Call { callee, .. } => seq![(it.span, callee)],
            _ => seq![],
        },
        _ => seq![],
    }
}

pub open spec fn after_roots_among(stmts: Seq<model::Stmt>) -> Seq<(Span, FnId)>
    decreases stmts.len(),
{
    if stmts.len() == 0 {
        seq![]
    } else {
        after_roots_among(stmts.drop_last()) + after_root(stmts.last())
    }
}

/// Every `after` in this body, as the statement to blame and the function it starts.
pub fn after_roots(expr: &Expr, out: &mut Vec<(Span, FnId)>)
    ensures
        final(out)@ == old(out)@ + after_roots_among(stmts_among(within(expr@))),
{
    let mut stmts: Vec<&Stmt> = Vec::new();
    assert(seen_stmts(stmts@) =~= seq![]);
    walk_stmts(expr, &mut stmts);
    let ghost all = stmts_among(within(expr@));
    assert(seen_stmts(stmts@) =~= all);
    let ghost before = out@;
    assert(before + seq![] =~= before);
    for i in 0..stmts.len()
        invariant
            all == seen_stmts(stmts@),
            out@ == before + after_roots_among(all.take(i as int)),
    {
        let it = stmts[i];
        let ghost held = out@;
        proof {
            assert(all.take(i + 1).drop_last() =~= all.take(i as int));
            assert(all.take(i + 1).last() == it@);
            assert(held + seq![] =~= held);
        }
        if let StmtKind::After { task, .. } = &it.kind {
            proof {
                task.look();
            }
            if let ExprKind::Call { callee, .. } = &task.kind {
                out.push((it.span, *callee));
                assert(out@ =~= held + seq![(it.span, *callee)]);
            }
        }
        assert(out@ == held + after_root(it@));
        assert(out@ =~= before + (after_roots_among(all.take(i as int)) + after_root(it@)));
    }
    assert(all.take(stmts.len() as int) =~= all);
}

/// A statement's `after` whose operand is itself a `send` to a `wait` input, as the statement to
/// blame and the send.
pub open spec fn after_send(p: model::Program, it: model::Stmt) -> Seq<(Span, WaitSend)> {
    match it.kind {
        model::StmtKind::After { task, .. } => match wait_send_at(p, task) {
            Some(send) => seq![(it.span, send)],
            None => seq![],
        },
        _ => seq![],
    }
}

pub open spec fn after_sends_among(p: model::Program, stmts: Seq<model::Stmt>) -> Seq<
    (Span, WaitSend),
>
    decreases stmts.len(),
{
    if stmts.len() == 0 {
        seq![]
    } else {
        after_sends_among(p, stmts.drop_last()) + after_send(p, stmts.last())
    }
}

/// Every `after` in this body that is itself a `send` to a `wait` input.
pub fn after_sends(program: &Program, expr: &Expr, out: &mut Vec<(Span, WaitSend)>)
    ensures
        final(out)@ == old(out)@ + after_sends_among(program@, stmts_among(within(expr@))),
{
    let mut stmts: Vec<&Stmt> = Vec::new();
    assert(seen_stmts(stmts@) =~= seq![]);
    walk_stmts(expr, &mut stmts);
    let ghost all = stmts_among(within(expr@));
    assert(seen_stmts(stmts@) =~= all);
    let ghost before = out@;
    assert(before + seq![] =~= before);
    for i in 0..stmts.len()
        invariant
            all == seen_stmts(stmts@),
            out@ == before + after_sends_among(program@, all.take(i as int)),
    {
        let it = stmts[i];
        let ghost held = out@;
        proof {
            assert(all.take(i + 1).drop_last() =~= all.take(i as int));
            assert(all.take(i + 1).last() == it@);
            assert(held + seq![] =~= held);
        }
        if let StmtKind::After { task, .. } = &it.kind {
            if let Some(send) = wait_send(program, task) {
                out.push((it.span, send));
                assert(out@ =~= held + seq![(it.span, send)]);
            }
        }
        assert(out@ == held + after_send(program@, it@));
        assert(out@ =~= before + (after_sends_among(program@, all.take(i as int)) + after_send(
            program@,
            it@,
        )));
    }
    assert(all.take(stmts.len() as int) =~= all);
}

// ---------------------------------------------------------------- reaching

/// The call graph, by index.
pub open spec fn indices(calls: Seq<Seq<FnId>>) -> Seq<Seq<usize>> {
    Seq::new(
        calls.len(),
        |f: int| Seq::new(calls[f].len(), |i: int| calls[f][i].0 as usize),
    )
}

pub open spec fn call_lists(s: Seq<Vec<FnId>>) -> Seq<Seq<FnId>> {
    Seq::new(s.len(), |i: int| s[i]@)
}

/// Which functions something was found in.
pub open spec fn hits<T>(s: Seq<Option<T>>) -> Seq<bool> {
    Seq::new(s.len(), |i: int| s[i] is Some)
}

/// What was found in the function nearest to `start` that anything was found in.
pub open spec fn reachable<T>(
    calls: Seq<Seq<FnId>>,
    found: Seq<Option<T>>,
    start: FnId,
) -> Option<(FnId, T)> {
    match nearest(indices(calls), hits(found), start.0 as usize) {
        Some(x) => if x < found.len() && found[x as int] is Some {
            Some((FnId(x as u32), found[x as int]->0))
        } else {
            None
        },
        None => None,
    }
}

fn index_graph(calls: &Vec<Vec<FnId>>) -> (g: Vec<Vec<usize>>)
    ensures
        lists(g@) == indices(call_lists(calls@)),
{
    let mut g: Vec<Vec<usize>> = Vec::new();
    for f in 0..calls.len()
        invariant
            g.len() == f,
            forall|k: int| 0 <= k < f ==> #[trigger] g@[k]@ == indices(call_lists(calls@))[k],
    {
        let mut row: Vec<usize> = Vec::new();
        let n: usize = calls[f].len();
        for i in 0..n
            invariant
                f < calls.len(),
                n == calls@[f as int].len(),
                row@ == indices(call_lists(calls@))[f as int].take(i as int),
        {
            row.push(calls[f][i].index());
            assert(row@ =~= indices(call_lists(calls@))[f as int].take(i + 1));
        }
        assert(row@ =~= indices(call_lists(calls@))[f as int]);
        g.push(row);
    }
    assert(lists(g@) =~= indices(call_lists(calls@)));
    g
}

/// The nearest function reachable from `start` that something was found in: breadth first, so the
/// function reported is the call the reader has to look at.
fn reach<T: Copy>(
    calls: &Vec<Vec<FnId>>,
    found: &Vec<Option<T>>,
    start: FnId,
) -> (r: Option<(FnId, T)>)
    ensures
        r == reachable(call_lists(calls@), found@, start),
{
    let g = index_graph(calls);
    let mut marks: Vec<bool> = Vec::new();
    for i in 0..found.len()
        invariant
            marks@ == hits(found@).take(i as int),
    {
        marks.push(found[i].is_some());
        assert(marks@ =~= hits(found@).take(i + 1));
    }
    assert(marks@ =~= hits(found@));
    match find_nearest(&g, &marks, start.index()) {
        Some(x) => {
            if x < found.len() {
                match found[x] {
                    Some(t) => Some((FnId(x as u32), t)),
                    None => None,
                }
            } else {
                None
            }
        },
        None => None,
    }
}

/// The nearest function reachable from `start` that calls an impure builtin.
pub fn reachable_impurity(
    calls: &Vec<Vec<FnId>>,
    impurities: &Vec<Option<(Builtin, Span)>>,
    start: FnId,
) -> (r: Option<(FnId, (Builtin, Span))>)
    ensures
        r == reachable(call_lists(calls@), impurities@, start),
{
    reach(calls, impurities, start)
}

/// The nearest function reachable from `start` that contains a loop.
pub fn reachable_loop(
    calls: &Vec<Vec<FnId>>,
    loops: &Vec<Option<(&'static str, Span)>>,
    start: FnId,
) -> (r: Option<(FnId, (&'static str, Span))>)
    ensures
        r == reachable(call_lists(calls@), loops@, start),
{
    reach(calls, loops, start)
}

/// The nearest function reachable from `start` that sends to a `wait` port.
pub fn reachable_wait_send(
    calls: &Vec<Vec<FnId>>,
    sends: &Vec<Option<WaitSend>>,
    start: FnId,
) -> (r: Option<(FnId, WaitSend)>)
    ensures
        r == reachable(call_lists(calls@), sends@, start),
{
    reach(calls, sends, start)
}

pub open spec fn as_ids(c: Seq<usize>) -> Seq<FnId> {
    Seq::new(c.len(), |i: int| FnId(c[i] as u32))
}

/// A cycle in the call graph reachable from `start`, as the functions that close it.
pub open spec fn cycle_reached(calls: Seq<Seq<FnId>>, start: FnId) -> Option<Seq<FnId>> {
    match cycle_from(indices(calls), start.0 as usize) {
        Some(c) => Some(as_ids(c)),
        None => None,
    }
}

pub fn reachable_cycle(calls: &Vec<Vec<FnId>>, start: FnId) -> (r: Option<Vec<FnId>>)
    ensures
        match r {
            Some(c) => cycle_reached(call_lists(calls@), start) == Some(c@),
            None => cycle_reached(call_lists(calls@), start) is None,
        },
{
    let g = index_graph(calls);
    match find_cycle_from(&g, start.index()) {
        Some(c) => {
            let mut ids: Vec<FnId> = Vec::new();
            for i in 0..c.len()
                invariant
                    ids@ == as_ids(c@).take(i as int),
            {
                ids.push(FnId(c[i] as u32));
                assert(ids@ =~= as_ids(c@).take(i + 1));
            }
            assert(ids@ =~= as_ids(c@));
            Some(ids)
        },
        None => None,
    }
}

// ---------------------------------------------------------------- the turns of a program

/// A function a turn runs: the function, where it is written, and the module that owns the turn.
pub struct TurnFn {
    pub function: FnId,
    pub span: Span,
    pub owner: int,
}

/// The functions the nodes of one reactor are computed by.
pub open spec fn node_turns(nodes: Seq<model::Node>, owner: int) -> Seq<TurnFn>
    decreases nodes.len(),
{
    if nodes.len() == 0 {
        seq![]
    } else {
        let rest = node_turns(nodes.drop_last(), owner);
        let span = nodes.last().span;
        match nodes.last().kind {
            NodeKind::Param { .. } => rest,
            NodeKind::State { init, .. } => rest.push(TurnFn { function: init, span, owner }),
            NodeKind::Signal { body } => rest.push(TurnFn { function: body, span, owner }),
        }
    }
}

pub open spec fn input_turns(inputs: Seq<model::InputDef>, owner: int) -> Seq<TurnFn>
    decreases inputs.len(),
{
    if inputs.len() == 0 {
        seq![]
    } else {
        input_turns(inputs.drop_last(), owner).push(
            TurnFn { function: inputs.last().handler, span: inputs.last().span, owner },
        )
    }
}

/// Where a function is written.
pub open spec fn fn_span(p: model::Program, id: FnId) -> Span {
    if id.0 < p.fns.len() {
        p.fns[id.0 as int].span
    } else {
        Span { start: 0, end: 0 }
    }
}

/// Every function one reactor's turns run. Creation is a turn too.
pub open spec fn reactor_turns(
    p: model::Program,
    r: model::ReactorDef,
    owner: int,
) -> Seq<TurnFn> {
    node_turns(r.nodes, owner) + input_turns(r.inputs, owner) + match r.init {
        Some(init) => seq![TurnFn { function: init, span: fn_span(p, init), owner }],
        None => seq![],
    }
}

/// Every function the turns of the first `n` reactors run.
pub open spec fn all_turns(p: model::Program, owners: Seq<usize>, n: nat) -> Seq<TurnFn>
    decreases n,
{
    if n == 0 {
        seq![]
    } else {
        all_turns(p, owners, (n - 1) as nat) + reactor_turns(
            p,
            p.reactors[n - 1],
            owners[n - 1] as int,
        )
    }
}

/// What each function calls.
pub open spec fn calls_of(p: model::Program) -> Seq<Seq<FnId>> {
    Seq::new(p.fns.len(), |f: int| callees(seq![], within(p.fns[f].body)))
}

pub open spec fn impurities_of(
    p: model::Program,
    v: model::Vocabulary,
) -> Seq<Option<(Builtin, Span)>> {
    Seq::new(p.fns.len(), |f: int| first_impurity(v, p.fns[f].body))
}

pub open spec fn loops_of(p: model::Program) -> Seq<Option<(Seq<char>, Span)>> {
    Seq::new(p.fns.len(), |f: int| first_loop_in(p.fns[f].body))
}

/// What a diagnostic is written from besides the program: the modules' display names, and which
/// module declared each function.
pub struct Modules {
    pub names: Seq<Seq<char>>,
    pub fn_owner: Seq<usize>,
}

impl Modules {
    pub open spec fn owner(self, id: FnId) -> int {
        if id.0 < self.fn_owner.len() {
            self.fn_owner[id.0 as int] as int
        } else {
            -1
        }
    }

    pub open spec fn name(self, owner: int) -> Seq<char> {
        if 0 <= owner < self.names.len() {
            self.names[owner]
        } else {
            ""@
        }
    }
}

/// A turn reaches a call the world can see. A secondary span renders against the turn's own file,
/// so one that points into another module travels as a note instead.
pub open spec fn impure_reach(
    p: model::Program,
    v: model::Vocabulary,
    m: Modules,
    turn: TurnFn,
    culprit: FnId,
    builtin: Builtin,
    at: Span,
) -> Report {
    let name = fn_name(p, culprit);
    let called = builtin_name(v, builtin);
    let r = Report::new(
        turn.span,
        "this reaches `"@ + name + "`, which calls `"@ + called + "`"@,
    ).label("a turn is pure"@);
    let r = if m.owner(culprit) == turn.owner {
        r.secondary(at, "`"@ + called + "` is something the world can see happen"@)
    } else {
        r.note(
            "`"@ + called + "` is something the world can see happen; `"@ + name
                + "` calls it in "@ + m.name(m.owner(culprit)),
        )
    };
    r.note(
        "purity is not the same question as authority: `print` needs no capability and is still observable"@,
    ).note(
        "effects leave a turn through `after`, which starts them once the snapshot is published"@,
    )
}

/// A turn reaches a loop.
pub open spec fn loop_reach(
    p: model::Program,
    m: Modules,
    turn: TurnFn,
    culprit: FnId,
    what: Seq<char>,
    at: Span,
) -> Report {
    let name = fn_name(p, culprit);
    let r = Report::new(
        turn.span,
        "this reaches `"@ + name + "`, which contains a `"@ + what + "`"@,
    ).label("a turn must end"@);
    let r = if m.owner(culprit) == turn.owner {
        r.secondary(at, "a loop is not provably finite"@)
    } else {
        r.note(
            "a loop is not provably finite, and `"@ + name + "` contains one in "@ + m.name(
                m.owner(culprit),
            ),
        )
    };
    r.note(
        "turn-reachable code has neither loops nor recursion, which is what makes every turn provably terminating"@,
    ).note(
        "compute the value with a bounded expression, or move the work into a `task fn` and request it with `after`"@,
    )
}

pub open spec fn fn_names(p: model::Program, ids: Seq<FnId>) -> Seq<Seq<char>> {
    Seq::new(ids.len(), |i: int| fn_name(p, ids[i]))
}

/// A turn reaches recursion.
pub open spec fn cycle_reach(
    p: model::Program,
    m: Modules,
    turn: TurnFn,
    cycle: Seq<FnId>,
) -> Report {
    let culprit = cycle[0];
    let names = joined(fn_names(p, cycle), " → "@);
    let r = Report::new(
        turn.span,
        "`"@ + fn_name(p, culprit) + "` is recursive, and a turn must end"@,
    ).label("reached from here"@);
    let r = if m.owner(culprit) == turn.owner {
        r.secondary(fn_span(p, culprit), "the cycle is "@ + names)
    } else {
        r.note("the cycle is "@ + names + ", declared in "@ + m.name(m.owner(culprit)))
    };
    r.note(
        "turn-reachable code has neither loops nor recursion, which is what makes termination provable rather than hoped for"@,
    ).note(
        "compute the value with a bounded expression, or move the work into a `task fn` and request it with `after`"@,
    )
}

/// Everything wrong with one turn function: at most one impurity, one loop and one cycle. What the
/// function itself does was refused where it is written, so only what it reaches is news.
pub open spec fn turn_reports(
    p: model::Program,
    v: model::Vocabulary,
    m: Modules,
    turn: TurnFn,
) -> Seq<Report> {
    let calls = calls_of(p);
    let impure = match reachable(calls, impurities_of(p, v), turn.function) {
        Some((culprit, (builtin, at))) => if culprit != turn.function {
            seq![impure_reach(p, v, m, turn, culprit, builtin, at)]
        } else {
            seq![]
        },
        None => seq![],
    };
    let looping = match reachable(calls, loops_of(p), turn.function) {
        Some((culprit, (what, at))) => if culprit != turn.function {
            seq![loop_reach(p, m, turn, culprit, what, at)]
        } else {
            seq![]
        },
        None => seq![],
    };
    let recursive = match cycle_reached(calls, turn.function) {
        Some(cycle) => seq![cycle_reach(p, m, turn, cycle)],
        None => seq![],
    };
    impure + looping + recursive
}

/// The reports of the first `n` turn functions, each added to its owner's list.
pub open spec fn turns_added(
    p: model::Program,
    v: model::Vocabulary,
    m: Modules,
    turns: Seq<TurnFn>,
    errors: Seq<Seq<Report>>,
    n: nat,
) -> Seq<Seq<Report>>
    decreases n,
{
    if n == 0 {
        errors
    } else {
        add_all(
            turns_added(p, v, m, turns, errors, (n - 1) as nat),
            turns[n - 1].owner,
            turn_reports(p, v, m, turns[n - 1]),
        )
    }
}

struct Turn {
    function: FnId,
    span: Span,
    owner: usize,
}

spec fn turn_views(s: Seq<Turn>) -> Seq<TurnFn> {
    Seq::new(
        s.len(),
        |i: int| TurnFn { function: s[i].function, span: s[i].span, owner: s[i].owner as int },
    )
}

/// Every function a turn of some reactor runs.
fn collect_turns(program: &Program, reactor_owner: &Vec<usize>) -> (turns: Vec<Turn>)
    requires
        reactor_owner.len() == program.reactors.len(),
    ensures
        turn_views(turns@) == all_turns(program@, reactor_owner@, program@.reactors.len()),
{
    let ghost p = program@;
    let mut turns: Vec<Turn> = Vec::new();
    assert(turn_views(turns@) =~= seq![]);
    for index in 0..program.reactors.len()
        invariant
            p == program@,
            reactor_owner.len() == program.reactors.len(),
            turn_views(turns@) == all_turns(p, reactor_owner@, index as nat),
    {
        let reactor = &program.reactors[index];
        let owner: usize = reactor_owner[index];
        let ghost base = turn_views(turns@);
        let ghost nodes = nodes_of(reactor.nodes@);
        let ghost inputs = inputs_of(reactor.inputs@);
        assert(base + seq![] =~= base);
        for k in 0..reactor.nodes.len()
            invariant
                nodes == nodes_of(reactor.nodes@),
                turn_views(turns@) == base + node_turns(nodes.take(k as int), owner as int),
        {
            let node = &reactor.nodes[k];
            let ghost held = turn_views(turns@);
            let ghost so_far = node_turns(nodes.take(k as int), owner as int);
            assert(nodes.take(k + 1).drop_last() =~= nodes.take(k as int));
            assert(nodes.take(k + 1).last() == node@);
            match node.kind {
                NodeKind::Param { .. } => {},
                NodeKind::State { init, .. } => {
                    turns.push(Turn { function: init, span: node.span, owner });
                    let ghost t = TurnFn {
                        function: init,
                        span: node.span,
                        owner: owner as int,
                    };
                    assert(turn_views(turns@) =~= held.push(t));
                    assert((base + so_far).push(t) =~= base + so_far.push(t));
                },
                NodeKind::Signal { body } => {
                    turns.push(Turn { function: body, span: node.span, owner });
                    let ghost t = TurnFn {
                        function: body,
                        span: node.span,
                        owner: owner as int,
                    };
                    assert(turn_views(turns@) =~= held.push(t));
                    assert((base + so_far).push(t) =~= base + so_far.push(t));
                },
            }
        }
        assert(nodes.take(reactor.nodes.len() as int) =~= nodes);
        let ghost after_nodes = turn_views(turns@);
        assert(after_nodes + seq![] =~= after_nodes);
        for k in 0..reactor.inputs.len()
            invariant
                inputs == inputs_of(reactor.inputs@),
                turn_views(turns@) == after_nodes + input_turns(
                    inputs.take(k as int),
                    owner as int,
                ),
        {
            let input = &reactor.inputs[k];
            let ghost held = turn_views(turns@);
            let ghost so_far = input_turns(inputs.take(k as int), owner as int);
            assert(inputs.take(k + 1).drop_last() =~= inputs.take(k as int));
            turns.push(Turn { function: input.handler, span: input.span, owner });
            let ghost t = TurnFn {
                function: input.handler,
                span: input.span,
                owner: owner as int,
            };
            assert(turn_views(turns@) =~= held.push(t));
            assert((after_nodes + so_far).push(t) =~= after_nodes + so_far.push(t));
        }
        assert(inputs.take(reactor.inputs.len() as int) =~= inputs);
        let ghost after_inputs = turn_views(turns@);
        let ghost last = match reactor.init {
            Some(init) => seq![
                TurnFn { function: init, span: fn_span(p, init), owner: owner as int },
            ],
            None => seq![],
        };
        if let Some(init) = reactor.init {
            let span = if init.index() < program.fns.len() {
                program.fns[init.index()].span
            } else {
                Span::new(0, 0)
            };
            turns.push(Turn { function: init, span, owner });
        }
        assert(turn_views(turns@) =~= after_inputs + last);
        assert(turn_views(turns@) =~= base + (node_turns(nodes, owner as int) + input_turns(
            inputs,
            owner as int,
        ) + last));
    }
    turns
}

fn name_of_fn(program: &Program, id: FnId) -> (r: String)
    ensures
        r@ == fn_name(program@, id),
{
    if id.index() < program.fns.len() {
        program.fns[id.index()].name.clone()
    } else {
        "_".to_owned()
    }
}

fn name_of_builtin(vocabulary: &Vocabulary, builtin: Builtin) -> (r: String)
    ensures
        r@ == builtin_name(vocabulary@, builtin),
{
    let known = match builtin {
        Builtin::Host(entry) => (entry as usize) < vocabulary.host.len(),
        _ => true,
    };
    if known {
        vocabulary.builtin(builtin).name.clone()
    } else {
        "_".to_owned()
    }
}

/// The module a function was declared in, if that is another than `owner`: its display name.
fn elsewhere(
    names: &Vec<String>,
    fn_owner: &Vec<usize>,
    id: FnId,
    owner: usize,
) -> (r: Option<String>)
    ensures
        ({
            let m = Modules { names: texts(names@), fn_owner: fn_owner@ };
            match r {
                None => m.owner(id) == owner,
                Some(name) => m.owner(id) != owner && name@ == m.name(m.owner(id)),
            }
        }),
{
    if id.index() < fn_owner.len() {
        let at: usize = fn_owner[id.index()];
        if at == owner {
            None
        } else if at < names.len() {
            Some(names[at].clone())
        } else {
            Some("".to_owned())
        }
    } else {
        Some("".to_owned())
    }
}

spec fn modules(names: Seq<String>, fn_owner: Seq<usize>) -> Modules {
    Modules { names: texts(names), fn_owner }
}

fn report_impurity(
    program: &Program,
    vocabulary: &Vocabulary,
    names: &Vec<String>,
    fn_owner: &Vec<usize>,
    turn: &Turn,
    culprit: FnId,
    builtin: Builtin,
    at: Span,
) -> (d: Diagnostic)
    ensures
        d@ == impure_reach(
            program@,
            vocabulary@,
            modules(names@, fn_owner@),
            (TurnFn { function: turn.function, span: turn.span, owner: turn.owner as int }),
            culprit,
            builtin,
            at,
        ),
{
    let name = name_of_fn(program, culprit);
    let called = name_of_builtin(vocabulary, builtin);
    let d = Diagnostic::new(
        turn.span,
        "this reaches `".to_owned().concat(name.as_str()).concat("`, which calls `").concat(
            called.as_str(),
        ).concat("`"),
    ).label("a turn is pure");
    let d = match elsewhere(names, fn_owner, culprit, turn.owner) {
        None => d.secondary(
            at,
            "`".to_owned().concat(called.as_str()).concat(
                "` is something the world can see happen",
            ).as_str(),
        ),
        Some(file) => d.note(
            "`".to_owned().concat(called.as_str()).concat(
                "` is something the world can see happen; `",
            ).concat(name.as_str()).concat("` calls it in ").concat(file.as_str()).as_str(),
        ),
    };
    d.note(
        "purity is not the same question as authority: `print` needs no capability and is still observable",
    ).note(
        "effects leave a turn through `after`, which starts them once the snapshot is published",
    )
}

fn report_loop(
    program: &Program,
    names: &Vec<String>,
    fn_owner: &Vec<usize>,
    turn: &Turn,
    culprit: FnId,
    what: &str,
    at: Span,
) -> (d: Diagnostic)
    ensures
        d@ == loop_reach(
            program@,
            modules(names@, fn_owner@),
            (TurnFn { function: turn.function, span: turn.span, owner: turn.owner as int }),
            culprit,
            what@,
            at,
        ),
{
    let name = name_of_fn(program, culprit);
    let d = Diagnostic::new(
        turn.span,
        "this reaches `".to_owned().concat(name.as_str()).concat(
            "`, which contains a `",
        ).concat(what).concat("`"),
    ).label("a turn must end");
    let d = match elsewhere(names, fn_owner, culprit, turn.owner) {
        None => d.secondary(at, "a loop is not provably finite"),
        Some(file) => d.note(
            "a loop is not provably finite, and `".to_owned().concat(name.as_str()).concat(
                "` contains one in ",
            ).concat(file.as_str()).as_str(),
        ),
    };
    d.note(
        "turn-reachable code has neither loops nor recursion, which is what makes every turn provably terminating",
    ).note(
        "compute the value with a bounded expression, or move the work into a `task fn` and request it with `after`",
    )
}

fn report_recursion(
    program: &Program,
    names: &Vec<String>,
    fn_owner: &Vec<usize>,
    turn: &Turn,
    cycle: &Vec<FnId>,
) -> (d: Diagnostic)
    requires
        cycle.len() > 0,
    ensures
        d@ == cycle_reach(
            program@,
            modules(names@, fn_owner@),
            (TurnFn { function: turn.function, span: turn.span, owner: turn.owner as int }),
            cycle@,
        ),
{
    let mut spelled: Vec<String> = Vec::new();
    for i in 0..cycle.len()
        invariant
            texts(spelled@) == fn_names(program@, cycle@).take(i as int),
    {
        let ghost before = texts(spelled@);
        let name = name_of_fn(program, cycle[i]);
        spelled.push(name);
        assert(texts(spelled@) =~= before.push(name@));
        assert(fn_names(program@, cycle@).take(i + 1) =~= before.push(name@));
    }
    assert(texts(spelled@) =~= fn_names(program@, cycle@));
    let path = join(&spelled, " → ");
    let culprit = cycle[0];
    let d = Diagnostic::new(
        turn.span,
        "`".to_owned().concat(name_of_fn(program, culprit).as_str()).concat(
            "` is recursive, and a turn must end",
        ),
    ).label("reached from here");
    let d = match elsewhere(names, fn_owner, culprit, turn.owner) {
        None => {
            let span = if culprit.index() < program.fns.len() {
                program.fns[culprit.index()].span
            } else {
                Span::new(0, 0)
            };
            d.secondary(span, "the cycle is ".to_owned().concat(path.as_str()).as_str())
        },
        Some(file) => d.note(
            "the cycle is ".to_owned().concat(path.as_str()).concat(", declared in ").concat(
                file.as_str(),
            ).as_str(),
        ),
    };
    d.note(
        "turn-reachable code has neither loops nor recursion, which is what makes termination provable rather than hoped for",
    ).note(
        "compute the value with a bounded expression, or move the work into a `task fn` and request it with `after`",
    )
}

proof fn cycles_have_a_head(calls: Seq<Seq<FnId>>, start: FnId)
    requires
        cycle_reached(calls, start) is Some,
    ensures
        (cycle_reached(calls, start)->0).len() > 0,
{
    crate::cycle::found_cycles_have_a_head(
        indices(calls),
        everything(indices(calls).len()),
        crate::cycle::opened(
            crate::cycle::Walk {
                marks: crate::cycle::all_white(indices(calls).len()),
                path: seq![],
                stack: seq![],
            },
            start.0 as usize,
        ),
    );
}

spec fn words(s: Seq<Option<(&'static str, Span)>>) -> Seq<Option<(Seq<char>, Span)>> {
    Seq::new(s.len(), |i: int| word(s[i]))
}

proof fn reaching_words(
    calls: Seq<Seq<FnId>>,
    s: Seq<Option<(&'static str, Span)>>,
    start: FnId,
)
    ensures
        reachable(calls, words(s), start) == match reachable(calls, s, start) {
            Some((f, (what, at))) => Some((f, (what@, at))),
            None => None,
        },
{
    assert(hits(words(s)) =~= hits(s));
}

/// Check everything about a turn that is a property of the call graph: that it terminates, and
/// that nothing it reaches can be observed from outside.
pub fn check_turns(
    program: &Program,
    vocabulary: &Vocabulary,
    names: &Vec<String>,
    fn_owner: &Vec<usize>,
    reactor_owner: &Vec<usize>,
    errors: &mut Vec<Vec<Diagnostic>>,
)
    requires
        reactor_owner.len() == program.reactors.len(),
    ensures
        filed(final(errors)@) == turns_added(
            program@,
            vocabulary@,
            (Modules { names: texts(names@), fn_owner: fn_owner@ }),
            all_turns(program@, reactor_owner@, program@.reactors.len()),
            filed(old(errors)@),
            all_turns(program@, reactor_owner@, program@.reactors.len()).len(),
        ),
{
    let ghost p = program@;
    let ghost v = vocabulary@;
    let ghost m = modules(names@, fn_owner@);
    let turns = collect_turns(program, reactor_owner);
    if turns.len() == 0 {
        return ;
    }
    let mut calls: Vec<Vec<FnId>> = Vec::new();
    let mut impurities: Vec<Option<(Builtin, Span)>> = Vec::new();
    let mut loops: Vec<Option<(&'static str, Span)>> = Vec::new();
    for f in 0..program.fns.len()
        invariant
            p == program@,
            v == vocabulary@,
            call_lists(calls@) == calls_of(p).take(f as int),
            impurities@ == impurities_of(p, v).take(f as int),
            words(loops@) == loops_of(p).take(f as int),
    {
        let ghost (c0, l0) = (call_lists(calls@), words(loops@));
        let mut found: Vec<FnId> = Vec::new();
        collect_calls(&program.fns[f].body, &mut found);
        let ghost listed = found@;
        calls.push(found);
        assert(call_lists(calls@) =~= c0.push(listed));
        assert(calls_of(p).take(f + 1) =~= c0.push(listed));
        impurities.push(impure_builtin(vocabulary, &program.fns[f].body));
        assert(impurities@ =~= impurities_of(p, v).take(f + 1));
        let first = first_loop(&program.fns[f].body);
        loops.push(first);
        assert(words(loops@) =~= l0.push(word(first)));
        assert(loops_of(p).take(f + 1) =~= l0.push(word(first)));
    }
    assert(call_lists(calls@) =~= calls_of(p));
    assert(impurities@ =~= impurities_of(p, v));
    assert(words(loops@) =~= loops_of(p));
    let ghost all = turn_views(turns@);
    let ghost before = filed(errors@);
    for k in 0..turns.len()
        invariant
            p == program@,
            v == vocabulary@,
            m == modules(names@, fn_owner@),
            all == turn_views(turns@),
            call_lists(calls@) == calls_of(p),
            impurities@ == impurities_of(p, v),
            words(loops@) == loops_of(p),
            filed(errors@) == turns_added(p, v, m, all, before, k as nat),
    {
        let turn = &turns[k];
        let ghost t = all[k as int];
        let ghost start = filed(errors@);
        let ghost owner = turn.owner as int;
        let ghost mut told: Seq<Report> = seq![];
        proof {
            adding_nothing(start, owner);
        }
        if let Some((culprit, (builtin, at))) = reachable_impurity(
            &calls,
            &impurities,
            turn.function,
        ) {
            if culprit != turn.function {
                let d = report_impurity(
                    program,
                    vocabulary,
                    names,
                    fn_owner,
                    turn,
                    culprit,
                    builtin,
                    at,
                );
                let ghost r = d@;
                push(errors, turn.owner, d);
                proof {
                    told = told + seq![r];
                    assert(told =~= seq![r]);
                }
            }
        }
        let ghost first = told;
        proof {
            reaching_words(call_lists(calls@), loops@, turn.function);
            assert(first + seq![] =~= first);
        }
        if let Some((culprit, (what, at))) = reachable_loop(&calls, &loops, turn.function) {
            if culprit != turn.function {
                let d = report_loop(program, names, fn_owner, turn, culprit, what, at);
                let ghost r = d@;
                push(errors, turn.owner, d);
                proof {
                    adding_adds_up(start, owner, told, seq![r]);
                    told = told + seq![r];
                }
            }
        }
        let ghost second = told;
        assert(second + seq![] =~= second);
        if let Some(cycle) = reachable_cycle(&calls, turn.function) {
            proof {
                cycles_have_a_head(call_lists(calls@), turn.function);
            }
            let d = report_recursion(program, names, fn_owner, turn, &cycle);
            let ghost r = d@;
            push(errors, turn.owner, d);
            proof {
                adding_adds_up(start, owner, told, seq![r]);
                told = told + seq![r];
            }
        }
        assert(told == turn_reports(p, v, m, t));
    }
}

/// A turn about which nothing is reported reaches no call the world can see, no loop and no
/// recursion: what it runs ends, and nothing outside can tell that it ran.
pub proof fn silent_turns_are_pure_and_finite(
    p: model::Program,
    v: model::Vocabulary,
    m: Modules,
    turn: TurnFn,
    f: FnId,
)
    requires
        p.fns.len() <= u32::MAX,
        turn.function.0 < p.fns.len(),
        f.0 < p.fns.len(),
        turn_reports(p, v, m, turn).len() == 0,
        first_impurity(v, p.fns[turn.function.0 as int].body) is None,
        first_loop_in(p.fns[turn.function.0 as int].body) is None,
        reaches(
            indices(calls_of(p)),
            everything(p.fns.len()),
            turn.function.0 as usize,
            f.0 as usize,
        ),
    ensures
        first_impurity(v, p.fns[f.0 as int].body) is None,
        first_loop_in(p.fns[f.0 as int].body) is None,
        forall|c: Seq<usize>|
            !(#[trigger] crate::graph::is_cycle(
                indices(calls_of(p)),
                everything(p.fns.len()),
                c,
            ) && reaches(
                indices(calls_of(p)),
                everything(p.fns.len()),
                turn.function.0 as usize,
                c[0],
            )),
{
    let g = indices(calls_of(p));
    let start = turn.function.0 as usize;
    let impure = impurities_of(p, v);
    let looping = loops_of(p);
    nearest_misses_nothing(g, hits(impure), start);
    nearest_misses_nothing(g, hits(looping), start);
    crate::cycle::cycle_from_is_right(g, start);
    let (a, b) = (
        reachable(calls_of(p), impure, turn.function),
        reachable(calls_of(p), looping, turn.function),
    );
    assert(hits(impure)[turn.function.0 as int] == false);
    assert(hits(looping)[turn.function.0 as int] == false);
    assert(cycle_reached(calls_of(p), turn.function) is None);
    if a is Some {
        assert((a->0).0 == turn.function);
    }
    if b is Some {
        assert((b->0).0 == turn.function);
    }
    assert(!flag(hits(impure), f.0 as usize));
    assert(!flag(hits(looping), f.0 as usize));
    assert(hits(impure)[f.0 as int] == false);
    assert(hits(looping)[f.0 as int] == false);
}

// ---------------------------------------------------------------- effects and backpressure

/// What each function sends to a `wait` port. A template is looked at through its instances.
pub open spec fn wait_sends_of(p: model::Program) -> Seq<Option<WaitSend>> {
    Seq::new(
        p.fns.len(),
        |f: int|
            if p.fns[f].inert {
                None
            } else {
                first_wait_send_in(p, p.fns[f].body)
            },
    )
}

pub open spec fn live_calls_of(p: model::Program) -> Seq<Seq<FnId>> {
    Seq::new(
        p.fns.len(),
        |f: int|
            if p.fns[f].inert {
                seq![]
            } else {
                callees(seq![], within(p.fns[f].body))
            },
    )
}

pub open spec fn reactor_name(p: model::Program, id: ReactorId) -> Seq<char> {
    if id.0 < p.reactors.len() {
        p.reactors[id.0 as int].name
    } else {
        "_"@
    }
}

pub open spec fn input_name(p: model::Program, id: ReactorId, input: usize) -> Seq<char> {
    if id.0 < p.reactors.len() && input < p.reactors[id.0 as int].inputs.len() {
        p.reactors[id.0 as int].inputs[input as int].name
    } else {
        "_"@
    }
}

/// An effect that reaches a `send` which would park it.
pub open spec fn backpressure(
    p: model::Program,
    m: Modules,
    owner: int,
    span: Span,
    culprit: FnId,
    send: WaitSend,
) -> Report {
    let name = fn_name(p, culprit);
    let r = Report::new(
        span,
        "this reaches `"@ + name + "`, which sends to `"@ + reactor_name(p, send.reactor) + "."@
            + input_name(p, send.reactor, send.input) + "`, a `wait` input"@,
    ).label("an effect cannot be given backpressure"@);
    let r = if m.owner(culprit) == owner {
        r.secondary(
            send.span,
            "a `wait` input parks its sender, and this sender is a fresh task every turn"@,
        )
    } else {
        r.note(
            "a `wait` input parks its sender, and this sender is a fresh task every turn; `"@ + name
                + "` sends in "@ + m.name(m.owner(culprit)),
        )
    };
    r.note(
        "backpressure propagates from a task into a reactor and never from a reactor to a reactor: a reactor is driven by its inbox, so parking its effect task never slows it down and the waiter list grows instead"@,
    ).note(
        "give the input a larger queue with an observable overflow policy, or add a credit or ack input on the producer, which between reactors is the only place flow control can honestly live"@,
    )
}

/// The reports for several `after`s of one function. The function an `after` starts counts itself:
/// the everyday shape is a one-line `task fn` whose whole body is the send.
pub open spec fn root_reports(
    p: model::Program,
    m: Modules,
    owner: int,
    roots: Seq<(Span, FnId)>,
) -> Seq<(int, Report)>
    decreases roots.len(),
{
    if roots.len() == 0 {
        seq![]
    } else {
        let rest = root_reports(p, m, owner, roots.drop_last());
        let (span, root) = roots.last();
        match reachable(live_calls_of(p), wait_sends_of(p), root) {
            Some((culprit, send)) => rest.push(
                (owner, backpressure(p, m, owner, span, culprit, send)),
            ),
            None => rest,
        }
    }
}

/// An effect that is itself a `send` which would park it.
pub open spec fn direct_backpressure(p: model::Program, span: Span, send: WaitSend) -> Report {
    Report::new(
        span,
        "this sends to `"@ + reactor_name(p, send.reactor) + "."@ + input_name(
            p,
            send.reactor,
            send.input,
        ) + "`, a `wait` input"@,
    ).label("an effect cannot be given backpressure"@).secondary(
        send.span,
        "a `wait` input parks its sender, and this sender is a fresh task every turn"@,
    ).note(
        "backpressure propagates from a task into a reactor and never from a reactor to a reactor: a reactor is driven by its inbox, so parking its effect task never slows it down and the waiter list grows instead"@,
    ).note(
        "give the input a larger queue with an observable overflow policy, or add a credit or ack input on the producer, which between reactors is the only place flow control can honestly live"@,
    )
}

/// The reports for the `after`s of one function that are themselves sends to `wait` inputs.
pub open spec fn direct_reports(
    p: model::Program,
    owner: int,
    sends: Seq<(Span, WaitSend)>,
) -> Seq<(int, Report)> {
    Seq::new(sends.len(), |i: int| (owner, direct_backpressure(p, sends[i].0, sends[i].1)))
}

/// The reports for the `after`s of the first `n` functions.
pub open spec fn backpressures(p: model::Program, m: Modules, n: nat) -> Seq<(int, Report)>
    decreases n,
{
    if n == 0 {
        seq![]
    } else {
        let rest = backpressures(p, m, (n - 1) as nat);
        if p.fns[n - 1].inert {
            rest
        } else {
            rest + root_reports(
                p,
                m,
                m.fn_owner[n - 1] as int,
                after_roots_among(stmts_among(within(p.fns[n - 1].body))),
            ) + direct_reports(
                p,
                m.fn_owner[n - 1] as int,
                after_sends_among(p, stmts_among(within(p.fns[n - 1].body))),
            )
        }
    }
}

/// The reactor and the input a send names.
fn port_names(program: &Program, send: WaitSend) -> (r: (String, String))
    ensures
        r.0@ == reactor_name(program@, send.reactor),
        r.1@ == input_name(program@, send.reactor, send.input),
{
    let at: usize = send.reactor.index();
    let reactor = if at < program.reactors.len() {
        program.reactors[at].name.clone()
    } else {
        "_".to_owned()
    };
    let input = if at < program.reactors.len() && send.input < program.reactors[at].inputs.len() {
        program.reactors[at].inputs[send.input].name.clone()
    } else {
        "_".to_owned()
    };
    (reactor, input)
}

fn report_direct(program: &Program, span: Span, send: WaitSend) -> (d: Diagnostic)
    ensures
        d@ == direct_backpressure(program@, span, send),
{
    let (reactor, input) = port_names(program, send);
    Diagnostic::new(
        span,
        "this sends to `".to_owned().concat(reactor.as_str()).concat(".").concat(
            input.as_str(),
        ).concat("`, a `wait` input"),
    ).label("an effect cannot be given backpressure").secondary(
        send.span,
        "a `wait` input parks its sender, and this sender is a fresh task every turn",
    ).note(
        "backpressure propagates from a task into a reactor and never from a reactor to a reactor: a reactor is driven by its inbox, so parking its effect task never slows it down and the waiter list grows instead",
    ).note(
        "give the input a larger queue with an observable overflow policy, or add a credit or ack input on the producer, which between reactors is the only place flow control can honestly live",
    )
}

fn report_backpressure(
    program: &Program,
    names: &Vec<String>,
    fn_owner: &Vec<usize>,
    owner: usize,
    span: Span,
    culprit: FnId,
    send: WaitSend,
) -> (d: Diagnostic)
    ensures
        d@ == backpressure(
            program@,
            modules(names@, fn_owner@),
            owner as int,
            span,
            culprit,
            send,
        ),
{
    let name = name_of_fn(program, culprit);
    let (reactor, input) = port_names(program, send);
    let d = Diagnostic::new(
        span,
        "this reaches `".to_owned().concat(name.as_str()).concat("`, which sends to `").concat(
            reactor.as_str(),
        ).concat(".").concat(input.as_str()).concat("`, a `wait` input"),
    ).label("an effect cannot be given backpressure");
    let d = match elsewhere(names, fn_owner, culprit, owner) {
        None => d.secondary(
            send.span,
            "a `wait` input parks its sender, and this sender is a fresh task every turn",
        ),
        Some(file) => d.note(
            "a `wait` input parks its sender, and this sender is a fresh task every turn; `".to_owned().concat(
                name.as_str(),
            ).concat("` sends in ").concat(file.as_str()).as_str(),
        ),
    };
    d.note(
        "backpressure propagates from a task into a reactor and never from a reactor to a reactor: a reactor is driven by its inbox, so parking its effect task never slows it down and the waiter list grows instead",
    ).note(
        "give the input a larger queue with an observable overflow policy, or add a credit or ack input on the producer, which between reactors is the only place flow control can honestly live",
    )
}

/// Refuse a `send` to a `wait` port from anywhere an `after` can reach. What makes `wait` sound is
/// where the sender stands, and an effect task stands nowhere that can be slowed down.
pub fn check_effect_backpressure(
    program: &Program,
    names: &Vec<String>,
    fn_owner: &Vec<usize>,
    errors: &mut Vec<Vec<Diagnostic>>,
)
    requires
        fn_owner.len() == program.fns.len(),
    ensures
        filed(final(errors)@) == file_each(
            filed(old(errors)@),
            backpressures(
                program@,
                (Modules { names: texts(names@), fn_owner: fn_owner@ }),
                program@.fns.len(),
            ),
        ),
{
    let ghost p = program@;
    let ghost m = modules(names@, fn_owner@);
    let n: usize = program.fns.len();
    let mut sends: Vec<Option<WaitSend>> = Vec::new();
    for f in 0..n
        invariant
            n == program.fns.len(),
            p == program@,
            sends@ == wait_sends_of(p).take(f as int),
    {
        let def = &program.fns[f];
        let send = if def.inert {
            None
        } else {
            first_wait_send(program, &def.body)
        };
        sends.push(send);
        assert(sends@ =~= wait_sends_of(p).take(f + 1));
    }
    assert(sends@ =~= wait_sends_of(p));
    let mut calls: Vec<Vec<FnId>> = Vec::new();
    for f in 0..n
        invariant
            n == program.fns.len(),
            p == program@,
            call_lists(calls@) == live_calls_of(p).take(f as int),
    {
        let ghost c0 = call_lists(calls@);
        let def = &program.fns[f];
        let mut found: Vec<FnId> = Vec::new();
        if !def.inert {
            collect_calls(&def.body, &mut found);
        }
        let ghost listed = found@;
        assert(listed =~= live_calls_of(p)[f as int]);
        calls.push(found);
        assert(call_lists(calls@) =~= c0.push(listed));
        assert(live_calls_of(p).take(f + 1) =~= c0.push(listed));
    }
    assert(call_lists(calls@) =~= live_calls_of(p));
    let mut found: Vec<(usize, Diagnostic)> = Vec::new();
    assert(owned(found@) =~= seq![]);
    for f in 0..n
        invariant
            n == program.fns.len(),
            n == fn_owner.len(),
            p == program@,
            m == modules(names@, fn_owner@),
            call_lists(calls@) == live_calls_of(p),
            sends@ == wait_sends_of(p),
            owned(found@) == backpressures(p, m, f as nat),
    {
        let def = &program.fns[f];
        if !def.inert {
            let owner: usize = fn_owner[f];
            let mut roots: Vec<(Span, FnId)> = Vec::new();
            after_roots(&def.body, &mut roots);
            let ghost all = roots@;
            let ghost base = owned(found@);
            assert(all =~= after_roots_among(stmts_among(within(def@.body))));
            assert(base + seq![] =~= base);
            for k in 0..roots.len()
                invariant
                    p == program@,
                    m == modules(names@, fn_owner@),
                    all == roots@,
                    call_lists(calls@) == live_calls_of(p),
                    sends@ == wait_sends_of(p),
                    owned(found@) == base + root_reports(
                        p,
                        m,
                        owner as int,
                        all.take(k as int),
                    ),
            {
                let (span, root) = roots[k];
                let ghost held = owned(found@);
                let ghost so_far = root_reports(p, m, owner as int, all.take(k as int));
                assert(all.take(k + 1).drop_last() =~= all.take(k as int));
                if let Some((culprit, send)) = reachable_wait_send(&calls, &sends, root) {
                    let d = report_backpressure(
                        program,
                        names,
                        fn_owner,
                        owner,
                        span,
                        culprit,
                        send,
                    );
                    let ghost r = (owner as int, d@);
                    found.push((owner, d));
                    assert(owned(found@) =~= held.push(r));
                    assert((base + so_far).push(r) =~= base + so_far.push(r));
                }
            }
            assert(all.take(roots.len() as int) =~= all);
            let ghost rooted = owned(found@);
            let mut direct: Vec<(Span, WaitSend)> = Vec::new();
            after_sends(program, &def.body, &mut direct);
            let ghost listed = direct@;
            assert(listed =~= after_sends_among(p, stmts_among(within(def@.body))));
            let ghost told = direct_reports(p, owner as int, listed);
            assert(rooted + told.take(0) =~= rooted);
            for k in 0..direct.len()
                invariant
                    p == program@,
                    listed == direct@,
                    told == direct_reports(p, owner as int, listed),
                    owned(found@) == rooted + told.take(k as int),
            {
                let (span, send) = direct[k];
                let ghost held = owned(found@);
                let d = report_direct(program, span, send);
                let ghost r = (owner as int, d@);
                found.push((owner, d));
                assert(owned(found@) =~= held.push(r));
                assert(told.take(k + 1) =~= told.take(k as int).push(r));
                assert((rooted + told.take(k as int)).push(r) =~= rooted + told.take(k + 1));
            }
            assert(told.take(direct.len() as int) =~= told);
        }
    }
    report_each(errors, found);
}

proof fn silent_roots_reach_no_wait(
    p: model::Program,
    m: Modules,
    owner: int,
    roots: Seq<(Span, FnId)>,
    k: int,
)
    requires
        0 <= k < roots.len(),
        root_reports(p, m, owner, roots).len() == 0,
    ensures
        reachable(live_calls_of(p), wait_sends_of(p), roots[k].1) is None,
    decreases roots.len(),
{
    if k < roots.len() - 1 {
        silent_roots_reach_no_wait(p, m, owner, roots.drop_last(), k);
        assert(roots.drop_last()[k] == roots[k]);
    }
}

proof fn silent_sends_are_none(p: model::Program, stmts: Seq<model::Stmt>, i: int)
    requires
        0 <= i < stmts.len(),
        after_sends_among(p, stmts).len() == 0,
    ensures
        after_send(p, stmts[i]).len() == 0,
    decreases stmts.len(),
{
    if i < stmts.len() - 1 {
        silent_sends_are_none(p, stmts.drop_last(), i);
        assert(stmts.drop_last()[i] == stmts[i]);
    }
}

proof fn silent_functions_report_nothing(p: model::Program, m: Modules, n: nat, f: int)
    requires
        0 <= f < n <= p.fns.len(),
        !p.fns[f].inert,
        backpressures(p, m, n).len() == 0,
    ensures
        root_reports(
            p,
            m,
            m.fn_owner[f] as int,
            after_roots_among(stmts_among(within(p.fns[f].body))),
        ).len() == 0,
        after_sends_among(p, stmts_among(within(p.fns[f].body))).len() == 0,
    decreases n,
{
    if f < n - 1 {
        silent_functions_report_nothing(p, m, (n - 1) as nat, f);
    }
}

/// Where nothing is reported of effects, no `after` of a live function is itself a `send` to a `wait`
/// input, and none starts anything that reaches one.
pub proof fn silent_effects_never_wait(p: model::Program, m: Modules, f: FnId)
    requires
        p.fns.len() <= u32::MAX,
        f.0 < p.fns.len(),
        !p.fns[f.0 as int].inert,
        backpressures(p, m, p.fns.len()).len() == 0,
    ensures
        ({
            let stmts = stmts_among(within(p.fns[f.0 as int].body));
            forall|i: int|
                0 <= i < stmts.len() ==> match (#[trigger] stmts[i]).kind {
                    model::StmtKind::After { task, .. } => wait_send_at(p, task) is None,
                    _ => true,
                }
        }),
        ({
            let roots = after_roots_among(stmts_among(within(p.fns[f.0 as int].body)));
            forall|k: int, reached: FnId|
                0 <= k < roots.len() && roots[k].1.0 < p.fns.len() && reached.0 < p.fns.len()
                    && #[trigger] reaches(
                    indices(live_calls_of(p)),
                    everything(p.fns.len()),
                    roots[k].1.0 as usize,
                    reached.0 as usize,
                ) ==> wait_sends_of(p)[reached.0 as int] is None
        }),
{
    let stmts = stmts_among(within(p.fns[f.0 as int].body));
    let roots = after_roots_among(stmts);
    let g = indices(live_calls_of(p));
    let sends = wait_sends_of(p);
    silent_functions_report_nothing(p, m, p.fns.len(), f.0 as int);
    assert forall|i: int| 0 <= i < stmts.len() implies match (#[trigger] stmts[i]).kind {
        model::StmtKind::After { task, .. } => wait_send_at(p, task) is None,
        _ => true,
    } by {
        silent_sends_are_none(p, stmts, i);
    }
    assert forall|k: int, reached: FnId|
        0 <= k < roots.len() && roots[k].1.0 < p.fns.len() && reached.0 < p.fns.len()
            && #[trigger] reaches(
            g,
            everything(p.fns.len()),
            roots[k].1.0 as usize,
            reached.0 as usize,
        ) implies sends[reached.0 as int] is None by {
        let root = roots[k].1;
        silent_roots_reach_no_wait(p, m, m.fn_owner[f.0 as int] as int, roots, k);
        nearest_misses_nothing(g, hits(sends), root.0 as usize);
        match nearest(g, hits(sends), root.0 as usize) {
            Some(x) => {
                assert(hits(sends)[x as int]);
            },
            None => {
                assert(!flag(hits(sends), reached.0 as usize));
            },
        }
    }
}

} // verus!
