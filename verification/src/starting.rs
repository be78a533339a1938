//! What is started and what runs in turns: nothing that a body starts, and no function that a
//! reactor runs, is left out.

use vstd::prelude::*;
use crate::hir::{FnId, Mode, NodeKind};
use crate::model;
use crate::ownership::{arm_hands, handed_parts_are_smaller, hands, stmt_hands, Role};
use crate::sink::{
    started, started_all, started_arms, started_maybe, started_stmt, started_stmts, Started,
};
use crate::turns::{all_turns, input_turns, node_turns, reactor_turns, TurnFn};

verus! {

// ---------------------------------------------------------------- work that outlives its call

/// A statement starts `t` after the turn.
pub open spec fn stmt_starts(it: model::Stmt, t: Started) -> bool {
    it.kind is After && it.kind->After_task == t.task && t.what == "after"@
}

/// `e` itself starts `t`: it is a `spawn`, or one of its statements is an `after`.
pub open spec fn starts_here(e: model::Expr, t: Started) -> bool {
    match e.kind {
        model::ExprKind::Spawn { expr } => *expr == t.task && t.what == "spawn"@,
        model::ExprKind::Block { stmts, .. } => exists|k: int|
            0 <= k < stmts.len() && stmt_starts(#[trigger] stmts[k], t),
        _ => false,
    }
}

/// `t` is started somewhere in `e`.
pub open spec fn begun(
    modes: Seq<Seq<Mode>>,
    v: model::Vocabulary,
    e: model::Expr,
    t: Started,
) -> bool
    decreases e,
{
    ||| starts_here(e, t)
    ||| exists|x: model::Expr, q: Role| #[trigger]
        hands(modes, v, e, x, q) && decreases_to!(e => x) && begun(modes, v, x, t)
}

/// The list of what a body starts holds exactly what is started in it, at any depth and in any
/// branch.
pub proof fn started_work_is_found(
    modes: Seq<Seq<Mode>>,
    v: model::Vocabulary,
    e: model::Expr,
    t: Started,
)
    ensures
        started(e).contains(t) <==> begun(modes, v, e, t),
    decreases e,
{
    assert forall|x: model::Expr, q: Role| #[trigger] hands(modes, v, e, x, q) implies
        decreases_to!(e => x) && (started(x).contains(t) <==> begun(modes, v, x, t)) by {
        handed_parts_are_smaller(modes, v, e, x, q);
        started_work_is_found(modes, v, x, t);
    }
    started_by_parts(modes, v, e, t);
}

proof fn either_holds(a: Seq<Started>, b: Seq<Started>, t: Started)
    ensures
        (a + b).contains(t) <==> a.contains(t) || b.contains(t),
{
    if a.contains(t) {
        let k = choose|k: int| 0 <= k < a.len() && a[k] == t;
        assert((a + b)[k] == t);
    }
    if b.contains(t) {
        let k = choose|k: int| 0 <= k < b.len() && b[k] == t;
        assert((a + b)[k + a.len()] == t);
    }
    if (a + b).contains(t) {
        let k = choose|k: int| 0 <= k < (a + b).len() && (a + b)[k] == t;
        if k < a.len() {
            assert(a[k] == t);
        } else {
            assert(b[k - a.len()] == t);
        }
    }
}

proof fn only_holds(a: Started, t: Started)
    ensures
        seq![a].contains(t) <==> a == t,
        !Seq::<Started>::empty().contains(t),
{
    assert(seq![a][0] == a);
}

proof fn all_hold(es: Seq<model::Expr>, t: Started)
    ensures
        started_all(es).contains(t) <==> exists|k: int|
            0 <= k < es.len() && started(#[trigger] es[k]).contains(t),
    decreases es.len(),
{
    if es.len() > 0 {
        let init = es.drop_last();
        all_hold(init, t);
        either_holds(started_all(init), started(es.last()), t);
        assert forall|k: int| 0 <= k < init.len() implies #[trigger] init[k] == es[k] by {}
        assert(es[es.len() - 1] == es.last());
        if exists|k: int| 0 <= k < init.len() && started(#[trigger] init[k]).contains(t) {
            let k = choose|k: int| 0 <= k < init.len() && started(#[trigger] init[k]).contains(t);
            assert(started(es[k]).contains(t));
        }
        if exists|k: int| 0 <= k < es.len() && started(#[trigger] es[k]).contains(t) {
            let k = choose|k: int| 0 <= k < es.len() && started(#[trigger] es[k]).contains(t);
            if k < init.len() {
                assert(started(init[k]).contains(t));
            }
        }
    }
}

pub open spec fn arm_holds(arm: model::Arm, t: Started) -> bool {
    started(arm.body).contains(t) || (arm.guard is Some && started(arm.guard->0).contains(t))
}

proof fn arms_hold(arms: Seq<model::Arm>, t: Started)
    ensures
        started_arms(arms).contains(t) <==> exists|k: int|
            0 <= k < arms.len() && arm_holds(#[trigger] arms[k], t),
    decreases arms.len(),
{
    if arms.len() > 0 {
        let init = arms.drop_last();
        let arm = arms.last();
        arms_hold(init, t);
        let asked = match arm.guard {
            Some(guard) => started(guard),
            None => seq![],
        };
        only_holds(t, t);
        either_holds(started_arms(init), asked, t);
        either_holds(started_arms(init) + asked, started(arm.body), t);
        assert(arms[arms.len() - 1] == arm);
        if exists|k: int| 0 <= k < init.len() && arm_holds(#[trigger] init[k], t) {
            let k = choose|k: int| 0 <= k < init.len() && arm_holds(#[trigger] init[k], t);
            assert(arm_holds(arms[k], t));
        }
        if exists|k: int| 0 <= k < arms.len() && arm_holds(#[trigger] arms[k], t) {
            let k = choose|k: int| 0 <= k < arms.len() && arm_holds(#[trigger] arms[k], t);
            if k < init.len() {
                assert(arm_holds(init[k], t));
            }
        }
    }
}

proof fn stmts_hold(stmts: Seq<model::Stmt>, t: Started)
    ensures
        started_stmts(stmts).contains(t) <==> exists|k: int|
            0 <= k < stmts.len() && started_stmt(#[trigger] stmts[k]).contains(t),
    decreases stmts.len(),
{
    if stmts.len() > 0 {
        let init = stmts.drop_last();
        stmts_hold(init, t);
        either_holds(started_stmts(init), started_stmt(stmts.last()), t);
        assert(stmts[stmts.len() - 1] == stmts.last());
        if exists|k: int| 0 <= k < init.len() && started_stmt(#[trigger] init[k]).contains(t) {
            let k = choose|k: int|
                0 <= k < init.len() && started_stmt(#[trigger] init[k]).contains(t);
            assert(started_stmt(stmts[k]).contains(t));
        }
        if exists|k: int| 0 <= k < stmts.len() && started_stmt(#[trigger] stmts[k]).contains(t) {
            let k = choose|k: int|
                0 <= k < stmts.len() && started_stmt(#[trigger] stmts[k]).contains(t);
            if k < init.len() {
                assert(started_stmt(init[k]).contains(t));
            }
        }
    }
}

proof fn stmt_holds(it: model::Stmt, t: Started)
    ensures
        started_stmt(it).contains(t) <==> stmt_starts(it, t) || exists|x: model::Expr, q: Role|
            #[trigger] stmt_hands(it, x, q) && started(x).contains(t),
{
    only_holds(t, t);
    match it.kind {
        model::StmtKind::Let { value, .. } => assert(stmt_hands(it, value, Role::Own)),
        model::StmtKind::Assign { place, value } => {
            either_holds(started(place), started(value), t);
            assert(stmt_hands(it, value, Role::Own));
            if !(place.kind is Local) {
                assert(stmt_hands(it, place, Role::Read));
            } else {
                assert(started(place) =~= seq![]);
            }
        },
        model::StmtKind::After { task, .. } => {
            let head = Started { task, what: "after"@ };
            only_holds(head, t);
            either_holds(seq![head], started(task), t);
            assert(stmt_hands(it, task, Role::Own));
        },
        model::StmtKind::Expr(e) => assert(stmt_hands(it, e, Role::Own)),
    }
}

proof fn boxed_once(e: Option<Box<model::Expr>>)
    ensures
        forall|x: model::Expr|
            #![trigger started(x)]
            e == Some(Box::new(x)) <==> e is Some && x == *e->0,
{
}

/// One level: what an expression starts is what it starts itself and what its parts do.
proof fn started_by_parts(
    modes: Seq<Seq<Mode>>,
    v: model::Vocabulary,
    e: model::Expr,
    t: Started,
)
    ensures
        started(e).contains(t) <==> starts_here(e, t) || exists|x: model::Expr, q: Role| #[trigger]
            hands(modes, v, e, x, q) && started(x).contains(t),
{
    only_holds(t, t);
    match e.kind {
        model::ExprKind::Spawn { .. } => spawn_by_parts(modes, v, e, t),
        model::ExprKind::Field { base, .. } => assert(hands(modes, v, e, *base, Role::Read)),
        model::ExprKind::Unary { expr, .. } => assert(hands(modes, v, e, *expr, Role::Own)),
        model::ExprKind::Await { expr } => assert(hands(modes, v, e, *expr, Role::Own)),
        model::ExprKind::Try { expr, .. } => assert(hands(modes, v, e, *expr, Role::Own)),
        model::ExprKind::Scope { body } => assert(hands(modes, v, e, *body, Role::Own)),
        model::ExprKind::Loop { body } => assert(hands(modes, v, e, *body, Role::Own)),
        model::ExprKind::ReactorInput { reactor, .. } => {
            assert(hands(modes, v, e, *reactor, Role::Read));
        },
        model::ExprKind::ReactorExport { reactor, .. } => {
            assert(hands(modes, v, e, *reactor, Role::Read));
        },
        model::ExprKind::Binary { lhs, rhs, .. } => {
            either_holds(started(*lhs), started(*rhs), t);
            assert(hands(modes, v, e, *lhs, Role::Own));
            assert(hands(modes, v, e, *rhs, Role::Own));
        },
        model::ExprKind::ShortCircuit { lhs, rhs, .. } => {
            either_holds(started(*lhs), started(*rhs), t);
            assert(hands(modes, v, e, *lhs, Role::Own));
            assert(hands(modes, v, e, *rhs, Role::Own));
        },
        model::ExprKind::While { cond, body } => {
            either_holds(started(*cond), started(*body), t);
            assert(hands(modes, v, e, *cond, Role::Own));
            assert(hands(modes, v, e, *body, Role::Own));
        },
        model::ExprKind::Call { args, .. } => args_by_parts(modes, v, e, args, t),
        model::ExprKind::Builtin { args, .. } => args_by_parts(modes, v, e, args, t),
        model::ExprKind::Construct { args, .. } => args_by_parts(modes, v, e, args, t),
        model::ExprKind::SpawnReactor { args, .. } => args_by_parts(modes, v, e, args, t),
        model::ExprKind::Match { .. } => match_by_parts(modes, v, e, t),
        model::ExprKind::If { .. } => if_by_parts(modes, v, e, t),
        model::ExprKind::Block { .. } => block_by_parts(modes, v, e, t),
        model::ExprKind::Return { .. } => return_by_parts(modes, v, e, t),
        model::ExprKind::Break { .. } => break_by_parts(modes, v, e, t),
        _ => {},
    }
}

proof fn match_by_parts(modes: Seq<Seq<Mode>>, v: model::Vocabulary, e: model::Expr, t: Started)
    requires
        e.kind is Match,
    ensures
        started(e).contains(t) <==> starts_here(e, t) || exists|x: model::Expr, q: Role| #[trigger]
            hands(modes, v, e, x, q) && started(x).contains(t),
{
    only_holds(t, t);
    match e.kind {
        model::ExprKind::Match { scrutinee, arms } => {
            either_holds(started(*scrutinee), started_arms(arms), t);
            arms_hold(arms, t);
            assert(hands(modes, v, e, *scrutinee, Role::Own));
            assert forall|k: int| 0 <= k < arms.len() && arm_holds(#[trigger] arms[k], t) implies
                exists|x: model::Expr, q: Role| #[trigger]
                hands(modes, v, e, x, q) && started(x).contains(t) by {
                assert(arm_hands(arms[k], arms[k].body, Role::Own));
                assert(hands(modes, v, e, arms[k].body, Role::Own));
                if arms[k].guard is Some {
                    assert(arm_hands(arms[k], arms[k].guard->0, Role::Own));
                    assert(hands(modes, v, e, arms[k].guard->0, Role::Own));
                }
            }
            assert forall|x: model::Expr, q: Role| #[trigger]
                hands(
                    modes,
                    v,
                    e,
                    x,
                    q,
                ) && started(x).contains(t) implies started(e).contains(t) by {
                if !(x == *scrutinee && q == Role::Own) {
                    let k = choose|k: int|
                        0 <= k < arms.len() && arm_hands(#[trigger] arms[k], x, q);
                    assert(arm_holds(arms[k], t));
                }
            }
        },
        _ => {},
    }
}

proof fn if_by_parts(modes: Seq<Seq<Mode>>, v: model::Vocabulary, e: model::Expr, t: Started)
    requires
        e.kind is If,
    ensures
        started(e).contains(t) <==> starts_here(e, t) || exists|x: model::Expr, q: Role| #[trigger]
            hands(modes, v, e, x, q) && started(x).contains(t),
{
    only_holds(t, t);
    match e.kind {
        model::ExprKind::If { cond, then, els } => {
            either_holds(started(*cond), started(*then), t);
            either_holds(started(*cond) + started(*then), started_maybe(els), t);
            assert(hands(modes, v, e, *cond, Role::Own));
            assert(hands(modes, v, e, *then, Role::Own));
            boxed_once(els);
            if els is Some {
                assert(hands(modes, v, e, *els->0, Role::Own));
            }
        },
        _ => {},
    }
}

proof fn block_by_parts(modes: Seq<Seq<Mode>>, v: model::Vocabulary, e: model::Expr, t: Started)
    requires
        e.kind is Block,
    ensures
        started(e).contains(t) <==> starts_here(e, t) || exists|x: model::Expr, q: Role| #[trigger]
            hands(modes, v, e, x, q) && started(x).contains(t),
{
    only_holds(t, t);
    match e.kind {
        model::ExprKind::Block { stmts, tail } => {
            either_holds(started_stmts(stmts), started_maybe(tail), t);
            stmts_hold(stmts, t);
            boxed_once(tail);
            if tail is Some {
                assert(hands(modes, v, e, *tail->0, Role::Own));
            }
            assert forall|k: int| 0 <= k < stmts.len() && started_stmt(
                #[trigger] stmts[k],
            ).contains(t) implies starts_here(e, t) || exists|x: model::Expr, q: Role| #[trigger]
                hands(modes, v, e, x, q) && started(x).contains(t) by {
                stmt_holds(stmts[k], t);
                if !stmt_starts(stmts[k], t) {
                    let (x, q) = choose|x: model::Expr, q: Role| #[trigger]
                        stmt_hands(stmts[k], x, q) && started(x).contains(t);
                    assert(hands(modes, v, e, x, q));
                }
            }
            assert forall|x: model::Expr, q: Role| #[trigger]
                hands(
                    modes,
                    v,
                    e,
                    x,
                    q,
                ) && started(x).contains(t) implies started(e).contains(t) by {
                if !(tail == Some(Box::new(x)) && q == Role::Own) {
                    let k = choose|k: int|
                        0 <= k < stmts.len() && stmt_hands(#[trigger] stmts[k], x, q);
                    stmt_holds(stmts[k], t);
                }
            }
            if starts_here(e, t) {
                let k = choose|k: int| 0 <= k < stmts.len() && stmt_starts(#[trigger] stmts[k], t);
                stmt_holds(stmts[k], t);
            }
        },
        _ => {},
    }
}

proof fn return_by_parts(modes: Seq<Seq<Mode>>, v: model::Vocabulary, e: model::Expr, t: Started)
    requires
        e.kind is Return,
    ensures
        started(e).contains(t) <==> starts_here(e, t) || exists|x: model::Expr, q: Role| #[trigger]
            hands(modes, v, e, x, q) && started(x).contains(t),
{
    only_holds(t, t);
    match e.kind {
        model::ExprKind::Return { value } => {
            boxed_once(value);
            assert(started(e) == started_maybe(value));
            if value is Some {
                assert(hands(modes, v, e, *value->0, Role::Own));
                assert(started_maybe(value) == started(*value->0));
            } else {
                assert(started_maybe(value) =~= seq![]);
            }
        },
        _ => {},
    }
}

proof fn break_by_parts(modes: Seq<Seq<Mode>>, v: model::Vocabulary, e: model::Expr, t: Started)
    requires
        e.kind is Break,
    ensures
        started(e).contains(t) <==> starts_here(e, t) || exists|x: model::Expr, q: Role| #[trigger]
            hands(modes, v, e, x, q) && started(x).contains(t),
{
    only_holds(t, t);
    match e.kind {
        model::ExprKind::Break { value } => {
            boxed_once(value);
            assert(started(e) == started_maybe(value));
            if value is Some {
                assert(hands(modes, v, e, *value->0, Role::Own));
                assert(started_maybe(value) == started(*value->0));
            } else {
                assert(started_maybe(value) =~= seq![]);
            }
        },
        _ => {},
    }
}

proof fn spawn_by_parts(modes: Seq<Seq<Mode>>, v: model::Vocabulary, e: model::Expr, t: Started)
    requires
        e.kind is Spawn,
    ensures
        started(e).contains(t) <==> starts_here(e, t) || exists|x: model::Expr, q: Role| #[trigger]
            hands(modes, v, e, x, q) && started(x).contains(t),
{
    only_holds(t, t);
    match e.kind {
        model::ExprKind::Spawn { expr } => {
            let head = Started { task: *expr, what: "spawn"@ };
            only_holds(head, t);
            either_holds(seq![head], started(*expr), t);
            assert(hands(modes, v, e, *expr, Role::Own));
        },
        _ => {},
    }
}

proof fn args_by_parts(
    modes: Seq<Seq<Mode>>,
    v: model::Vocabulary,
    e: model::Expr,
    args: Seq<model::Expr>,
    t: Started,
)
    requires
        match e.kind {
            model::ExprKind::Call { args: a, .. } => args == a,
            model::ExprKind::Builtin { args: a, .. } => args == a,
            model::ExprKind::Construct { args: a, .. } => args == a,
            model::ExprKind::SpawnReactor { args: a, .. } => args == a,
            _ => false,
        },
    ensures
        started_all(args).contains(t) <==> exists|x: model::Expr, q: Role| #[trigger]
            hands(modes, v, e, x, q) && started(x).contains(t),
{
    all_hold(args, t);
    assert forall|k: int| 0 <= k < args.len() && started(#[trigger] args[k]).contains(t) implies
        exists|x: model::Expr, q: Role| #[trigger]
        hands(modes, v, e, x, q) && started(x).contains(t) by {
        assert(args.contains(args[k]));
        assert(hands(modes, v, e, args[k], Role::Own) || hands(modes, v, e, args[k], Role::Sink)
            || hands(modes, v, e, args[k], Role::Read));
    }
    assert forall|x: model::Expr, q: Role| #[trigger] hands(
        modes,
        v,
        e,
        x,
        q,
    ) implies args.contains(
        x,
    ) by {}
}

// ---------------------------------------------------------------- turns

/// A reactor runs function `f` in a turn: to initialise a cell, to compute a signal, to handle a
/// message, or to come into being.
pub open spec fn runs(r: model::ReactorDef, f: FnId) -> bool {
    ||| exists|k: int| 0 <= k < r.nodes.len() && node_runs(#[trigger] r.nodes[k], f)
    ||| exists|k: int| 0 <= k < r.inputs.len() && (#[trigger] r.inputs[k]).handler == f
    ||| r.init == Some(f)
}

pub open spec fn node_runs(n: model::Node, f: FnId) -> bool {
    match n.kind {
        NodeKind::Param { .. } => false,
        NodeKind::State { init, .. } => init == f,
        NodeKind::Signal { body } => body == f,
    }
}

pub open spec fn lists_turn(list: Seq<TurnFn>, f: FnId, owner: int) -> bool {
    exists|k: int| 0 <= k < list.len() && (#[trigger] list[k]).function == f && list[k].owner
        == owner
}

proof fn lists_either(a: Seq<TurnFn>, b: Seq<TurnFn>, f: FnId, owner: int)
    ensures
        lists_turn(a + b, f, owner) <==> lists_turn(a, f, owner) || lists_turn(b, f, owner),
{
    if lists_turn(a, f, owner) {
        let k = choose|k: int|
            0 <= k < a.len() && (#[trigger] a[k]).function == f && a[k].owner == owner;
        assert((a + b)[k] == a[k]);
    }
    if lists_turn(b, f, owner) {
        let k = choose|k: int|
            0 <= k < b.len() && (#[trigger] b[k]).function == f && b[k].owner == owner;
        assert((a + b)[k + a.len()] == b[k]);
    }
    if lists_turn(a + b, f, owner) {
        let k = choose|k: int|
            0 <= k < (a + b).len() && (#[trigger] (a + b)[k]).function == f && (a + b)[k].owner
                == owner;
        if k < a.len() {
            assert(a[k] == (a + b)[k]);
        } else {
            assert(b[k - a.len()] == (a + b)[k]);
        }
    }
}

proof fn lists_one(t: TurnFn, f: FnId, owner: int)
    ensures
        lists_turn(seq![t], f, owner) <==> t.function == f && t.owner == owner,
        !lists_turn(seq![], f, owner),
{
    assert(seq![t][0] == t);
}

proof fn node_turns_are_listed(nodes: Seq<model::Node>, owner: int, f: FnId, other: int)
    ensures
        lists_turn(node_turns(nodes, owner), f, other) <==> owner == other && exists|k: int|
            0 <= k < nodes.len() && node_runs(#[trigger] nodes[k], f),
    decreases nodes.len(),
{
    if nodes.len() > 0 {
        let init = nodes.drop_last();
        let last = nodes.last();
        node_turns_are_listed(init, owner, f, other);
        let rest = node_turns(init, owner);
        let all = node_turns(nodes, owner);
        if !(last.kind is Param) {
            let t = all.last();
            assert(all =~= rest + seq![t]);
            lists_either(rest, seq![t], f, other);
            lists_one(t, f, other);
        }
        assert(nodes[nodes.len() - 1] == last);
        if exists|k: int| 0 <= k < init.len() && node_runs(#[trigger] init[k], f) {
            let k = choose|k: int| 0 <= k < init.len() && node_runs(#[trigger] init[k], f);
            assert(node_runs(nodes[k], f));
        }
        if exists|k: int| 0 <= k < nodes.len() && node_runs(#[trigger] nodes[k], f) {
            let k = choose|k: int| 0 <= k < nodes.len() && node_runs(#[trigger] nodes[k], f);
            if k < init.len() {
                assert(node_runs(init[k], f));
            }
        }
    }
}

proof fn input_turns_are_listed(inputs: Seq<model::InputDef>, owner: int, f: FnId, other: int)
    ensures
        lists_turn(input_turns(inputs, owner), f, other) <==> owner == other && exists|k: int|
            0 <= k < inputs.len() && (#[trigger] inputs[k]).handler == f,
    decreases inputs.len(),
{
    if inputs.len() > 0 {
        let init = inputs.drop_last();
        let last = inputs.last();
        input_turns_are_listed(init, owner, f, other);
        let rest = input_turns(init, owner);
        let all = input_turns(inputs, owner);
        let t = all.last();
        assert(all =~= rest + seq![t]);
        lists_either(rest, seq![t], f, other);
        lists_one(t, f, other);
        assert(inputs[inputs.len() - 1] == last);
        if exists|k: int| 0 <= k < init.len() && (#[trigger] init[k]).handler == f {
            let k = choose|k: int| 0 <= k < init.len() && (#[trigger] init[k]).handler == f;
            assert(inputs[k].handler == f);
        }
        if exists|k: int| 0 <= k < inputs.len() && (#[trigger] inputs[k]).handler == f {
            let k = choose|k: int| 0 <= k < inputs.len() && (#[trigger] inputs[k]).handler == f;
            if k < init.len() {
                assert(init[k].handler == f);
            }
        }
    }
}

/// The turns of a program are exactly the functions its reactors run, each under the module that
/// owns the reactor.
pub proof fn turns_are_what_reactors_run(
    p: model::Program,
    owners: Seq<usize>,
    n: nat,
    f: FnId,
    owner: int,
)
    requires
        n <= p.reactors.len(),
        n <= owners.len(),
    ensures
        lists_turn(all_turns(p, owners, n), f, owner) <==> exists|k: int|
            0 <= k < n && runs(#[trigger] p.reactors[k], f) && owners[k] as int == owner,
    decreases n,
{
    lists_one(
        TurnFn { function: f, span: crate::span::Span { start: 0, end: 0 }, owner },
        f,
        owner,
    );
    if n > 0 {
        let at = n - 1;
        turns_are_what_reactors_run(p, owners, at as nat, f, owner);
        let r = p.reactors[at];
        let home = owners[at] as int;
        let a = node_turns(r.nodes, home);
        let b = input_turns(r.inputs, home);
        let c: Seq<TurnFn> = match r.init {
            Some(init) => seq![
                TurnFn { function: init, span: crate::turns::fn_span(p, init), owner: home },
            ],
            None => seq![],
        };
        node_turns_are_listed(r.nodes, home, f, owner);
        input_turns_are_listed(r.inputs, home, f, owner);
        if r.init is Some {
            lists_one(c[0], f, owner);
        }
        lists_either(a, b, f, owner);
        lists_either(a + b, c, f, owner);
        lists_either(all_turns(p, owners, at as nat), reactor_turns(p, r, home), f, owner);
        assert(p.reactors[at] == r);
        assert(lists_turn(reactor_turns(p, r, home), f, owner) <==> runs(r, f) && home == owner);
    }
}

} // verus!
