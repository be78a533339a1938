//! The parts of a typed expression, and what follows for everything that looks through a body.
//!
//! Which expressions are parts of which is said here one step at a time, without regard to how a
//! body is walked. That a walk meets every part at every depth, and nothing else, is then a fact
//! about the walk.

use vstd::prelude::*;
use crate::graph::{edges, everything, flag, is_cycle, is_path, reaches};
use crate::hir::{Builtin, FnId, Overflow};
use crate::model;
use crate::turns::{
    after_root, after_roots_among, backpressures, calls_of, first_impurity, first_loop_in, first_of,
    first_wait_send_in, impurity, indices, live_calls_of, loop_at, silent_effects_never_wait,
    silent_turns_are_pure_and_finite, turn_reports, wait_send_at, wait_sends_of, Modules, TurnFn,
};
use crate::walk::{
    below, callees, stmts_among, within, within_all, within_arms, within_maybe, within_stmt,
    within_stmts,
};

verus! {

// ---------------------------------------------------------------- one step

pub open spec fn is_maybe(x: model::Expr, e: Option<Box<model::Expr>>) -> bool {
    e matches Some(b) && *b == x
}

/// What an `after` does in the turn that meets it: it evaluates the arguments of the work it asks
/// for, and does not start it.
pub open spec fn asked_in_turn(x: model::Expr, task: model::Expr) -> bool {
    match task.kind {
        model::ExprKind::Call { args, .. } => args.contains(x),
        model::ExprKind::Builtin { args, .. } => args.contains(x),
        _ => x == task,
    }
}

pub open spec fn stmt_runs(x: model::Expr, it: model::Stmt) -> bool {
    match it.kind {
        model::StmtKind::Let { value, .. } => x == value,
        model::StmtKind::Assign { place, value } => x == place || x == value,
        model::StmtKind::After { task, .. } => asked_in_turn(x, task),
        model::StmtKind::Expr(e) => x == e,
    }
}

pub open spec fn arm_runs(x: model::Expr, arm: model::Arm) -> bool {
    arm.guard == Some(x) || x == arm.body
}

/// Whether `x` is a part of `e` that runs where `e` does, and no part of a part.
pub open spec fn runs_with(x: model::Expr, e: model::Expr) -> bool {
    match e.kind {
        model::ExprKind::Unit => false,
        model::ExprKind::Int(_) => false,
        model::ExprKind::Float(_) => false,
        model::ExprKind::Str(_) => false,
        model::ExprKind::Bool(_) => false,
        model::ExprKind::Local(_) => false,
        model::ExprKind::Continue => false,
        model::ExprKind::Error => false,
        model::ExprKind::Field { base, .. } => x == *base,
        model::ExprKind::Unary { expr, .. } => x == *expr,
        model::ExprKind::Binary { lhs, rhs, .. } => x == *lhs || x == *rhs,
        model::ExprKind::ShortCircuit { lhs, rhs, .. } => x == *lhs || x == *rhs,
        model::ExprKind::Call { args, .. } => args.contains(x),
        model::ExprKind::Builtin { args, .. } => args.contains(x),
        model::ExprKind::Construct { args, .. } => args.contains(x),
        model::ExprKind::SpawnReactor { args, .. } => args.contains(x),
        model::ExprKind::Match { scrutinee, arms } => x == *scrutinee || exists|k: int|
            0 <= k < arms.len() && arm_runs(x, #[trigger] arms[k]),
        model::ExprKind::If { cond, then, els } => x == *cond || x == *then || is_maybe(x, els),
        model::ExprKind::Block { stmts, tail } => is_maybe(x, tail) || exists|k: int|
            0 <= k < stmts.len() && stmt_runs(x, #[trigger] stmts[k]),
        model::ExprKind::Await { expr } => x == *expr,
        model::ExprKind::Scope { body } => x == *body,
        model::ExprKind::Spawn { expr } => x == *expr,
        model::ExprKind::ReactorInput { reactor, .. } => x == *reactor,
        model::ExprKind::ReactorExport { reactor, .. } => x == *reactor,
        model::ExprKind::Try { expr, .. } => x == *expr,
        model::ExprKind::Return { value } => is_maybe(x, value),
        model::ExprKind::While { cond, body } => x == *cond || x == *body,
        model::ExprKind::Loop { body } => x == *body,
        model::ExprKind::Break { value } => is_maybe(x, value),
    }
}

// ---------------------------------------------------------------- any number of steps

/// Each expression of the list is a part of the one before it.
pub open spec fn descends(p: Seq<model::Expr>) -> bool {
    &&& p.len() > 0
    &&& forall|i: int| 0 <= i < p.len() - 1 ==> runs_with(#[trigger] p[i + 1], p[i])
}

/// Whether `x` is `e` or a part of it at any depth.
pub open spec fn deep(x: model::Expr, e: model::Expr) -> bool {
    exists|p: Seq<model::Expr>| #[trigger] descends(p) && p[0] == e && p.last() == x
}

pub proof fn deep_here(e: model::Expr)
    ensures
        deep(e, e),
{
    let p = seq![e];
    assert(descends(p));
    assert(p[0] == e && p.last() == e);
}

/// A part of a part is a part.
pub proof fn deep_below(x: model::Expr, y: model::Expr, e: model::Expr)
    requires
        runs_with(y, e),
        deep(x, y),
    ensures
        deep(x, e),
{
    let p = choose|p: Seq<model::Expr>| #[trigger] descends(p) && p[0] == y && p.last() == x;
    let q = seq![e] + p;
    assert forall|i: int| 0 <= i < q.len() - 1 implies runs_with(#[trigger] q[i + 1], q[i]) by {
        if i > 0 {
            assert(q[i] == p[i - 1]);
            assert(q[i + 1] == p[i - 1 + 1]);
        } else {
            assert(q[1] == p[0]);
        }
    }
    assert(descends(q));
    assert(q[0] == e && q.last() == x);
}

// ---------------------------------------------------------------- lists

proof fn all_within(es: Seq<model::Expr>, x: model::Expr)
    ensures
        within_all(es).contains(x) <==> exists|k: int|
            0 <= k < es.len() && within(#[trigger] es[k]).contains(x),
    decreases es.len(),
{
    if es.len() > 0 {
        let front = es.drop_last();
        all_within(front, x);
        joined_holds(within_all(front), within(es.last()), x);
        if exists|k: int| 0 <= k < es.len() && within(#[trigger] es[k]).contains(x) {
            let k = choose|k: int| 0 <= k < es.len() && within(#[trigger] es[k]).contains(x);
            if k < front.len() {
                assert(front[k] == es[k]);
            }
        }
        if within_all(front).contains(x) {
            let k = choose|k: int| 0 <= k < front.len() && within(#[trigger] front[k]).contains(x);
            assert(es[k] == front[k]);
        }
        assert(es[es.len() - 1] == es.last());
    }
}

pub proof fn joined_holds<T>(a: Seq<T>, b: Seq<T>, x: T)
    ensures
        (a + b).contains(x) <==> a.contains(x) || b.contains(x),
{
    if a.contains(x) {
        let i = choose|i: int| 0 <= i < a.len() && a[i] == x;
        assert((a + b)[i] == x);
    }
    if b.contains(x) {
        let i = choose|i: int| 0 <= i < b.len() && b[i] == x;
        assert((a + b)[a.len() + i] == x);
    }
    if (a + b).contains(x) {
        let i = choose|i: int| 0 <= i < (a + b).len() && (a + b)[i] == x;
        if i < a.len() {
            assert(a[i] == x);
        } else {
            assert(b[i - a.len()] == x);
        }
    }
}

pub open spec fn arm_holds(arm: model::Arm, x: model::Expr) -> bool {
    (arm.guard matches Some(g) && within(g).contains(x)) || within(arm.body).contains(x)
}

proof fn arms_within(arms: Seq<model::Arm>, x: model::Expr)
    ensures
        within_arms(arms).contains(x) <==> exists|k: int|
            0 <= k < arms.len() && arm_holds(#[trigger] arms[k], x),
    decreases arms.len(),
{
    if arms.len() > 0 {
        let front = arms.drop_last();
        arms_within(front, x);
        let guarded = match arms.last().guard {
            Some(guard) => within(guard),
            None => seq![],
        };
        joined_holds(within_arms(front), guarded, x);
        joined_holds(within_arms(front) + guarded, within(arms.last().body), x);
        if exists|k: int| 0 <= k < arms.len() && arm_holds(#[trigger] arms[k], x) {
            let k = choose|k: int| 0 <= k < arms.len() && arm_holds(#[trigger] arms[k], x);
            if k < front.len() {
                assert(front[k] == arms[k]);
            }
        }
        if within_arms(front).contains(x) {
            let k = choose|k: int| 0 <= k < front.len() && arm_holds(#[trigger] front[k], x);
            assert(arms[k] == front[k]);
        }
        assert(arms[arms.len() - 1] == arms.last());
    }
}

proof fn stmts_within(stmts: Seq<model::Stmt>, x: model::Expr)
    ensures
        within_stmts(stmts).contains(x) <==> exists|k: int|
            0 <= k < stmts.len() && within_stmt(#[trigger] stmts[k]).contains(x),
    decreases stmts.len(),
{
    if stmts.len() > 0 {
        let front = stmts.drop_last();
        stmts_within(front, x);
        joined_holds(within_stmts(front), within_stmt(stmts.last()), x);
        if exists|k: int| 0 <= k < stmts.len() && within_stmt(#[trigger] stmts[k]).contains(x) {
            let k = choose|k: int|
                0 <= k < stmts.len() && within_stmt(#[trigger] stmts[k]).contains(x);
            if k < front.len() {
                assert(front[k] == stmts[k]);
            }
        }
        if within_stmts(front).contains(x) {
            let k = choose|k: int|
                0 <= k < front.len() && within_stmt(#[trigger] front[k]).contains(x);
            assert(stmts[k] == front[k]);
        }
        assert(stmts[stmts.len() - 1] == stmts.last());
    }
}

/// A statement's expressions are those of the parts that run in it.
proof fn stmt_within(it: model::Stmt, x: model::Expr)
    ensures
        within_stmt(it).contains(x) <==> exists|y: model::Expr| #[trigger]
            stmt_runs(y, it) && within(y).contains(x),
{
    match it.kind {
        model::StmtKind::Let { value, .. } => {
            assert(stmt_runs(value, it));
        },
        model::StmtKind::Assign { place, value } => {
            joined_holds(within(place), within(value), x);
            assert(stmt_runs(place, it) && stmt_runs(value, it));
        },
        model::StmtKind::After { task, .. } => {
            match task.kind {
                model::ExprKind::Call { args, .. } => args_within(args, x, it),
                model::ExprKind::Builtin { args, .. } => args_within(args, x, it),
                _ => {
                    assert(stmt_runs(task, it));
                },
            }
        },
        model::StmtKind::Expr(e) => {
            assert(stmt_runs(e, it));
        },
    }
}

proof fn args_within(args: Seq<model::Expr>, x: model::Expr, it: model::Stmt)
    requires
        forall|y: model::Expr| #[trigger] stmt_runs(y, it) <==> args.contains(y),
    ensures
        within_all(args).contains(x) <==> exists|y: model::Expr| #[trigger]
            stmt_runs(y, it) && within(y).contains(x),
{
    all_within(args, x);
    if within_all(args).contains(x) {
        let k = choose|k: int| 0 <= k < args.len() && within(#[trigger] args[k]).contains(x);
        assert(stmt_runs(args[k], it));
    }
    if exists|y: model::Expr| #[trigger] stmt_runs(y, it) && within(y).contains(x) {
        let y = choose|y: model::Expr| #[trigger] stmt_runs(y, it) && within(y).contains(x);
        let k = choose|k: int| 0 <= k < args.len() && args[k] == y;
        assert(within(args[k]).contains(x));
    }
}

proof fn list_runs(args: Seq<model::Expr>, x: model::Expr, e: model::Expr)
    requires
        forall|y: model::Expr| #[trigger] runs_with(y, e) <==> args.contains(y),
    ensures
        within_all(args).contains(x) <==> exists|y: model::Expr| #[trigger]
            runs_with(y, e) && within(y).contains(x),
{
    all_within(args, x);
    if within_all(args).contains(x) {
        let k = choose|k: int| 0 <= k < args.len() && within(#[trigger] args[k]).contains(x);
        assert(runs_with(args[k], e));
    }
    if exists|y: model::Expr| #[trigger] runs_with(y, e) && within(y).contains(x) {
        let y = choose|y: model::Expr| #[trigger] runs_with(y, e) && within(y).contains(x);
        let k = choose|k: int| 0 <= k < args.len() && args[k] == y;
        assert(within(args[k]).contains(x));
    }
}

proof fn match_runs(scrutinee: model::Expr, arms: Seq<model::Arm>, x: model::Expr, e: model::Expr)
    requires
        e.kind is Match,
        scrutinee == *e.kind->Match_scrutinee,
        arms == e.kind->Match_arms,
    ensures
        below(e).contains(x) <==> exists|y: model::Expr| #[trigger]
            runs_with(y, e) && within(y).contains(x),
{
    joined_holds(within(scrutinee), within_arms(arms), x);
    arms_within(arms, x);
    assert(runs_with(scrutinee, e));
    if within_arms(arms).contains(x) {
        let k = choose|k: int| 0 <= k < arms.len() && arm_holds(#[trigger] arms[k], x);
        assert(arm_runs(arms[k].body, arms[k]));
        assert(runs_with(arms[k].body, e));
        if let Some(g) = arms[k].guard {
            assert(arm_runs(g, arms[k]));
            assert(runs_with(g, e));
        }
    }
    if exists|y: model::Expr| #[trigger] runs_with(y, e) && within(y).contains(x) {
        let y = choose|y: model::Expr| #[trigger] runs_with(y, e) && within(y).contains(x);
        if y != scrutinee {
            let k = choose|k: int| 0 <= k < arms.len() && arm_runs(y, #[trigger] arms[k]);
            assert(arm_holds(arms[k], x));
        }
    }
}

proof fn block_runs(
    stmts: Seq<model::Stmt>,
    tail: Option<Box<model::Expr>>,
    x: model::Expr,
    e: model::Expr,
)
    requires
        e.kind is Block,
        stmts == e.kind->Block_stmts,
        tail == e.kind->Block_tail,
    ensures
        below(e).contains(x) <==> exists|y: model::Expr| #[trigger]
            runs_with(y, e) && within(y).contains(x),
{
    joined_holds(within_stmts(stmts), within_maybe(tail), x);
    stmts_within(stmts, x);
    if within_stmts(stmts).contains(x) {
        let k = choose|k: int| 0 <= k < stmts.len() && within_stmt(#[trigger] stmts[k]).contains(x);
        stmt_within(stmts[k], x);
        let y = choose|y: model::Expr| #[trigger] stmt_runs(y, stmts[k]) && within(y).contains(x);
        assert(runs_with(y, e));
    }
    if let Some(t) = tail {
        assert(runs_with(*t, e));
    }
    if exists|y: model::Expr| #[trigger] runs_with(y, e) && within(y).contains(x) {
        let y = choose|y: model::Expr| #[trigger] runs_with(y, e) && within(y).contains(x);
        if !is_maybe(y, tail) {
            let k = choose|k: int| 0 <= k < stmts.len() && stmt_runs(y, #[trigger] stmts[k]);
            stmt_within(stmts[k], x);
        }
    }
}

/// What lies below an expression is what lies in its parts.
proof fn below_is_parts(e: model::Expr, x: model::Expr)
    ensures
        below(e).contains(x) <==> exists|y: model::Expr| #[trigger]
            runs_with(y, e) && within(y).contains(x),
{
    match e.kind {
        model::ExprKind::Call { args, .. } => list_runs(args, x, e),
        model::ExprKind::Builtin { args, .. } => list_runs(args, x, e),
        model::ExprKind::Construct { args, .. } => list_runs(args, x, e),
        model::ExprKind::SpawnReactor { args, .. } => list_runs(args, x, e),
        model::ExprKind::Binary { lhs, rhs, .. } => {
            joined_holds(within(*lhs), within(*rhs), x);
            assert(runs_with(*lhs, e) && runs_with(*rhs, e));
        },
        model::ExprKind::ShortCircuit { lhs, rhs, .. } => {
            joined_holds(within(*lhs), within(*rhs), x);
            assert(runs_with(*lhs, e) && runs_with(*rhs, e));
        },
        model::ExprKind::While { cond, body } => {
            joined_holds(within(*cond), within(*body), x);
            assert(runs_with(*cond, e) && runs_with(*body, e));
        },
        model::ExprKind::Match { scrutinee, arms } => match_runs(*scrutinee, arms, x, e),
        model::ExprKind::If { cond, then, els } => {
            joined_holds(within(*cond), within(*then), x);
            joined_holds(within(*cond) + within(*then), within_maybe(els), x);
            assert(runs_with(*cond, e) && runs_with(*then, e));
            if let Some(b) = els {
                assert(runs_with(*b, e));
            }
        },
        model::ExprKind::Block { stmts, tail } => block_runs(stmts, tail, x, e),
        model::ExprKind::Return { value } => {
            if let Some(b) = value {
                assert(runs_with(*b, e));
            }
        },
        model::ExprKind::Break { value } => {
            if let Some(b) = value {
                assert(runs_with(*b, e));
            }
        },
        model::ExprKind::Field { base, .. } => assert(runs_with(*base, e)),
        model::ExprKind::Unary { expr, .. } => assert(runs_with(*expr, e)),
        model::ExprKind::Await { expr } => assert(runs_with(*expr, e)),
        model::ExprKind::Scope { body } => assert(runs_with(*body, e)),
        model::ExprKind::Spawn { expr } => assert(runs_with(*expr, e)),
        model::ExprKind::Try { expr, .. } => assert(runs_with(*expr, e)),
        model::ExprKind::Loop { body } => assert(runs_with(*body, e)),
        model::ExprKind::ReactorInput { reactor, .. } => assert(runs_with(*reactor, e)),
        model::ExprKind::ReactorExport { reactor, .. } => assert(runs_with(*reactor, e)),
        _ => {},
    }
}

// ---------------------------------------------------------------- a walk meets every part

/// Parts are smaller than what they are parts of.
pub proof fn parts_are_smaller(x: model::Expr, e: model::Expr)
    requires
        runs_with(x, e),
    ensures
        decreases_to!(e => x),
{
    match e.kind {
        model::ExprKind::Call { args, .. } => listed_are_smaller(x, args),
        model::ExprKind::Builtin { args, .. } => listed_are_smaller(x, args),
        model::ExprKind::Construct { args, .. } => listed_are_smaller(x, args),
        model::ExprKind::SpawnReactor { args, .. } => listed_are_smaller(x, args),
        model::ExprKind::Match { scrutinee, arms } => {
            if x != *scrutinee {
                let k = choose|k: int| 0 <= k < arms.len() && arm_runs(x, #[trigger] arms[k]);
                assert(decreases_to!(arms => arms[k]));
                if x != arms[k].body {
                    assert(decreases_to!(arms[k] => arms[k].guard->0));
                    assert(arms[k].guard->0 == x);
                }
                assert(decreases_to!(arms[k] => x));
            }
        },
        model::ExprKind::Block { stmts, tail } => {
            if !is_maybe(x, tail) {
                let k = choose|k: int| 0 <= k < stmts.len() && stmt_runs(x, #[trigger] stmts[k]);
                assert(decreases_to!(stmts => stmts[k]));
                match stmts[k].kind {
                    model::StmtKind::After { task, .. } => {
                        match task.kind {
                            model::ExprKind::Call { args, .. } => listed_are_smaller(x, args),
                            model::ExprKind::Builtin { args, .. } => listed_are_smaller(x, args),
                            _ => {},
                        }
                    },
                    _ => {},
                }
                assert(decreases_to!(stmts[k] => x));
            }
        },
        _ => {},
    }
}

proof fn listed_are_smaller(x: model::Expr, list: Seq<model::Expr>)
    requires
        list.contains(x),
    ensures
        decreases_to!(list => x),
{
    let k = choose|k: int| 0 <= k < list.len() && list[k] == x;
    assert(decreases_to!(list => list[k]));
}

proof fn deep_is_met(p: Seq<model::Expr>)
    requires
        descends(p),
    ensures
        within(p[0]).contains(p.last()),
    decreases p.len(),
{
    let e = p[0];
    joined_holds(seq![e], below(e), p.last());
    if p.len() == 1 {
        assert(seq![e][0] == p.last());
    } else {
        let rest = p.skip(1);
        assert forall|i: int| 0 <= i < rest.len() - 1 implies runs_with(
            #[trigger] rest[i + 1],
            rest[i],
        ) by {
            assert(rest[i + 1] == p[i + 1 + 1]);
        }
        deep_is_met(rest);
        let first: int = 0;
        assert(runs_with(p[first + 1], p[first]));
        below_is_parts(e, p.last());
    }
}

proof fn met_is_deep(e: model::Expr, x: model::Expr)
    requires
        within(e).contains(x),
    ensures
        deep(x, e),
    decreases e,
{
    joined_holds(seq![e], below(e), x);
    if x == e {
        deep_here(e);
    } else {
        below_is_parts(e, x);
        let y = choose|y: model::Expr| #[trigger] runs_with(y, e) && within(y).contains(x);
        parts_are_smaller(y, e);
        met_is_deep(y, x);
        deep_below(x, y, e);
    }
}

/// A walk meets an expression, every part of it that runs with it at whatever depth, and nothing
/// else.
pub proof fn walks_meet_every_part(e: model::Expr, x: model::Expr)
    ensures
        within(e).contains(x) <==> deep(x, e),
{
    if deep(x, e) {
        let p = choose|p: Seq<model::Expr>| #[trigger] descends(p) && p[0] == e && p.last() == x;
        deep_is_met(p);
    }
    if within(e).contains(x) {
        met_is_deep(e, x);
    }
}

// ---------------------------------------------------------------- what is looked for is found

proof fn first_of_all<T>(
    es: Seq<model::Expr>,
    f: spec_fn(model::Expr) -> Option<T>,
    x: model::Expr,
)
    requires
        es.contains(x),
        first_of(es, f) is None,
    ensures
        f(x) is None,
    decreases es.len(),
{
    let k = choose|k: int| 0 <= k < es.len() && es[k] == x;
    if k > 0 {
        assert(es.skip(1)[k - 1] == x);
        first_of_all(es.skip(1), f, x);
    }
}

proof fn first_of_one<T>(es: Seq<model::Expr>, f: spec_fn(model::Expr) -> Option<T>) -> (x:
    model::Expr)
    requires
        first_of(es, f) is Some,
    ensures
        es.contains(x),
        f(x) == first_of(es, f),
    decreases es.len(),
{
    if f(es[0]) is Some {
        es[0]
    } else {
        let x = first_of_one(es.skip(1), f);
        let k = choose|k: int| 0 <= k < es.skip(1).len() && es.skip(1)[k] == x;
        assert(es[k + 1] == x);
        x
    }
}

/// A call that the world can see.
pub open spec fn is_impure(v: model::Vocabulary, e: model::Expr) -> bool {
    e.kind matches model::ExprKind::Builtin { builtin, .. } && v.knows(builtin) && !v.builtin(
        builtin,
    ).pure_call
}

pub open spec fn is_loop(e: model::Expr) -> bool {
    e.kind is While || e.kind is Loop
}

pub open spec fn calls_fn(e: model::Expr, f: FnId) -> bool {
    e.kind matches model::ExprKind::Call { callee, .. } && callee == f
}

/// An impure call is found in a body exactly if there is one at some depth, and the one found is
/// one of them.
pub proof fn impure_calls_are_found(v: model::Vocabulary, body: model::Expr)
    ensures
        match first_impurity(v, body) {
            Some((builtin, span)) => exists|x: model::Expr| #[trigger]
                deep(x, body) && is_impure(v, x) && x.span == span,
            None => forall|x: model::Expr| #[trigger] deep(x, body) ==> !is_impure(v, x),
        },
{
    let f = |e: model::Expr| impurity(v, e);
    if first_impurity(v, body) is Some {
        let x = first_of_one(within(body), f);
        walks_meet_every_part(body, x);
        assert(deep(x, body) && is_impure(v, x));
    } else {
        assert forall|x: model::Expr| #[trigger] deep(x, body) implies !is_impure(v, x) by {
            walks_meet_every_part(body, x);
            first_of_all(within(body), f, x);
            assert(f(x) is None);
        }
    }
}

/// A loop is found in a body exactly if there is one at some depth.
pub proof fn loops_are_found(body: model::Expr)
    ensures
        match first_loop_in(body) {
            Some((word, span)) => exists|x: model::Expr| #[trigger]
                deep(x, body) && is_loop(x) && x.span == span,
            None => forall|x: model::Expr| #[trigger] deep(x, body) ==> !is_loop(x),
        },
{
    let f = |e: model::Expr| loop_at(e);
    if first_loop_in(body) is Some {
        let x = first_of_one(within(body), f);
        walks_meet_every_part(body, x);
        assert(deep(x, body) && is_loop(x));
    } else {
        assert forall|x: model::Expr| #[trigger] deep(x, body) implies !is_loop(x) by {
            walks_meet_every_part(body, x);
            first_of_all(within(body), f, x);
            assert(f(x) is None);
        }
    }
}

/// A `send` to a `wait` input is found in a body exactly if there is one at some depth.
pub proof fn waiting_sends_are_found(p: model::Program, body: model::Expr)
    ensures
        match first_wait_send_in(p, body) {
            Some(send) => exists|x: model::Expr| #[trigger]
                deep(x, body) && wait_send_at(p, x) == Some(send),
            None => forall|x: model::Expr| #[trigger] deep(x, body) ==> wait_send_at(p, x) is None,
        },
{
    let f = |e: model::Expr| wait_send_at(p, e);
    if first_wait_send_in(p, body) is Some {
        let x = first_of_one(within(body), f);
        walks_meet_every_part(body, x);
        assert(deep(x, body) && wait_send_at(p, x) == first_wait_send_in(p, body));
    } else {
        assert forall|x: model::Expr| #[trigger] deep(x, body) implies wait_send_at(
            p,
            x,
        ) is None by {
            walks_meet_every_part(body, x);
            first_of_all(within(body), f, x);
            assert(f(x) is None);
        }
    }
}

proof fn callees_hold(found: Seq<FnId>, es: Seq<model::Expr>, f: FnId)
    ensures
        callees(found, es).contains(f) <==> found.contains(f) || exists|k: int|
            0 <= k < es.len() && calls_fn(#[trigger] es[k], f),
    decreases es.len(),
{
    if es.len() > 0 {
        let front = es.drop_last();
        callees_hold(found, front, f);
        let before = callees(found, front);
        if exists|k: int| 0 <= k < es.len() && calls_fn(#[trigger] es[k], f) {
            let k = choose|k: int| 0 <= k < es.len() && calls_fn(#[trigger] es[k], f);
            if k < front.len() {
                assert(front[k] == es[k]);
            }
        }
        if exists|k: int| 0 <= k < front.len() && calls_fn(#[trigger] front[k], f) {
            let k = choose|k: int| 0 <= k < front.len() && calls_fn(#[trigger] front[k], f);
            assert(es[k] == front[k]);
        }
        if let model::ExprKind::Call { callee, .. } = es.last().kind {
            if !before.contains(callee) {
                let after = before.push(callee);
                if before.contains(f) {
                    let i = choose|i: int| 0 <= i < before.len() && before[i] == f;
                    assert(after[i] == f);
                }
                assert(after[before.len() as int] == callee);
                if after.contains(f) {
                    let i = choose|i: int| 0 <= i < after.len() && after[i] == f;
                    if i < before.len() {
                        assert(before[i] == f);
                    }
                }
            }
            assert(calls_fn(es[es.len() - 1], callee));
        }
    }
}

/// The functions a body is found to call are those that something in it calls, at whatever depth.
pub proof fn calls_are_found(body: model::Expr, f: FnId)
    ensures
        callees(seq![], within(body)).contains(f) <==> exists|x: model::Expr| #[trigger]
            deep(x, body) && calls_fn(x, f),
{
    callees_hold(seq![], within(body), f);
    if callees(seq![], within(body)).contains(f) {
        let es = within(body);
        let k = choose|k: int| 0 <= k < es.len() && calls_fn(#[trigger] es[k], f);
        assert(es.contains(es[k]));
        walks_meet_every_part(body, es[k]);
        assert(deep(es[k], body) && calls_fn(es[k], f));
    }
    if exists|x: model::Expr| #[trigger] deep(x, body) && calls_fn(x, f) {
        let x = choose|x: model::Expr| #[trigger] deep(x, body) && calls_fn(x, f);
        walks_meet_every_part(body, x);
        let es = within(body);
        let k = choose|k: int| 0 <= k < es.len() && es[k] == x;
        assert(calls_fn(es[k], f));
    }
}

// ---------------------------------------------------------------- turns and effects

/// Whether something in a function's body calls another, at whatever depth.
pub open spec fn calls(p: model::Program, f: FnId, g: FnId) -> bool {
    exists|x: model::Expr| #[trigger] deep(x, p.fns[f.0 as int].body) && calls_fn(x, g)
}

/// Each function of the list calls the next.
pub open spec fn calls_along(p: model::Program, fs: Seq<FnId>) -> bool {
    &&& fs.len() > 0
    &&& forall|i: int| 0 <= i < fs.len() ==> (#[trigger] fs[i]).0 < p.fns.len()
    &&& forall|i: int| 0 <= i < fs.len() - 1 ==> calls(p, #[trigger] fs[i], fs[i + 1])
}

pub open spec fn places(fs: Seq<FnId>) -> Seq<usize> {
    Seq::new(fs.len(), |i: int| fs[i].0 as usize)
}

proof fn listed_calls(list: Seq<FnId>, g: FnId)
    requires
        list.contains(g),
    ensures
        Seq::new(list.len(), |i: int| list[i].0 as usize).contains(g.0 as usize),
{
    let k = choose|k: int| 0 <= k < list.len() && list[k] == g;
    assert(Seq::new(list.len(), |i: int| list[i].0 as usize)[k] == g.0 as usize);
}

proof fn calls_make_a_path(p: model::Program, fs: Seq<FnId>)
    requires
        calls_along(p, fs),
    ensures
        is_path(indices(calls_of(p)), everything(p.fns.len()), places(fs)),
{
    let g = indices(calls_of(p));
    let q = places(fs);
    assert forall|i: int| 0 <= i < q.len() - 1 implies #[trigger] edges(g, q[i] as int).contains(
        q[i + 1],
    ) && flag(everything(p.fns.len()), q[i + 1]) by {
        assert(calls(p, fs[i], fs[i + 1]));
        assert(fs[i + 1].0 < p.fns.len());
        calls_are_found(p.fns[fs[i].0 as int].body, fs[i + 1]);
        listed_calls(calls_of(p)[fs[i].0 as int], fs[i + 1]);
    }
}

/// A turn about which nothing is reported runs nothing that the world can see and nothing that may
/// not end: no function that its calls lead to holds an impure call or a loop anywhere in its body,
/// and no way along the calls comes back to a function.
pub proof fn silent_turns_run_clean(
    p: model::Program,
    v: model::Vocabulary,
    m: Modules,
    turn: TurnFn,
    fs: Seq<FnId>,
)
    requires
        p.fns.len() <= u32::MAX,
        calls_along(p, fs),
        fs[0] == turn.function,
        turn_reports(p, v, m, turn).len() == 0,
        forall|x: model::Expr| #[trigger]
            deep(x, p.fns[turn.function.0 as int].body) ==> !is_impure(v, x) && !is_loop(x),
    ensures
        forall|x: model::Expr| #[trigger]
            deep(x, p.fns[fs.last().0 as int].body) ==> !is_impure(v, x) && !is_loop(x),
        forall|i: int, j: int| 0 <= i < j < fs.len() ==> #[trigger] fs[i] != #[trigger] fs[j],
{
    let g = indices(calls_of(p));
    let all = everything(p.fns.len());
    let q = places(fs);
    let own = p.fns[turn.function.0 as int].body;
    impure_calls_are_found(v, own);
    loops_are_found(own);
    calls_make_a_path(p, fs);
    assert(reaches(g, all, turn.function.0 as usize, fs.last().0 as usize)) by {
        assert(q[0] == turn.function.0 as usize && q.last() == fs.last().0 as usize);
    }
    silent_turns_are_pure_and_finite(p, v, m, turn, fs.last());
    impure_calls_are_found(v, p.fns[fs.last().0 as int].body);
    loops_are_found(p.fns[fs.last().0 as int].body);
    assert forall|i: int, j: int| 0 <= i < j < fs.len() implies #[trigger] fs[i]
        != #[trigger] fs[j] by {
        if fs[i] == fs[j] {
            let c = q.subrange(i, j + 1);
            assert forall|k: int| 0 <= k < c.len() - 1 implies #[trigger] edges(
                g,
                c[k] as int,
            ).contains(c[k + 1]) && flag(all, c[k + 1]) by {
                assert(edges(g, q[i + k] as int).contains(q[i + k + 1]));
            }
            assert(is_cycle(g, all, c));
            let start = q.take(i + 1);
            assert forall|k: int| 0 <= k < start.len() - 1 implies #[trigger] edges(
                g,
                start[k] as int,
            ).contains(start[k + 1]) && flag(all, start[k + 1]) by {
                assert(edges(g, q[k] as int).contains(q[k + 1]));
            }
            assert(is_path(g, all, start));
            assert(start[0] == turn.function.0 as usize && start.last() == c[0]);
            assert(reaches(g, all, turn.function.0 as usize, c[0]));
        }
    }
}

/// A statement somewhere in a body.
pub open spec fn holds_stmt(body: model::Expr, it: model::Stmt) -> bool {
    exists|x: model::Expr| #[trigger]
        deep(x, body) && (x.kind matches model::ExprKind::Block { stmts, .. } && stmts.contains(it))
}

proof fn stmts_among_hold(es: Seq<model::Expr>, it: model::Stmt)
    ensures
        stmts_among(es).contains(it) <==> exists|k: int|
            0 <= k < es.len() && ((#[trigger] es[k]).kind matches model::ExprKind::Block {
                stmts,
                ..
            } && stmts.contains(it)),
    decreases es.len(),
{
    if es.len() > 0 {
        let front = es.drop_last();
        stmts_among_hold(front, it);
        let last = match es.last().kind {
            model::ExprKind::Block { stmts, .. } => stmts,
            _ => seq![],
        };
        joined_holds(stmts_among(front), last, it);
        if stmts_among(front).contains(it) {
            let k = choose|k: int|
                0 <= k < front.len() && ((#[trigger] front[k]).kind matches model::ExprKind::Block {
                    stmts,
                    ..
                } && stmts.contains(it));
            assert(es[k] == front[k]);
        }
        if last.contains(it) {
            assert(es[es.len() - 1] == es.last());
        }
        if exists|k: int|
            0 <= k < es.len() && ((#[trigger] es[k]).kind matches model::ExprKind::Block {
                stmts,
                ..
            } && stmts.contains(it)) {
            let k = choose|k: int|
                0 <= k < es.len() && ((#[trigger] es[k]).kind matches model::ExprKind::Block {
                    stmts,
                    ..
                } && stmts.contains(it));
            if k < front.len() {
                assert(front[k] == es[k]);
            }
        }
    }
}

/// The statements a walk meets are those of the blocks in a body, at whatever depth.
pub proof fn statements_are_found(body: model::Expr, it: model::Stmt)
    ensures
        stmts_among(within(body)).contains(it) <==> holds_stmt(body, it),
{
    let es = within(body);
    stmts_among_hold(es, it);
    if stmts_among(es).contains(it) {
        let k = choose|k: int|
            0 <= k < es.len() && ((#[trigger] es[k]).kind matches model::ExprKind::Block {
                stmts,
                ..
            } && stmts.contains(it));
        assert(es.contains(es[k]));
        walks_meet_every_part(body, es[k]);
        assert(deep(es[k], body));
    }
    if holds_stmt(body, it) {
        let x = choose|x: model::Expr| #[trigger]
            deep(x, body) && (x.kind matches model::ExprKind::Block { stmts, .. } && stmts.contains(
                it,
            ));
        walks_meet_every_part(body, x);
        let k = choose|k: int| 0 <= k < es.len() && es[k] == x;
        assert(es[k].kind is Block);
    }
}

proof fn roots_are_listed(stmts: Seq<model::Stmt>, it: model::Stmt, root: FnId)
    requires
        stmts.contains(it),
        after_root(it) == seq![(it.span, root)],
    ensures
        exists|k: int|
            0 <= k < after_roots_among(stmts).len() && (#[trigger] after_roots_among(stmts)[k]).1
                == root,
    decreases stmts.len(),
{
    let k = choose|k: int| 0 <= k < stmts.len() && stmts[k] == it;
    let front = stmts.drop_last();
    let before = after_roots_among(front);
    if k < front.len() {
        assert(front[k] == it);
        roots_are_listed(front, it, root);
        let j = choose|j: int| 0 <= j < before.len() && (#[trigger] before[j]).1 == root;
        assert(after_roots_among(stmts)[j].1 == root);
    } else {
        assert(after_roots_among(stmts)[before.len() as int].1 == root);
    }
}

/// What an `after` asks for: a function to start.
pub open spec fn starts(it: model::Stmt, root: FnId) -> bool {
    it.kind matches model::StmtKind::After { task, .. } && calls_fn(task, root)
}

proof fn live_calls_make_a_path(p: model::Program, fs: Seq<FnId>)
    requires
        calls_along(p, fs),
        forall|i: int| 0 <= i < fs.len() ==> !p.fns[(#[trigger] fs[i]).0 as int].inert,
    ensures
        is_path(indices(live_calls_of(p)), everything(p.fns.len()), places(fs)),
{
    let g = indices(live_calls_of(p));
    let q = places(fs);
    assert forall|i: int| 0 <= i < q.len() - 1 implies #[trigger] edges(g, q[i] as int).contains(
        q[i + 1],
    ) && flag(everything(p.fns.len()), q[i + 1]) by {
        assert(calls(p, fs[i], fs[i + 1]));
        assert(fs[i + 1].0 < p.fns.len());
        assert(!p.fns[fs[i].0 as int].inert);
        calls_are_found(p.fns[fs[i].0 as int].body, fs[i + 1]);
        listed_calls(live_calls_of(p)[fs[i].0 as int], fs[i + 1]);
    }
}

/// Where nothing is reported of effects, an effect waits nowhere: whatever an `after` anywhere in a
/// live function starts, and whatever that leads to along calls, holds no `send` to a `wait` input
/// anywhere in its body, and the `after` is no such `send` itself.
pub proof fn silent_effects_run_clean(
    p: model::Program,
    m: Modules,
    f: FnId,
    it: model::Stmt,
    fs: Seq<FnId>,
)
    requires
        p.fns.len() <= u32::MAX,
        f.0 < p.fns.len(),
        !p.fns[f.0 as int].inert,
        holds_stmt(p.fns[f.0 as int].body, it),
        backpressures(p, m, p.fns.len()).len() == 0,
        calls_along(p, fs),
        starts(it, fs[0]),
        forall|i: int| 0 <= i < fs.len() ==> !p.fns[(#[trigger] fs[i]).0 as int].inert,
    ensures
        forall|x: model::Expr| #[trigger]
            deep(x, p.fns[fs.last().0 as int].body) ==> wait_send_at(p, x) is None,
{
    let stmts = stmts_among(within(p.fns[f.0 as int].body));
    let roots = after_roots_among(stmts);
    statements_are_found(p.fns[f.0 as int].body, it);
    assert(after_root(it) =~= seq![(it.span, fs[0])]);
    roots_are_listed(stmts, it, fs[0]);
    let k = choose|k: int| 0 <= k < roots.len() && (#[trigger] roots[k]).1 == fs[0];
    live_calls_make_a_path(p, fs);
    let q = places(fs);
    assert(q[0] == roots[k].1.0 as usize && q.last() == fs.last().0 as usize);
    assert(reaches(
        indices(live_calls_of(p)),
        everything(p.fns.len()),
        roots[k].1.0 as usize,
        fs.last().0 as usize,
    ));
    silent_effects_never_wait(p, m, f);
    assert(wait_sends_of(p)[fs.last().0 as int] is None);
    assert(!p.fns[fs[fs.len() - 1].0 as int].inert);
    waiting_sends_are_found(p, p.fns[fs.last().0 as int].body);
}

/// Where nothing is reported of effects, no `after` anywhere in a live function is a `send` to a
/// `wait` input.
pub proof fn silent_effects_are_no_waits(
    p: model::Program,
    m: Modules,
    f: FnId,
    it: model::Stmt,
)
    requires
        p.fns.len() <= u32::MAX,
        f.0 < p.fns.len(),
        !p.fns[f.0 as int].inert,
        holds_stmt(p.fns[f.0 as int].body, it),
        backpressures(p, m, p.fns.len()).len() == 0,
    ensures
        it.kind matches model::StmtKind::After { task, .. } ==> wait_send_at(p, task) is None,
{
    let stmts = stmts_among(within(p.fns[f.0 as int].body));
    statements_are_found(p.fns[f.0 as int].body, it);
    silent_effects_never_wait(p, m, f);
    let i = choose|i: int| 0 <= i < stmts.len() && stmts[i] == it;
    assert(stmts[i] == it);
}

/// A `send` that parks its sender: its target is an input whose mailbox makes senders wait when it
/// is full.
pub open spec fn parks(p: model::Program, e: model::Expr) -> bool {
    &&& e.kind is Builtin
    &&& e.kind->Builtin_builtin == Builtin::Send
    &&& e.kind->Builtin_args.len() > 0
    &&& e.kind->Builtin_args[0].kind is ReactorInput
    &&& e.kind->Builtin_args[0].kind->ReactorInput_reactor.ty is Reactor
    &&& {
        let id = e.kind->Builtin_args[0].kind->ReactorInput_reactor.ty->Reactor_0;
        let i = e.kind->Builtin_args[0].kind->ReactorInput_index;
        id.0 < p.reactors.len() && i < p.reactors[id.0 as int].inputs.len()
            && p.reactors[id.0 as int].inputs[i as int].overflow == Overflow::Wait
    }
}

/// A waiting send is found exactly where one parks.
pub proof fn waiting_sends_park(p: model::Program, e: model::Expr)
    ensures
        wait_send_at(p, e) is Some <==> parks(p, e),
        wait_send_at(p, e) matches Some(send) ==> send.span == e.span && send.reactor
            == e.kind->Builtin_args[0].kind->ReactorInput_reactor.ty->Reactor_0 && send.input
            == e.kind->Builtin_args[0].kind->ReactorInput_index,
{
}

} // verus!
