//! Visiting every subexpression of a body, outermost first.

use vstd::prelude::*;
use crate::hir::{arms_of, boxed, exprs, stmts_of, Arm, Expr, ExprKind, FnId, Stmt, StmtKind};
use crate::model;

verus! {

/// The parts of an `after` operand that actually run during the turn. The head call does not:
/// `after deliver(m)` builds `deliver(m)`, and the runtime starts it once the snapshot is
/// published. Its arguments are evaluated on the spot.
pub open spec fn effect_arguments(task: model::Expr) -> Seq<model::Expr> {
    match task.kind {
        model::ExprKind::Call { args, .. } => args,
        model::ExprKind::Builtin { args, .. } => args,
        _ => seq![task],
    }
}

/// Every subexpression that runs where the expression does, outermost first.
pub open spec fn within(e: model::Expr) -> Seq<model::Expr>
    decreases e, 1nat,
{
    seq![e] + below(e)
}

pub open spec fn below(e: model::Expr) -> Seq<model::Expr>
    decreases e, 0nat,
{
    match e.kind {
        model::ExprKind::Call { args, .. } => within_all(args),
        model::ExprKind::Builtin { args, .. } => within_all(args),
        model::ExprKind::Construct { args, .. } => within_all(args),
        model::ExprKind::SpawnReactor { args, .. } => within_all(args),
        model::ExprKind::Field { base, .. } => within(*base),
        model::ExprKind::Unary { expr, .. } => within(*expr),
        model::ExprKind::Await { expr } => within(*expr),
        model::ExprKind::Scope { body } => within(*body),
        model::ExprKind::Spawn { expr } => within(*expr),
        model::ExprKind::Try { expr, .. } => within(*expr),
        model::ExprKind::Loop { body } => within(*body),
        model::ExprKind::ReactorInput { reactor, .. } => within(*reactor),
        model::ExprKind::ReactorExport { reactor, .. } => within(*reactor),
        model::ExprKind::Binary { lhs, rhs, .. } => within(*lhs) + within(*rhs),
        model::ExprKind::ShortCircuit { lhs, rhs, .. } => within(*lhs) + within(*rhs),
        model::ExprKind::While { cond, body } => within(*cond) + within(*body),
        model::ExprKind::Match { scrutinee, arms } => within(*scrutinee) + within_arms(arms),
        model::ExprKind::If { cond, then, els } => within(*cond) + within(*then) + within_maybe(
            els,
        ),
        model::ExprKind::Block { stmts, tail } => within_stmts(stmts) + within_maybe(tail),
        model::ExprKind::Return { value } => within_maybe(value),
        model::ExprKind::Break { value } => within_maybe(value),
        _ => seq![],
    }
}

pub open spec fn within_maybe(e: Option<Box<model::Expr>>) -> Seq<model::Expr>
    decreases e, 2nat,
{
    match e {
        Some(e) => within(*e),
        None => seq![],
    }
}

pub open spec fn within_all(es: Seq<model::Expr>) -> Seq<model::Expr>
    decreases es, 2nat,
{
    if es.len() == 0 {
        seq![]
    } else {
        within_all(es.drop_last()) + within(es.last())
    }
}

pub open spec fn within_arms(arms: Seq<model::Arm>) -> Seq<model::Expr>
    decreases arms, 2nat,
{
    if arms.len() == 0 {
        seq![]
    } else {
        within_arms(arms.drop_last()) + match arms.last().guard {
            Some(guard) => within(guard),
            None => seq![],
        } + within(arms.last().body)
    }
}

pub open spec fn within_stmts(stmts: Seq<model::Stmt>) -> Seq<model::Expr>
    decreases stmts, 2nat,
{
    if stmts.len() == 0 {
        seq![]
    } else {
        within_stmts(stmts.drop_last()) + within_stmt(stmts.last())
    }
}

/// A statement's subexpressions. Of an `after`, only what [`effect_arguments`] names.
pub open spec fn within_stmt(it: model::Stmt) -> Seq<model::Expr>
    decreases it, 2nat,
{
    match it.kind {
        model::StmtKind::Let { value, .. } => within(value),
        model::StmtKind::Assign { place, value } => within(place) + within(value),
        model::StmtKind::After { task, .. } => match task.kind {
            model::ExprKind::Call { args, .. } => within_all(args),
            model::ExprKind::Builtin { args, .. } => within_all(args),
            _ => within(task),
        },
        model::StmtKind::Expr(e) => within(e),
    }
}

/// What a turn runs of an `after` is exactly what its operand's arguments run.
pub proof fn after_runs_only_its_arguments(it: model::Stmt)
    requires
        it.kind is After,
    ensures
        within_stmt(it) == within_all(effect_arguments(it.kind->After_task)),
{
    let task = it.kind->After_task;
    if !(task.kind is Call) && !(task.kind is Builtin) {
        let one = seq![task];
        assert(one.drop_last() =~= seq![]);
        assert(within_all(one.drop_last()) =~= seq![]);
        assert(within_all(one) =~= within(task));
    }
}

/// The contents of a list of borrowed expressions.
pub open spec fn seen(s: Seq<&Expr>) -> Seq<model::Expr> {
    Seq::new(s.len(), |i: int| s[i]@)
}

/// Visit every subexpression, outermost first.
pub fn walk<'e>(expr: &'e Expr, out: &mut Vec<&'e Expr>)
    ensures
        seen(final(out)@) == seen(old(out)@) + within(expr@),
    decreases expr, 1nat,
{
    let ghost before = seen(out@);
    out.push(expr);
    assert(seen(out@) =~= before + seq![expr@]);
    walk_below(expr, out);
    assert(seen(out@) =~= before + (seq![expr@] + below(expr@)));
}

fn walk_below<'e>(expr: &'e Expr, out: &mut Vec<&'e Expr>)
    ensures
        seen(final(out)@) == seen(old(out)@) + below(expr@),
    decreases expr, 0nat,
{
    let ghost before = seen(out@);
    proof {
        expr.look();
    }
    assert(before + seq![] =~= before);
    match &expr.kind {
        ExprKind::Call { args, .. }
        | ExprKind::Builtin { args, .. }
        | ExprKind::Construct { args, .. }
        | ExprKind::SpawnReactor { args, .. } => walk_all(args, out),
        ExprKind::Field { base: inner, .. }
        | ExprKind::Unary { expr: inner, .. }
        | ExprKind::Await { expr: inner }
        | ExprKind::Scope { body: inner }
        | ExprKind::Spawn { expr: inner }
        | ExprKind::Try { expr: inner, .. }
        | ExprKind::Loop { body: inner }
        | ExprKind::ReactorInput { reactor: inner, .. }
        | ExprKind::ReactorExport { reactor: inner, .. } => walk(inner, out),
        ExprKind::Binary { lhs, rhs, .. }
        | ExprKind::ShortCircuit { lhs, rhs, .. }
        | ExprKind::While { cond: lhs, body: rhs } => {
            walk(lhs, out);
            walk(rhs, out);
            assert(seen(out@) =~= before + (within(lhs@) + within(rhs@)));
        },
        ExprKind::Match { scrutinee, arms } => {
            walk(scrutinee, out);
            walk_arms(arms, out);
            assert(seen(out@) =~= before + (within(scrutinee@) + within_arms(arms_of(arms@))));
        },
        ExprKind::If { cond, then, els } => {
            walk(cond, out);
            walk(then, out);
            walk_maybe(els, out);
            assert(seen(out@) =~= before + (within(cond@) + within(then@) + within_maybe(
                boxed(*els),
            )));
        },
        ExprKind::Block { stmts, tail } => {
            walk_block(stmts, out);
            walk_maybe(tail, out);
            assert(seen(out@) =~= before + (within_stmts(stmts_of(stmts@)) + within_maybe(
                boxed(*tail),
            )));
        },
        ExprKind::Return { value } | ExprKind::Break { value } => walk_maybe(value, out),
        ExprKind::Continue
        | ExprKind::Unit
        | ExprKind::Int(_)
        | ExprKind::Float(_)
        | ExprKind::Str(_)
        | ExprKind::Bool(_)
        | ExprKind::Local(_)
        | ExprKind::Error => {},
    }
}

fn walk_maybe<'e>(expr: &'e Option<Box<Expr>>, out: &mut Vec<&'e Expr>)
    ensures
        seen(final(out)@) == seen(old(out)@) + within_maybe(boxed(*expr)),
    decreases expr, 2nat,
{
    assert(seen(out@) + seq![] =~= seen(out@));
    if let Some(expr) = expr {
        walk(expr, out);
    }
}

fn walk_all<'e>(args: &'e Vec<Expr>, out: &mut Vec<&'e Expr>)
    ensures
        seen(final(out)@) == seen(old(out)@) + within_all(exprs(args@)),
    decreases args, 2nat,
{
    let ghost all = exprs(args@);
    let ghost before = seen(out@);
    assert(before + seq![] =~= before);
    for i in 0..args.len()
        invariant
            all == exprs(args@),
            seen(out@) == before + within_all(all.take(i as int)),
    {
        walk(&args[i], out);
        assert(all.take(i + 1).drop_last() =~= all.take(i as int));
        assert(seen(out@) =~= before + (within_all(all.take(i as int)) + within(args[i as int]@)));
    }
    assert(all.take(args.len() as int) =~= all);
}

fn walk_arms<'e>(arms: &'e Vec<Arm>, out: &mut Vec<&'e Expr>)
    ensures
        seen(final(out)@) == seen(old(out)@) + within_arms(arms_of(arms@)),
    decreases arms, 2nat,
{
    let ghost all = arms_of(arms@);
    let ghost before = seen(out@);
    assert(before + seq![] =~= before);
    for i in 0..arms.len()
        invariant
            all == arms_of(arms@),
            seen(out@) == before + within_arms(all.take(i as int)),
    {
        let arm = &arms[i];
        let ghost guarded = match &arm.guard {
            Some(guard) => within(guard@),
            None => seq![],
        };
        if let Some(guard) = &arm.guard {
            walk(guard, out);
        }
        walk(&arm.body, out);
        assert(all.take(i + 1).drop_last() =~= all.take(i as int));
        assert(all.take(i + 1).last() == arm@);
        assert(seen(out@) =~= before + (within_arms(all.take(i as int)) + guarded + within(
            arm.body@,
        )));
    }
    assert(all.take(arms.len() as int) =~= all);
}

fn walk_block<'e>(stmts: &'e Vec<Stmt>, out: &mut Vec<&'e Expr>)
    ensures
        seen(final(out)@) == seen(old(out)@) + within_stmts(stmts_of(stmts@)),
    decreases stmts, 2nat,
{
    let ghost all = stmts_of(stmts@);
    let ghost before = seen(out@);
    assert(before + seq![] =~= before);
    for i in 0..stmts.len()
        invariant
            all == stmts_of(stmts@),
            seen(out@) == before + within_stmts(all.take(i as int)),
    {
        let it = &stmts[i];
        let ghost held = seen(out@);
        match &it.kind {
            StmtKind::Let { value, .. } | StmtKind::Expr(value) => walk(value, out),
            StmtKind::Assign { place, value } => {
                walk(place, out);
                walk(value, out);
                assert(seen(out@) =~= held + (within(place@) + within(value@)));
            },
            StmtKind::After { task, .. } => {
                proof {
                    task.look();
                }
                match &task.kind {
                    ExprKind::Call { args, .. } => walk_all(args, out),
                    ExprKind::Builtin { args, .. } => walk_all(args, out),
                    _ => walk(task, out),
                }
            },
        }
        assert(all.take(i + 1).drop_last() =~= all.take(i as int));
        assert(all.take(i + 1).last() == it@);
        assert(seen(out@) =~= before + (within_stmts(all.take(i as int)) + within_stmt(it@)));
    }
    assert(all.take(stmts.len() as int) =~= all);
}

// ---------------------------------------------------------------- statements

/// The statements of the blocks among several expressions, in order.
pub open spec fn stmts_among(es: Seq<model::Expr>) -> Seq<model::Stmt>
    decreases es.len(),
{
    if es.len() == 0 {
        seq![]
    } else {
        stmts_among(es.drop_last()) + match es.last().kind {
            model::ExprKind::Block { stmts, .. } => stmts,
            _ => seq![],
        }
    }
}

pub open spec fn seen_stmts(s: Seq<&Stmt>) -> Seq<model::Stmt> {
    Seq::new(s.len(), |i: int| s[i]@)
}

/// Visit every statement an expression contains: `walk`'s traversal, statements instead of
/// expressions.
pub fn walk_stmts<'e>(expr: &'e Expr, out: &mut Vec<&'e Stmt>)
    ensures
        seen_stmts(final(out)@) == seen_stmts(old(out)@) + stmts_among(within(expr@)),
{
    let mut es: Vec<&Expr> = Vec::new();
    assert(seen(es@) =~= seq![]);
    walk(expr, &mut es);
    let ghost all = within(expr@);
    assert(seen(es@) =~= all);
    let ghost before = seen_stmts(out@);
    assert(before + seq![] =~= before);
    for i in 0..es.len()
        invariant
            all == seen(es@),
            seen_stmts(out@) == before + stmts_among(all.take(i as int)),
    {
        let e = es[i];
        proof {
            e.look();
            assert(all.take(i + 1).drop_last() =~= all.take(i as int));
            assert(all.take(i + 1).last() == e@);
        }
        let ghost held = seen_stmts(out@);
        assert(held + seq![] =~= held);
        if let ExprKind::Block { stmts, .. } = &e.kind {
            for k in 0..stmts.len()
                invariant
                    seen_stmts(out@) == held + stmts_of(stmts@).take(k as int),
            {
                let ghost now = seen_stmts(out@);
                out.push(&stmts[k]);
                assert(seen_stmts(out@) =~= now.push(stmts@[k as int]@));
                assert(stmts_of(stmts@).take(k + 1) =~= stmts_of(stmts@).take(k as int).push(
                    stmts@[k as int]@,
                ));
                assert(seen_stmts(out@) =~= held + stmts_of(stmts@).take(k + 1));
            }
            assert(stmts_of(stmts@).take(stmts.len() as int) =~= stmts_of(stmts@));
            assert(seen_stmts(out@) =~= before + (stmts_among(all.take(i as int)) + stmts_of(
                stmts@,
            )));
        } else {
            assert(seen_stmts(out@) =~= before + (stmts_among(all.take(i as int)) + seq![]));
        }
    }
    assert(all.take(es.len() as int) =~= all);
}

// ---------------------------------------------------------------- calls

/// A list with `x` at its end, unless it holds `x` already.
pub open spec fn with<T>(list: Seq<T>, x: T) -> Seq<T> {
    if list.contains(x) {
        list
    } else {
        list.push(x)
    }
}

/// The functions called among several expressions, each once, in the order first met.
pub open spec fn callees(found: Seq<FnId>, es: Seq<model::Expr>) -> Seq<FnId>
    decreases es.len(),
{
    if es.len() == 0 {
        found
    } else {
        let found = callees(found, es.drop_last());
        match es.last().kind {
            model::ExprKind::Call { callee, .. } => with(found, callee),
            _ => found,
        }
    }
}

/// Every function this expression calls.
pub fn collect_calls(expr: &Expr, found: &mut Vec<FnId>)
    ensures
        final(found)@ == callees(old(found)@, within(expr@)),
{
    let mut es: Vec<&Expr> = Vec::new();
    assert(seen(es@) =~= seq![]);
    walk(expr, &mut es);
    let ghost all = within(expr@);
    assert(seen(es@) =~= all);
    for i in 0..es.len()
        invariant
            all == seen(es@),
            found@ == callees(old(found)@, all.take(i as int)),
    {
        let e = es[i];
        proof {
            e.look();
            assert(all.take(i + 1).drop_last() =~= all.take(i as int));
            assert(all.take(i + 1).last() == e@);
        }
        if let ExprKind::Call { callee, .. } = &e.kind {
            if !found_in(found, *callee) {
                found.push(*callee);
            }
        }
    }
    assert(all.take(es.len() as int) =~= all);
}

fn found_in(list: &Vec<FnId>, x: FnId) -> (r: bool)
    ensures
        r == list@.contains(x),
{
    for i in 0..list.len()
        invariant
            forall|j: int| 0 <= j < i ==> list@[j] != x,
    {
        if list[i] == x {
            assert(list@[i as int] == x);
            return true;
        }
    }
    false
}

/// A function is listed exactly if it was before or one of the expressions calls it.
pub proof fn callees_are_the_called(found: Seq<FnId>, es: Seq<model::Expr>, id: FnId)
    ensures
        callees(found, es).contains(id) <==> found.contains(id) || exists|i: int|
            0 <= i < es.len() && (#[trigger] es[i]).kind is Call && es[i].kind->Call_callee == id,
    decreases es.len(),
{
    if es.len() > 0 {
        let init = es.drop_last();
        callees_are_the_called(found, init, id);
        let before = callees(found, init);
        let after = callees(found, es);
        if before.contains(id) {
            let m = choose|m: int| 0 <= m < before.len() && before[m] == id;
            assert(after[m] == id);
        }
        if after.contains(id) {
            let m = choose|m: int| 0 <= m < after.len() && after[m] == id;
            if m < before.len() {
                assert(before[m] == id);
            }
        }
        if exists|i: int|
            0 <= i < init.len() && (#[trigger] init[i]).kind is Call && init[i].kind->Call_callee
                == id {
            let i = choose|i: int|
                0 <= i < init.len() && (#[trigger] init[i]).kind is Call
                    && init[i].kind->Call_callee == id;
            assert(es[i].kind->Call_callee == id);
        }
        if exists|i: int|
            0 <= i < es.len() && (#[trigger] es[i]).kind is Call && es[i].kind->Call_callee
                == id {
            let i = choose|i: int|
                0 <= i < es.len() && (#[trigger] es[i]).kind is Call && es[i].kind->Call_callee
                    == id;
            if i < init.len() {
                assert(init[i].kind->Call_callee == id);
            } else if !before.contains(id) {
                assert(after[after.len() - 1] == id);
            }
        }
        if es.last().kind is Call && es.last().kind->Call_callee == id {
            assert(es[es.len() - 1].kind->Call_callee == id);
        }
    }
}

} // verus!
