//! Single ownership over typed bodies: a value that has one owner is used as a value once.
//!
//! Ordinary values copy. What is tracked is what [`affine`] names, plus any name handed to a
//! `sink` position, which revokes whatever it is handed. Branches are joined where they come back
//! together, and a loop body is walked once: a body may not move what it did not declare, so a
//! legal body leaves outer ownership exactly where it found it.

use vstd::prelude::*;
use vstd::string::*;
use crate::hir::{
    arms_of, exprs, locals_of, pats, stmts_of, Arm, Builtin, Expr, ExprKind, FnId, LocalDef,
    LocalId, Mode, Pat, PatKind, Program, Stmt, StmtKind, Ty, Vocabulary,
};
use crate::model;
use crate::filing::{file_all, filed, report_all};
use crate::span::{reports, Diagnostic, Report, Span};
use crate::text::{decimal, number};
use crate::types::{affine, ty_name, Affinity};

verus! {

// ---------------------------------------------------------------- the model

/// What a walk reads and never changes.
pub struct Env {
    pub program: model::Program,
    pub vocabulary: model::Vocabulary,
    pub modes: Seq<Seq<Mode>>,
    pub locals: Seq<model::LocalDef>,
}

/// Where ownership stands at one point of a walk.
pub struct State {
    /// For each local, where it went, or `None` while the name still holds its value.
    pub moved: Seq<Option<Span>>,
    /// For each local, whether it was declared on the path so far.
    pub declared: Seq<bool>,
    /// For each enclosing loop, what the jumps that targeted it came to.
    pub frames: Seq<Frame>,
    /// Whether the path has already left the function or the loop.
    pub diverged: bool,
    pub errors: Seq<Report>,
}

/// The jumps to one loop: what was moved at any of them, and whether one of them left the loop.
pub struct Frame {
    pub moved: Seq<Option<Span>>,
    pub left: bool,
}

/// What one branch came to: where ownership stood at its end, and whether its end is unreachable.
pub struct Outcome {
    pub moved: Seq<Option<Span>>,
    pub diverged: bool,
}

pub open spec fn nothing_moved(n: nat) -> Seq<Option<Span>> {
    Seq::new(n, |i: int| None)
}

/// Slot-wise union of move states, keeping the first span seen for each local.
pub open spec fn merged(into: Seq<Option<Span>>, from: Seq<Option<Span>>) -> Seq<Option<Span>> {
    Seq::new(
        into.len(),
        |i: int|
            if into[i] is None && i < from.len() {
                from[i]
            } else {
                into[i]
            },
    )
}

impl State {
    pub open spec fn at(self, id: LocalId) -> Option<Span> {
        if id.0 < self.moved.len() {
            self.moved[id.0 as int]
        } else {
            None
        }
    }

    /// The name now stands as `to` says.
    pub open spec fn mark(self, id: LocalId, to: Option<Span>) -> State {
        if id.0 < self.moved.len() {
            State { moved: self.moved.update(id.0 as int, to), ..self }
        } else {
            self
        }
    }

    /// The name is declared and holds a value.
    pub open spec fn fresh(self, id: LocalId) -> State {
        let s = self.mark(id, None);
        if id.0 < s.declared.len() {
            State { declared: s.declared.update(id.0 as int, true), ..s }
        } else {
            s
        }
    }

    pub open spec fn report(self, r: Report) -> State {
        State { errors: self.errors.push(r), ..self }
    }
}

impl Env {
    pub open spec fn local_name(self, id: LocalId) -> Seq<char> {
        if id.0 < self.locals.len() {
            self.locals[id.0 as int].name
        } else {
            "_"@
        }
    }

    pub open spec fn local_ty(self, id: LocalId) -> model::Ty {
        if id.0 < self.locals.len() {
            self.locals[id.0 as int].ty
        } else {
            model::Ty::Error
        }
    }

    /// Whether a whole-value use of the name is a move.
    pub open spec fn moves(self, id: LocalId) -> bool {
        affine(self.program, self.local_ty(id))
    }

    /// What the callee declared, or inference settled, for one argument position. A position
    /// nothing is recorded for reads.
    pub open spec fn fn_mode(self, callee: FnId, index: int) -> Mode {
        mode_at(self.modes, callee, index)
    }

    pub open spec fn builtin_mode(self, builtin: Builtin, index: int) -> Mode {
        builtin_mode_at(self.vocabulary, builtin, index)
    }
}

/// The recorded mode of one parameter; `Read` where nothing is recorded.
pub open spec fn mode_at(modes: Seq<Seq<Mode>>, callee: FnId, index: int) -> Mode {
    if callee.0 < modes.len() && 0 <= index < modes[callee.0 as int].len() {
        modes[callee.0 as int][index]
    } else {
        Mode::Read
    }
}

pub open spec fn builtin_mode_at(v: model::Vocabulary, builtin: Builtin, index: int) -> Mode {
    if v.knows(builtin) && 0 <= index < v.builtin(builtin).params.len() {
        v.builtin(builtin).params[index].1
    } else {
        Mode::Read
    }
}

/// The advice for a lost task: reading is never the answer for one.
pub open spec fn task_advice_text() -> Seq<char> {
    "a task is work to be done once; build another call if it should happen again"@
}

/// A use of a copyable name that a `sink` position took.
pub open spec fn given_away(env: Env, id: LocalId, moved: Span, span: Span) -> Report {
    let name = env.local_name(id);
    let ty = ty_name(env.program, env.local_ty(id));
    Report::new(span, "`"@ + name + "` was given away"@).label("used here"@).secondary(
        moved,
        "given here"@,
    ).note(
        "a `"@ + ty
            + "` copies, but it was handed to a `sink` parameter, and the name does not survive that"@,
    ).note("`let kept = "@ + name + "` before the call keeps a copy under a name of its own"@)
}

/// A use of an owned value that is somewhere else already.
pub open spec fn already_moved(env: Env, id: LocalId, moved: Span, span: Span) -> Report {
    let name = env.local_name(id);
    let ty = ty_name(env.program, env.local_ty(id));
    Report::new(span, "`"@ + name + "` has already been moved"@).label("used here"@).secondary(
        moved,
        "moved here"@,
    ).note(
        "a `"@ + ty + "` has one owner, and using it as a value is what hands it over"@,
    ).note(
        if env.local_ty(id) is Task {
            task_advice_text()
        } else {
            "reads are unmarked and take nothing; what consumes is a `sink` position, a constructor payload, or a deconstructing `match`"@
        },
    )
}

/// A use of a name: reported if it is not there any more.
pub open spec fn live(env: Env, s: State, id: LocalId, span: Span) -> State {
    match s.at(id) {
        None => s,
        Some(moved) => s.report(
            if env.moves(id) {
                already_moved(env, id, moved, span)
            } else {
                given_away(env, id, moved, span)
            },
        ),
    }
}

pub open spec fn field_name(env: Env, base: model::Ty, index: usize) -> Seq<char> {
    match base {
        model::Ty::Struct(id) => if id.0 < env.program.structs.len() && index
            < env.program.structs[id.0 as int].fields.len() {
            env.program.structs[id.0 as int].fields[index as int].name
        } else {
            decimal(index as nat)
        },
        _ => decimal(index as nat),
    }
}

/// Part of an owned value taken by naming a field.
pub open spec fn out_of_field(env: Env, base: model::Ty, index: usize, span: Span) -> Report {
    Report::new(
        span,
        "`"@ + field_name(env, base, index) + "` cannot be moved out of a `"@ + ty_name(
            env.program,
            base,
        ) + "`"@,
    ).label("this would leave the rest of the value with no owner"@).note(
        "an owned value moves whole; `match` is what takes one apart, as in `match session { Session(conn: conn) => … }`"@,
    ).note(
        "a position that only reads can be handed the whole value: reads are unmarked, and take nothing"@,
    )
}

/// A local the loop moved without declaring.
pub open spec fn moved_in_loop(env: Env, index: int, at: Span) -> Report {
    let local = env.locals[index];
    let ty = ty_name(env.program, local.ty);
    Report::new(at, "`"@ + local.name + "` cannot be moved inside a loop"@).label(
        "moved here"@,
    ).secondary(local.span, "…but it was declared outside the loop"@).note(
        if affine(env.program, local.ty) {
            "a `"@ + ty
                + "` has one owner; the first pass of the loop hands it over, and the next would find it gone"@
        } else {
            "a `"@ + ty
                + "` copies, but the first pass of the loop hands it to a `sink` parameter, and the next would find the name gone"@
        },
    ).note(
        if local.ty is Task {
            task_advice_text()
        } else {
            "declare it inside the loop if each pass should have its own"@
        },
    )
}

/// The reports for the first `n` locals of a loop's summary: moved by the loop, declared before
/// it, and not gone at entry already.
pub open spec fn escaped(
    env: Env,
    entry: Seq<Option<Span>>,
    declared: Seq<bool>,
    summary: Seq<Option<Span>>,
    n: nat,
) -> Seq<Report>
    decreases n,
{
    if n == 0 {
        seq![]
    } else {
        let rest = escaped(env, entry, declared, summary, (n - 1) as nat);
        let i = n - 1;
        if i < summary.len() && i < declared.len() && i < entry.len() && i < env.locals.len()
            && summary[i] is Some && declared[i] && entry[i] is None {
            rest.push(moved_in_loop(env, i, summary[i]->0))
        } else {
            rest
        }
    }
}

/// The name at the bottom of a chain of field reads, if that is what the expression is.
pub open spec fn root(e: model::Expr) -> Option<(LocalId, Span)>
    decreases e,
{
    match e.kind {
        model::ExprKind::Local(id) => Some((id, e.span)),
        model::ExprKind::Field { base, .. } => root(*base),
        _ => None,
    }
}

/// What a `match` keeps reading between guards: the root of a scrutinee that was read as a field
/// chain. A bare name moves into the match instead.
pub open spec fn reread(e: model::Expr) -> Option<(LocalId, Span)> {
    match e.kind {
        model::ExprKind::Field { base, .. } => root(*base),
        _ => None,
    }
}

/// An expression whose value is consumed. This is where a move happens.
pub open spec fn value(env: Env, s: State, e: model::Expr) -> State
    decreases e, 2nat,
{
    match e.kind {
        model::ExprKind::Local(id) => {
            if s.at(id) is None && env.moves(id) {
                s.mark(id, Some(e.span))
            } else {
                live(env, s, id, e.span)
            }
        },
        model::ExprKind::Field { base, index } => {
            let s = if affine(env.program, e.ty) {
                s.report(out_of_field(env, base.ty, index, e.span))
            } else {
                s
            };
            place(env, s, *base)
        },
        _ => parts(env, s, e),
    }
}

/// An expression only part of which is read. The root still has to be live, but nothing moves.
pub open spec fn place(env: Env, s: State, e: model::Expr) -> State
    decreases e, 2nat,
{
    match e.kind {
        model::ExprKind::Local(id) => live(env, s, id, e.span),
        model::ExprKind::Field { base, .. } => place(env, s, *base),
        _ => parts(env, s, e),
    }
}

/// An argument at a `Sink` position: the caller's name dies whatever its type.
pub open spec fn consume(env: Env, s: State, e: model::Expr) -> State
    decreases e, 3nat,
{
    match e.kind {
        model::ExprKind::Local(id) => if s.at(id) is None {
            s.mark(id, Some(e.span))
        } else {
            live(env, s, id, e.span)
        },
        _ => value(env, s, e),
    }
}

/// An argument, as its position's mode says.
pub open spec fn argument(env: Env, s: State, mode: Mode, e: model::Expr) -> State
    decreases e, 4nat,
{
    match mode {
        Mode::Sink => consume(env, s, e),
        _ => place(env, s, e),
    }
}

/// One branch walked from `s`: the state after it, with the walker's own divergence put back, and
/// what the branch came to.
pub open spec fn branch(env: Env, s: State, e: model::Expr) -> (State, Outcome)
    decreases e, 3nat,
{
    let end = value(env, State { diverged: false, ..s }, e);
    (
        State { diverged: s.diverged, ..end },
        Outcome { moved: end.moved, diverged: end.diverged },
    )
}

/// Everything that is neither a name nor a projection, in evaluation order.
pub open spec fn parts(env: Env, s: State, e: model::Expr) -> State
    decreases e, 1nat,
{
    match e.kind {
        model::ExprKind::Field { base, .. } => place(env, s, *base),
        model::ExprKind::Unary { expr, .. } => value(env, s, *expr),
        model::ExprKind::Binary { lhs, rhs, .. } => value(env, value(env, s, *lhs), *rhs),
        model::ExprKind::ShortCircuit { lhs, rhs, .. } => {
            let s = value(env, s, *lhs);
            let (end, taken) = branch(env, s, *rhs);
            rejoin(end, s.moved, seq![taken, Outcome { moved: s.moved, diverged: false }])
        },
        model::ExprKind::Call { callee, args } => call_args(env, s, callee, args),
        model::ExprKind::Builtin { builtin, args } => builtin_args(env, s, builtin, args),
        model::ExprKind::Construct { args, .. } => values(env, s, args),
        model::ExprKind::SpawnReactor { args, .. } => values(env, s, args),
        model::ExprKind::Match { scrutinee, arms } => {
            let s = value(env, s, *scrutinee);
            let (s, entry, outcomes) = arms_from(env, s, reread(*scrutinee), arms);
            rejoin(s, entry, outcomes)
        },
        model::ExprKind::If { .. } => choice(env, s, e),
        model::ExprKind::Block { stmts, tail } => {
            let s = stmts_from(env, s, stmts);
            match tail {
                Some(tail) => value(env, s, *tail),
                None => s,
            }
        },
        model::ExprKind::Await { expr } => value(env, s, *expr),
        model::ExprKind::Spawn { expr } => value(env, s, *expr),
        model::ExprKind::Try { expr, .. } => value(env, s, *expr),
        model::ExprKind::Scope { body } => value(env, s, *body),
        model::ExprKind::ReactorInput { reactor, .. } => place(env, s, *reactor),
        model::ExprKind::ReactorExport { reactor, .. } => place(env, s, *reactor),
        model::ExprKind::Return { value: operand } => {
            let s = match operand {
                Some(operand) => value(env, s, *operand),
                None => s,
            };
            State { diverged: true, ..s }
        },
        model::ExprKind::While { .. } => while_loop(env, s, e),
        model::ExprKind::Loop { .. } => endless_loop(env, s, e),
        model::ExprKind::Break { value: operand } => {
            let s = match operand {
                Some(operand) => value(env, s, *operand),
                None => s,
            };
            State { diverged: true, ..record_exit(s, true) }
        },
        model::ExprKind::Continue => State { diverged: true, ..record_exit(s, false) },
        _ => s,
    }
}

/// An `if`: both sides start where the condition left off, and are joined.
pub open spec fn choice(env: Env, s: State, e: model::Expr) -> State
    decreases e, 0nat,
{
    match e.kind {
        model::ExprKind::If { cond, then, els } => {
            let s = value(env, s, *cond);
            let entry = s.moved;
            let (s, taken) = branch(env, s, *then);
            let (s, missed) = match els {
                Some(els) => branch(env, State { moved: entry, ..s }, *els),
                None => (s, Outcome { moved: entry, diverged: false }),
            };
            rejoin(s, entry, seq![taken, missed])
        },
        _ => s,
    }
}

/// A `while`: the condition is part of the body, since it re-runs every pass. What follows is out of
/// reach only where the condition always jumps and never leaves the loop by it.
pub open spec fn while_loop(env: Env, s: State, e: model::Expr) -> State
    decreases e, 0nat,
{
    match e.kind {
        model::ExprKind::While { cond, body } => {
            let inner = value(env, enter_loop(s), *cond);
            let after_cond = inner.moved;
            let gone = inner.diverged && !left_by_break(inner);
            let (inner, outcome) = branch(env, inner, *body);
            let end = leave_loop(env, s, inner, Some(after_cond), outcome);
            State { diverged: s.diverged || gone, ..end }
        },
        _ => s,
    }
}

/// A `loop`: one that nothing breaks out of never reaches the code after it.
pub open spec fn endless_loop(env: Env, s: State, e: model::Expr) -> State
    decreases e, 0nat,
{
    match e.kind {
        model::ExprKind::Loop { body } => {
            let (inner, outcome) = branch(env, enter_loop(s), *body);
            let s = leave_loop(env, s, inner, None, outcome);
            State { diverged: s.diverged || e.ty is Never, ..s }
        },
        _ => s,
    }
}

pub open spec fn call_args(env: Env, s: State, callee: FnId, args: Seq<model::Expr>) -> State
    decreases args, 5nat,
{
    if args.len() == 0 {
        s
    } else {
        let s = call_args(env, s, callee, args.drop_last());
        argument(env, s, env.fn_mode(callee, args.len() - 1), args.last())
    }
}

pub open spec fn builtin_args(
    env: Env,
    s: State,
    builtin: Builtin,
    args: Seq<model::Expr>,
) -> State
    decreases args, 5nat,
{
    if args.len() == 0 {
        s
    } else {
        let s = builtin_args(env, s, builtin, args.drop_last());
        argument(env, s, env.builtin_mode(builtin, args.len() - 1), args.last())
    }
}

/// Each of several expressions consumed, in order.
pub open spec fn values(env: Env, s: State, args: Seq<model::Expr>) -> State
    decreases args, 5nat,
{
    if args.len() == 0 {
        s
    } else {
        value(env, values(env, s, args.drop_last()), args.last())
    }
}

/// The arms of a `match`. Each starts where the guards before it left off: a guard runs even when
/// its arm does not. A guard that jumps ends its own arm and no other. The second result is that
/// starting point after the last arm.
pub open spec fn arms_from(
    env: Env,
    s: State,
    reread: Option<(LocalId, Span)>,
    arms: Seq<model::Arm>,
) -> (State, Seq<Option<Span>>, Seq<Outcome>)
    decreases arms, 5nat,
{
    if arms.len() == 0 {
        (s, s.moved, seq![])
    } else {
        let (s, entry, outcomes) = arms_from(env, s, reread, arms.drop_last());
        let arm = arms.last();
        let s = bind(State { moved: entry, ..s }, arm.pat);
        let (s, entry, gone) = match arm.guard {
            Some(guard) => {
                let (s, asked) = branch(env, s, guard);
                let s = match reread {
                    Some((id, span)) => live(env, s, id, span),
                    None => s,
                };
                (s, s.moved, asked.diverged)
            },
            None => (s, entry, false),
        };
        let (s, outcome) = branch(env, s, arm.body);
        (s, entry, outcomes.push(Outcome { diverged: gone || outcome.diverged, ..outcome }))
    }
}

pub open spec fn stmts_from(env: Env, s: State, stmts: Seq<model::Stmt>) -> State
    decreases stmts, 5nat,
{
    if stmts.len() == 0 {
        s
    } else {
        stmt(env, stmts_from(env, s, stmts.drop_last()), stmts.last())
    }
}

pub open spec fn stmt(env: Env, s: State, it: model::Stmt) -> State
    decreases it, 5nat,
{
    match it.kind {
        model::StmtKind::Let { local, value: v } => value(env, s, v).fresh(local),
        model::StmtKind::Assign { place: target, value: v } => {
            let s = value(env, s, v);
            match target.kind {
                model::ExprKind::Local(id) => s.mark(id, None),
                _ => place(env, s, target),
            }
        },
        model::StmtKind::After { task, .. } => value(env, s, task),
        model::StmtKind::Expr(e) => value(env, s, e),
    }
}

/// The names a pattern introduces, each fresh.
pub open spec fn bind(s: State, p: model::Pat) -> State
    decreases p,
{
    match p.kind {
        model::PatKind::Bind(id) => s.fresh(id),
        model::PatKind::Variant { args, .. } => bind_all(s, args),
        model::PatKind::Struct { args, .. } => bind_all(s, args),
        model::PatKind::Or(alts) => bind_all(s, alts),
        _ => s,
    }
}

pub open spec fn bind_all(s: State, ps: Seq<model::Pat>) -> State
    decreases ps,
{
    if ps.len() == 0 {
        s
    } else {
        bind(bind_all(s, ps.drop_last()), ps.last())
    }
}

/// The first branch that reaches the join having moved local `i`.
pub open spec fn first_moved(outcomes: Seq<Outcome>, i: int) -> Option<Span>
    decreases outcomes.len(),
{
    if outcomes.len() == 0 {
        None
    } else {
        match first_moved(outcomes.drop_last(), i) {
            Some(span) => Some(span),
            None => if !outcomes.last().diverged && i < outcomes.last().moved.len() {
                outcomes.last().moved[i]
            } else {
                None
            },
        }
    }
}

pub open spec fn some_reach(outcomes: Seq<Outcome>) -> bool {
    exists|k: int| 0 <= k < outcomes.len() && !(#[trigger] outcomes[k]).diverged
}

/// The branches back together: a name is moved afterwards if it was before, or if a branch that
/// reaches the join moved it. If none reaches it, what follows is unreachable.
pub open spec fn rejoin(s: State, entry: Seq<Option<Span>>, outcomes: Seq<Outcome>) -> State {
    if some_reach(outcomes) {
        State {
            moved: Seq::new(
                entry.len(),
                |i: int|
                    if entry[i] is None {
                        first_moved(outcomes, i)
                    } else {
                        entry[i]
                    },
            ),
            ..s
        }
    } else {
        State { moved: entry, diverged: true, ..s }
    }
}

/// What the jumps to the innermost loop have moved so far. A jump that no path arrives at leaves
/// nothing.
pub open spec fn record_exit(s: State, leaves: bool) -> State {
    if s.frames.len() == 0 {
        s
    } else {
        let frame = s.frames.last();
        State {
            frames: s.frames.drop_last().push(
                Frame {
                    moved: merged(frame.moved, s.moved),
                    left: frame.left || (leaves && !s.diverged),
                },
            ),
            ..s
        }
    }
}

/// Whether a `break` has left the innermost loop.
pub open spec fn left_by_break(s: State) -> bool {
    s.frames.len() > 0 && s.frames.last().left
}

pub open spec fn enter_loop(s: State) -> State {
    State {
        frames: s.frames.push(Frame { moved: nothing_moved(s.moved.len()), left: false }),
        ..s
    }
}

/// A loop is over: whatever can reach its back edge or its exit is summed up, what escaped is
/// reported, and outer ownership is what it was at entry.
pub open spec fn leave_loop(
    env: Env,
    entry: State,
    inner: State,
    after_cond: Option<Seq<Option<Span>>>,
    body: Outcome,
) -> State {
    let summary = if inner.frames.len() == 0 {
        nothing_moved(entry.moved.len())
    } else {
        inner.frames.last().moved
    };
    let summary = match after_cond {
        Some(moved) => merged(summary, moved),
        None => summary,
    };
    let summary = if body.diverged {
        summary
    } else {
        merged(summary, body.moved)
    };
    State {
        moved: entry.moved,
        frames: if inner.frames.len() == 0 {
            inner.frames
        } else {
            inner.frames.drop_last()
        },
        errors: inner.errors + escaped(
            env,
            entry.moved,
            entry.declared,
            summary,
            summary.len(),
        ),
        ..inner
    }
}

/// Where a function's body starts: its parameters are declared and nothing has moved.
pub open spec fn at_entry(f: model::FnDef) -> State {
    State {
        moved: nothing_moved(f.locals.len()),
        declared: Seq::new(f.locals.len(), |i: int| i < f.params),
        frames: seq![],
        diverged: false,
        errors: seq![],
    }
}

/// What the ownership walk of one function reports.
pub open spec fn fn_moves(
    p: model::Program,
    v: model::Vocabulary,
    modes: Seq<Seq<Mode>>,
    f: model::FnDef,
) -> Seq<Report> {
    value(
        Env { program: p, vocabulary: v, modes, locals: f.locals },
        at_entry(f),
        f.body,
    ).errors
}

// ---------------------------------------------------------------- the walk

/// Take over, slot by slot, what `from` moved and `into` has not.
pub fn union(into: &mut Vec<Option<Span>>, from: &Vec<Option<Span>>)
    ensures
        final(into)@ == merged(old(into)@, from@),
{
    let ghost before = into@;
    let n: usize = into.len();
    for i in 0..n
        invariant
            n == before.len(),
            into.len() == before.len(),
            forall|j: int| 0 <= j < i ==> into@[j] == merged(before, from@)[j],
            forall|j: int| i <= j < before.len() ==> into@[j] == before[j],
    {
        if into[i].is_none() && i < from.len() {
            into.set(i, from[i]);
        }
    }
    assert(into@ =~= merged(before, from@));
}

fn copied(v: &Vec<Option<Span>>) -> (r: Vec<Option<Span>>)
    ensures
        r@ == v@,
{
    let mut r: Vec<Option<Span>> = Vec::new();
    for i in 0..v.len()
        invariant
            r@ == v@.take(i as int),
    {
        r.push(v[i]);
        assert(v@.take(i + 1) =~= v@.take(i as int).push(v@[i as int]));
    }
    assert(v@.take(v.len() as int) =~= v@);
    r
}

fn none_moved(n: usize) -> (r: Vec<Option<Span>>)
    ensures
        r@ == nothing_moved(n as nat),
{
    let mut r: Vec<Option<Span>> = Vec::new();
    for i in 0..n
        invariant
            r@ == nothing_moved(i as nat),
    {
        r.push(None);
        assert(r@ =~= nothing_moved((i + 1) as nat));
    }
    r
}

/// The advice for a lost task, shared between "already moved" and "moved inside a loop": reading
/// is never the answer for one, because running it twice is what was wanted and is not what a
/// read would give.
pub fn task_advice() -> (r: String)
    ensures
        r@ == task_advice_text(),
{
    "a task is work to be done once; build another call if it should happen again".to_owned()
}

/// Whether a match scrutinee was *read* rather than moved: a field chain rooted at a name.
pub fn read_as_place(expr: &Expr) -> (r: bool)
    ensures
        r == (reread(expr@) is Some),
{
    proof {
        expr.look();
    }
    match &expr.kind {
        ExprKind::Field { base, .. } => rooted_at_local(base),
        _ => false,
    }
}

pub fn rooted_at_local(expr: &Expr) -> (r: bool)
    ensures
        r == (root(expr@) is Some),
    decreases expr,
{
    proof {
        expr.look();
    }
    match &expr.kind {
        ExprKind::Local(_) => true,
        ExprKind::Field { base, .. } => rooted_at_local(base),
        _ => false,
    }
}

fn root_of(expr: &Expr) -> (r: Option<(LocalId, Span)>)
    ensures
        r == root(expr@),
    decreases expr,
{
    proof {
        expr.look();
    }
    match &expr.kind {
        ExprKind::Local(id) => Some((*id, expr.span)),
        ExprKind::Field { base, .. } => root_of(base),
        _ => None,
    }
}

fn root_reread(scrutinee: &Expr) -> (r: Option<(LocalId, Span)>)
    ensures
        r == reread(scrutinee@),
{
    proof {
        scrutinee.look();
    }
    if read_as_place(scrutinee) {
        root_of(scrutinee)
    } else {
        None
    }
}

/// What one branch came to.
struct Branch {
    moved: Vec<Option<Span>>,
    diverged: bool,
}

spec fn outcomes_of(s: Seq<Branch>) -> Seq<Outcome> {
    Seq::new(s.len(), |i: int| Outcome { moved: s[i].moved@, diverged: s[i].diverged })
}

/// The jumps to one loop.
struct Exits {
    moved: Vec<Option<Span>>,
    left: bool,
}

spec fn frames_of(s: Seq<Exits>) -> Seq<Frame> {
    Seq::new(s.len(), |i: int| Frame { moved: s[i].moved@, left: s[i].left })
}

pub open spec fn rows(s: Seq<Vec<Mode>>) -> Seq<Seq<Mode>> {
    Seq::new(s.len(), |i: int| s[i]@)
}

/// The recorded mode of one parameter; `Read` where nothing is recorded.
pub fn mode_of(modes: &Vec<Vec<Mode>>, callee: FnId, index: usize) -> (r: Mode)
    ensures
        r == mode_at(rows(modes@), callee, index as int),
{
    let row: usize = callee.index();
    if row < modes.len() && index < modes[row].len() {
        modes[row][index]
    } else {
        Mode::Read
    }
}

pub fn builtin_mode_of(vocabulary: &Vocabulary, builtin: Builtin, index: usize) -> (r: Mode)
    ensures
        r == builtin_mode_at(vocabulary@, builtin, index as int),
{
    if let Builtin::Host(entry) = builtin {
        if entry as usize >= vocabulary.host.len() {
            return Mode::Read;
        }
    }
    let def = vocabulary.builtin(builtin);
    if index < def.params.len() {
        def.params[index].1
    } else {
        Mode::Read
    }
}

/// One function body's worth of ownership, tracked as it is walked.
struct Moves<'p> {
    program: &'p Program,
    vocabulary: &'p Vocabulary,
    affinity: &'p Affinity,
    param_modes: &'p Vec<Vec<Mode>>,
    locals: &'p Vec<LocalDef>,
    moved: Vec<Option<Span>>,
    declared: Vec<bool>,
    frames: Vec<Exits>,
    diverged: bool,
    errors: Vec<Diagnostic>,
}

impl<'p> Moves<'p> {
    spec fn env(&self) -> Env {
        Env {
            program: self.program@,
            vocabulary: self.vocabulary@,
            modes: rows(self.param_modes@),
            locals: locals_of(self.locals@),
        }
    }

    spec fn inv(&self) -> bool {
        self.affinity.describes(self.program@)
    }

    spec fn state(&self) -> State {
        State {
            moved: self.moved@,
            declared: self.declared@,
            frames: frames_of(self.frames@),
            diverged: self.diverged,
            errors: reports(self.errors@),
        }
    }

    fn affine(&self, t: &Ty) -> (r: bool)
        requires
            self.inv(),
        ensures
            r == affine(self.env().program, t@),
    {
        self.affinity.holds(Ghost(self.program@), t)
    }

    fn error(&mut self, d: Diagnostic)
        requires
            old(self).inv(),
        ensures
            final(self).inv(),
            final(self).env() == old(self).env(),
            final(self).state() == old(self).state().report(d@),
    {
        self.errors.push(d);
        assert(reports(self.errors@) =~= old(self).state().errors.push(d@));
    }

    fn mark(&mut self, id: LocalId, to: Option<Span>)
        requires
            old(self).inv(),
        ensures
            final(self).inv(),
            final(self).env() == old(self).env(),
            final(self).state() == old(self).state().mark(id, to),
    {
        let index: usize = id.index();
        if index < self.moved.len() {
            self.moved.set(index, to);
        }
    }

    fn fresh(&mut self, id: LocalId)
        requires
            old(self).inv(),
        ensures
            final(self).inv(),
            final(self).env() == old(self).env(),
            final(self).state() == old(self).state().fresh(id),
    {
        self.mark(id, None);
        let index: usize = id.index();
        if index < self.declared.len() {
            self.declared.set(index, true);
        }
    }

    /// Whether a whole-value use of the name is a move.
    fn moves(&self, id: LocalId) -> (r: bool)
        requires
            self.inv(),
        ensures
            r == self.env().moves(id),
    {
        let index: usize = id.index();
        if index < self.locals.len() {
            self.affine(&self.locals[index].ty)
        } else {
            self.affine(&Ty::Error)
        }
    }

    fn fn_mode(&self, callee: FnId, index: usize) -> (r: Mode)
        ensures
            r == self.env().fn_mode(callee, index as int),
    {
        mode_of(self.param_modes, callee, index)
    }

    /// Report a use of something that is not there any more. `false` means it was reported at
    /// this use, so the caller should not also record a second move.
    fn live(&mut self, id: LocalId, span: Span) -> (r: bool)
        requires
            old(self).inv(),
        ensures
            final(self).inv(),
            final(self).env() == old(self).env(),
            r == (old(self).state().at(id) is None),
            final(self).state() == live(old(self).env(), old(self).state(), id, span),
    {
        let index: usize = id.index();
        if index >= self.moved.len() {
            return true;
        }
        let moved = match self.moved[index] {
            Some(moved) => moved,
            None => {
                return true;
            },
        };
        let known = index < self.locals.len();
        let name = if known {
            self.locals[index].name.clone()
        } else {
            "_".to_owned()
        };
        let ty = if known {
            self.locals[index].ty.copy()
        } else {
            Ty::Error
        };
        let spelled = self.program.ty_name(&ty);
        if !self.moves(id) {
            let d = Diagnostic::new(
                span,
                "`".to_owned().concat(name.as_str()).concat("` was given away"),
            ).label("used here").secondary(moved, "given here").note(
                "a `".to_owned().concat(spelled.as_str()).concat(
                    "` copies, but it was handed to a `sink` parameter, and the name does not survive that",
                ).as_str(),
            ).note(
                "`let kept = ".to_owned().concat(name.as_str()).concat(
                    "` before the call keeps a copy under a name of its own",
                ).as_str(),
            );
            self.error(d);
            return false;
        }
        let advice = match &ty {
            Ty::Task(_) => task_advice(),
            _ =>
            "reads are unmarked and take nothing; what consumes is a `sink` position, a constructor payload, or a deconstructing `match`".to_owned(),
        };
        let d = Diagnostic::new(
            span,
            "`".to_owned().concat(name.as_str()).concat("` has already been moved"),
        ).label("used here").secondary(moved, "moved here").note(
            "a `".to_owned().concat(spelled.as_str()).concat(
                "` has one owner, and using it as a value is what hands it over",
            ).as_str(),
        ).note(advice.as_str());
        self.error(d);
        false
    }

    fn out_of_field(&mut self, base: &Expr, index: usize, span: Span)
        requires
            old(self).inv(),
        ensures
            final(self).inv(),
            final(self).env() == old(self).env(),
            final(self).state() == old(self).state().report(
                out_of_field(old(self).env(), base@.ty, index, span),
            ),
    {
        proof {
            base.look();
        }
        let field = match &base.ty {
            Ty::Struct(id) => {
                let at: usize = id.index();
                if at < self.program.structs.len() && index
                    < self.program.structs[at].fields.len() {
                    self.program.structs[at].fields[index].name.clone()
                } else {
                    number(index)
                }
            },
            _ => number(index),
        };
        let whole = self.program.ty_name(&base.ty);
        let d = Diagnostic::new(
            span,
            "`".to_owned().concat(field.as_str()).concat("` cannot be moved out of a `").concat(
                whole.as_str(),
            ).concat("`"),
        ).label("this would leave the rest of the value with no owner").note(
            "an owned value moves whole; `match` is what takes one apart, as in `match session { Session(conn: conn) => … }`",
        ).note(
            "a position that only reads can be handed the whole value: reads are unmarked, and take nothing",
        );
        self.error(d);
    }

    /// An expression whose value is consumed. This is where a move happens.
    fn value(&mut self, expr: &Expr)
        requires
            old(self).inv(),
        ensures
            final(self).inv(),
            final(self).env() == old(self).env(),
            final(self).state() == value(old(self).env(), old(self).state(), expr@),
        decreases expr, 2nat,
    {
        proof {
            expr.look();
        }
        match &expr.kind {
            ExprKind::Local(id) => {
                if self.live(*id, expr.span) && self.moves(*id) {
                    self.mark(*id, Some(expr.span));
                }
            },
            ExprKind::Field { base, index } => {
                if self.affine(&expr.ty) {
                    self.out_of_field(base, *index, expr.span);
                }
                self.place(base);
            },
            _ => self.parts(expr),
        }
    }

    /// An expression only part of which is read: the base of a field access, or an argument at a
    /// `Read` position. The root still has to be live, but nothing moves.
    fn place(&mut self, expr: &Expr)
        requires
            old(self).inv(),
        ensures
            final(self).inv(),
            final(self).env() == old(self).env(),
            final(self).state() == place(old(self).env(), old(self).state(), expr@),
        decreases expr, 2nat,
    {
        proof {
            expr.look();
        }
        match &expr.kind {
            ExprKind::Local(id) => {
                self.live(*id, expr.span);
            },
            ExprKind::Field { base, .. } => self.place(base),
            _ => self.parts(expr),
        }
    }

    /// An argument at a `Sink` position: the caller's name dies whatever its type.
    fn consume(&mut self, expr: &Expr)
        requires
            old(self).inv(),
        ensures
            final(self).inv(),
            final(self).env() == old(self).env(),
            final(self).state() == consume(old(self).env(), old(self).state(), expr@),
        decreases expr, 3nat,
    {
        proof {
            expr.look();
        }
        match &expr.kind {
            ExprKind::Local(id) => {
                if self.live(*id, expr.span) {
                    self.mark(*id, Some(expr.span));
                }
            },
            _ => self.value(expr),
        }
    }

    fn argument(&mut self, mode: Mode, expr: &Expr)
        requires
            old(self).inv(),
        ensures
            final(self).inv(),
            final(self).env() == old(self).env(),
            final(self).state() == argument(old(self).env(), old(self).state(), mode, expr@),
        decreases expr, 4nat,
    {
        match mode {
            Mode::Sink => self.consume(expr),
            Mode::Read | Mode::Mut => self.place(expr),
        }
    }

    fn call_args(&mut self, callee: FnId, args: &Vec<Expr>)
        requires
            old(self).inv(),
        ensures
            final(self).inv(),
            final(self).env() == old(self).env(),
            final(self).state() == call_args(
                old(self).env(),
                old(self).state(),
                callee,
                exprs(args@),
            ),
        decreases args, 5nat,
    {
        let ghost all = exprs(args@);
        for i in 0..args.len()
            invariant
                all == exprs(args@),
                self.inv(),
                self.env() == old(self).env(),
                self.state() == call_args(
                    old(self).env(),
                    old(self).state(),
                    callee,
                    all.take(i as int),
                ),
        {
            let mode = self.fn_mode(callee, i);
            self.argument(mode, &args[i]);
            assert(all.take(i + 1).drop_last() =~= all.take(i as int));
        }
        assert(all.take(args.len() as int) =~= all);
    }

    fn builtin_args(&mut self, builtin: Builtin, args: &Vec<Expr>)
        requires
            old(self).inv(),
        ensures
            final(self).inv(),
            final(self).env() == old(self).env(),
            final(self).state() == builtin_args(
                old(self).env(),
                old(self).state(),
                builtin,
                exprs(args@),
            ),
        decreases args, 5nat,
    {
        let ghost all = exprs(args@);
        for i in 0..args.len()
            invariant
                all == exprs(args@),
                self.inv(),
                self.env() == old(self).env(),
                self.state() == builtin_args(
                    old(self).env(),
                    old(self).state(),
                    builtin,
                    all.take(i as int),
                ),
        {
            let mode = builtin_mode_of(self.vocabulary, builtin, i);
            self.argument(mode, &args[i]);
            assert(all.take(i + 1).drop_last() =~= all.take(i as int));
        }
        assert(all.take(args.len() as int) =~= all);
    }

    fn values(&mut self, args: &Vec<Expr>)
        requires
            old(self).inv(),
        ensures
            final(self).inv(),
            final(self).env() == old(self).env(),
            final(self).state() == values(old(self).env(), old(self).state(), exprs(args@)),
        decreases args, 5nat,
    {
        let ghost all = exprs(args@);
        for i in 0..args.len()
            invariant
                all == exprs(args@),
                self.inv(),
                self.env() == old(self).env(),
                self.state() == values(old(self).env(), old(self).state(), all.take(i as int)),
        {
            self.value(&args[i]);
            assert(all.take(i + 1).drop_last() =~= all.take(i as int));
        }
        assert(all.take(args.len() as int) =~= all);
    }

    /// Run one branch from the current state and take back what it produced, leaving the walker
    /// undiverged and ready for the next one.
    fn branch(&mut self, body: &Expr) -> (r: Branch)
        requires
            old(self).inv(),
        ensures
            final(self).inv(),
            final(self).env() == old(self).env(),
            (final(self).state(), Outcome { moved: r.moved@, diverged: r.diverged }) == branch(
                old(self).env(),
                old(self).state(),
                body@,
            ),
        decreases body, 3nat,
    {
        let outer = self.diverged;
        self.diverged = false;
        self.value(body);
        let diverged = self.diverged;
        self.diverged = outer;
        Branch { moved: copied(&self.moved), diverged }
    }

    /// Merge the branches back together.
    fn rejoin(&mut self, entry: Vec<Option<Span>>, outcomes: Vec<Branch>)
        requires
            old(self).inv(),
        ensures
            final(self).inv(),
            final(self).env() == old(self).env(),
            final(self).state() == rejoin(
                old(self).state(),
                entry@,
                outcomes_of(outcomes@),
            ),
    {
        let ghost all = outcomes_of(outcomes@);
        let mut reaching = false;
        for k in 0..outcomes.len()
            invariant
                all == outcomes_of(outcomes@),
                reaching == exists|j: int| 0 <= j < k && !(#[trigger] all[j]).diverged,
        {
            assert(all[k as int].diverged == outcomes[k as int].diverged);
            if !outcomes[k].diverged {
                reaching = true;
            }
        }
        assert(reaching == some_reach(all));
        if !reaching {
            self.moved = entry;
            self.diverged = true;
            return;
        }
        let mut merged = copied(&entry);
        let ghost want = rejoin(self.state(), entry@, all).moved;
        let n: usize = merged.len();
        for i in 0..n
            invariant
                all == outcomes_of(outcomes@),
                n == entry.len(),
                merged.len() == entry.len(),
                want.len() == entry.len(),
                forall|j: int|
                    0 <= j < entry.len() ==> #[trigger] want[j] == if entry@[j] is None {
                        first_moved(all, j)
                    } else {
                        entry@[j]
                    },
                forall|j: int| 0 <= j < i ==> merged@[j] == want[j],
                forall|j: int| i <= j < entry.len() ==> merged@[j] == entry@[j],
        {
            if merged[i].is_none() {
                let mut found: Option<Span> = None;
                for k in 0..outcomes.len()
                    invariant
                        all == outcomes_of(outcomes@),
                        found == first_moved(all.take(k as int), i as int),
                {
                    if found.is_none() && !outcomes[k].diverged && i < outcomes[k].moved.len() {
                        found = outcomes[k].moved[i];
                    }
                    assert(all.take(k + 1).drop_last() =~= all.take(k as int));
                }
                assert(all.take(outcomes.len() as int) =~= all);
                merged.set(i, found);
            }
        }
        assert(merged@ =~= want);
        self.moved = merged;
    }

    /// The arms of a `match`, each starting from the state the scrutinee and the guards before it
    /// left behind.
    fn arms(&mut self, scrutinee: &Expr, arms: &Vec<Arm>)
        requires
            old(self).inv(),
        ensures
            final(self).inv(),
            final(self).env() == old(self).env(),
            ({
                let (s, entry, outcomes) = arms_from(
                    old(self).env(),
                    old(self).state(),
                    reread(scrutinee@),
                    arms_of(arms@),
                );
                final(self).state() == rejoin(s, entry, outcomes)
            }),
        decreases arms, 5nat,
    {
        let ghost all = arms_of(arms@);
        let reread = root_reread(scrutinee);
        let mut entry = copied(&self.moved);
        let mut outcomes: Vec<Branch> = Vec::new();
        assert(outcomes_of(outcomes@) =~= seq![]);
        for i in 0..arms.len()
            invariant
                all == arms_of(arms@),
                self.inv(),
                self.env() == old(self).env(),
                (self.state(), entry@, outcomes_of(outcomes@)) == arms_from(
                    old(self).env(),
                    old(self).state(),
                    reread,
                    all.take(i as int),
                ),
        {
            let ghost before = outcomes_of(outcomes@);
            assert(all.take(i + 1).drop_last() =~= all.take(i as int));
            let arm = &arms[i];
            self.moved = copied(&entry);
            self.bind(&arm.pat);
            let mut gone = false;
            if let Some(guard) = &arm.guard {
                let asked = self.branch(guard);
                gone = asked.diverged;
                if let Some((id, span)) = reread {
                    self.live(id, span);
                }
                entry = copied(&self.moved);
            }
            let outcome = self.branch(&arm.body);
            let diverged = gone || outcome.diverged;
            outcomes.push(Branch { moved: outcome.moved, diverged });
            assert(outcomes_of(outcomes@) =~= before.push(
                Outcome { moved: outcome.moved@, diverged },
            ));
        }
        assert(all.take(arms.len() as int) =~= all);
        self.rejoin(entry, outcomes);
    }

    fn stmt(&mut self, it: &Stmt)
        requires
            old(self).inv(),
        ensures
            final(self).inv(),
            final(self).env() == old(self).env(),
            final(self).state() == stmt(old(self).env(), old(self).state(), it@),
        decreases it, 5nat,
    {
        match &it.kind {
            StmtKind::Let { local, value } => {
                self.value(value);
                self.fresh(*local);
            },
            StmtKind::Assign { place, value } => {
                self.value(value);
                proof {
                    place.look();
                }
                match &place.kind {
                    ExprKind::Local(id) => self.mark(*id, None),
                    _ => self.place(place),
                }
            },
            StmtKind::After { task, .. } => self.value(task),
            StmtKind::Expr(expr) => self.value(expr),
        }
    }

    fn stmts(&mut self, stmts: &Vec<Stmt>)
        requires
            old(self).inv(),
        ensures
            final(self).inv(),
            final(self).env() == old(self).env(),
            final(self).state() == stmts_from(
                old(self).env(),
                old(self).state(),
                stmts_of(stmts@),
            ),
        decreases stmts, 5nat,
    {
        let ghost all = stmts_of(stmts@);
        for i in 0..stmts.len()
            invariant
                all == stmts_of(stmts@),
                self.inv(),
                self.env() == old(self).env(),
                self.state() == stmts_from(
                    old(self).env(),
                    old(self).state(),
                    all.take(i as int),
                ),
        {
            self.stmt(&stmts[i]);
            assert(all.take(i + 1).drop_last() =~= all.take(i as int));
        }
        assert(all.take(stmts.len() as int) =~= all);
    }

    /// Names a pattern introduces, each fresh.
    fn bind(&mut self, pat: &Pat)
        requires
            old(self).inv(),
        ensures
            final(self).inv(),
            final(self).env() == old(self).env(),
            final(self).state() == bind(old(self).state(), pat@),
        decreases pat,
    {
        match &pat.kind {
            PatKind::Bind(id) => self.fresh(*id),
            PatKind::Variant { args, .. } => self.bind_all(args),
            PatKind::Struct { args, .. } => self.bind_all(args),
            PatKind::Or(alts) => self.bind_all(alts),
            _ => {},
        }
    }

    fn bind_all(&mut self, ps: &Vec<Pat>)
        requires
            old(self).inv(),
        ensures
            final(self).inv(),
            final(self).env() == old(self).env(),
            final(self).state() == bind_all(old(self).state(), pats(ps@)),
        decreases ps,
    {
        let ghost all = pats(ps@);
        for i in 0..ps.len()
            invariant
                all == pats(ps@),
                self.inv(),
                self.env() == old(self).env(),
                self.state() == bind_all(old(self).state(), all.take(i as int)),
        {
            self.bind(&ps[i]);
            assert(all.take(i + 1).drop_last() =~= all.take(i as int));
        }
        assert(all.take(ps.len() as int) =~= all);
    }

    /// Union the current state into the innermost loop's frame: this path is about to jump to the
    /// loop's back edge or exit, and what it moved arrives there with it.
    fn record_exit(&mut self, leaves: bool)
        requires
            old(self).inv(),
        ensures
            final(self).inv(),
            final(self).env() == old(self).env(),
            final(self).state() == record_exit(old(self).state(), leaves),
    {
        if let Some(frame) = self.frames.pop() {
            let mut moved = frame.moved;
            union(&mut moved, &self.moved);
            let left = frame.left || (leaves && !self.diverged);
            self.frames.push(Exits { moved, left });
            assert(frames_of(self.frames@) =~= record_exit(old(self).state(), leaves).frames);
        } else {
            assert(frames_of(self.frames@) =~= old(self).state().frames);
        }
    }

    /// Report every local the loop moved without declaring. `summary` is everything that can
    /// reach the back edge or the exit.
    fn escaped_moves(
        &mut self,
        entry: &Vec<Option<Span>>,
        declared: &Vec<bool>,
        summary: &Vec<Option<Span>>,
    )
        requires
            old(self).inv(),
        ensures
            final(self).inv(),
            final(self).env() == old(self).env(),
            final(self).state() == (State {
                errors: old(self).state().errors + escaped(
                    old(self).env(),
                    entry@,
                    declared@,
                    summary@,
                    summary@.len(),
                ),
                ..old(self).state()
            }),
    {
        let ghost env = self.env();
        assert(self.state().errors + seq![] =~= self.state().errors);
        for index in 0..summary.len()
            invariant
                self.inv(),
                self.env() == env,
                env == old(self).env(),
                self.state() == (State {
                    errors: old(self).state().errors + escaped(
                        env,
                        entry@,
                        declared@,
                        summary@,
                        index as nat,
                    ),
                    ..old(self).state()
                }),
        {
            let ghost so_far = escaped(env, entry@, declared@, summary@, index as nat);
            if index < declared.len() && index < entry.len() && index < self.locals.len() {
                if let Some(at) = summary[index] {
                    if declared[index] && entry[index].is_none() {
                        let local = &self.locals[index];
                        let ty = self.program.ty_name(&local.ty);
                        let advice = match &local.ty {
                            Ty::Task(_) => task_advice(),
                            _ =>
                            "declare it inside the loop if each pass should have its own".to_owned(),
                        };
                        let rule = if self.affine(&local.ty) {
                            "a `".to_owned().concat(ty.as_str()).concat(
                                "` has one owner; the first pass of the loop hands it over, and the next would find it gone",
                            )
                        } else {
                            "a `".to_owned().concat(ty.as_str()).concat(
                                "` copies, but the first pass of the loop hands it to a `sink` parameter, and the next would find the name gone",
                            )
                        };
                        let d = Diagnostic::new(
                            at,
                            "`".to_owned().concat(local.name.as_str()).concat(
                                "` cannot be moved inside a loop",
                            ),
                        ).label("moved here").secondary(
                            local.span,
                            "…but it was declared outside the loop",
                        ).note(rule.as_str()).note(advice.as_str());
                        let ghost r = d@;
                        assert(r == moved_in_loop(env, index as int, at));
                        self.error(d);
                        assert((old(self).state().errors + so_far).push(r) =~= old(
                            self,
                        ).state().errors + so_far.push(r));
                    }
                }
            }
        }
    }

    /// The loop is over: sum up what reaches its back edge or exit, report what escaped, and put
    /// outer ownership back.
    fn leave_loop(
        &mut self,
        entry: Vec<Option<Span>>,
        declared: Vec<bool>,
        after_cond: Option<Vec<Option<Span>>>,
        body: Branch,
        Ghost(start): Ghost<State>,
    )
        requires
            old(self).inv(),
            start.moved == entry@,
            start.declared == declared@,
        ensures
            final(self).inv(),
            final(self).env() == old(self).env(),
            final(self).state() == leave_loop(
                old(self).env(),
                start,
                old(self).state(),
                match after_cond {
                    Some(moved) => Some(moved@),
                    None => None,
                },
                Outcome { moved: body.moved@, diverged: body.diverged },
            ),
    {
        let mut summary = match self.frames.pop() {
            Some(frame) => frame.moved,
            None => none_moved(entry.len()),
        };
        assert(frames_of(self.frames@) =~= if old(self).state().frames.len() == 0 {
            old(self).state().frames
        } else {
            old(self).state().frames.drop_last()
        });
        if let Some(moved) = &after_cond {
            union(&mut summary, moved);
        }
        if !body.diverged {
            union(&mut summary, &body.moved);
        }
        self.escaped_moves(&entry, &declared, &summary);
        self.moved = entry;
    }

    fn enter_loop(&mut self)
        requires
            old(self).inv(),
        ensures
            final(self).inv(),
            final(self).env() == old(self).env(),
            final(self).state() == enter_loop(old(self).state()),
    {
        self.frames.push(Exits { moved: none_moved(self.moved.len()), left: false });
        assert(frames_of(self.frames@) =~= enter_loop(old(self).state()).frames);
    }

    fn left_by_break(&self) -> (r: bool)
        ensures
            r == left_by_break(self.state()),
    {
        self.frames.len() > 0 && self.frames[self.frames.len() - 1].left
    }

    fn declared_now(&self) -> (r: Vec<bool>)
        ensures
            r@ == self.state().declared,
    {
        let mut r: Vec<bool> = Vec::new();
        for i in 0..self.declared.len()
            invariant
                r@ == self.declared@.take(i as int),
        {
            r.push(self.declared[i]);
            assert(self.declared@.take(i + 1) =~= self.declared@.take(i as int).push(
                self.declared@[i as int],
            ));
        }
        assert(self.declared@.take(self.declared.len() as int) =~= self.declared@);
        r
    }

    fn choice(&mut self, expr: &Expr)
        requires
            old(self).inv(),
        ensures
            final(self).inv(),
            final(self).env() == old(self).env(),
            final(self).state() == choice(old(self).env(), old(self).state(), expr@),
        decreases expr, 0nat,
    {
        proof {
            expr.look();
        }
        if let ExprKind::If { cond, then, els } = &expr.kind {
            self.value(cond);
            let entry = copied(&self.moved);
            let taken = self.branch(then);
            let missed = match els {
                Some(els) => {
                    self.moved = copied(&entry);
                    self.branch(els)
                },
                // An `if` with no `else` has a path on which nothing happened at all.
                None => Branch { moved: copied(&entry), diverged: false },
            };
            let mut outcomes: Vec<Branch> = Vec::new();
            outcomes.push(taken);
            outcomes.push(missed);
            assert(outcomes_of(outcomes@) =~= seq![
                Outcome { moved: taken.moved@, diverged: taken.diverged },
                Outcome { moved: missed.moved@, diverged: missed.diverged },
            ]);
            self.rejoin(entry, outcomes);
        }
    }

    fn while_loop(&mut self, expr: &Expr)
        requires
            old(self).inv(),
        ensures
            final(self).inv(),
            final(self).env() == old(self).env(),
            final(self).state() == while_loop(old(self).env(), old(self).state(), expr@),
        decreases expr, 0nat,
    {
        proof {
            expr.look();
        }
        if let ExprKind::While { cond, body } = &expr.kind {
            let entry = copied(&self.moved);
            let declared = self.declared_now();
            let outer = self.diverged;
            self.enter_loop();
            self.value(cond);
            let gone = self.diverged && !self.left_by_break();
            // The condition's own state reaches the back edge even when the body diverges on
            // every path, so it joins the summary unconditionally.
            let after_cond = copied(&self.moved);
            let outcome = self.branch(body);
            self.leave_loop(
                entry,
                declared,
                Some(after_cond),
                outcome,
                Ghost(old(self).state()),
            );
            self.diverged = outer || gone;
        }
    }

    fn endless_loop(&mut self, expr: &Expr)
        requires
            old(self).inv(),
        ensures
            final(self).inv(),
            final(self).env() == old(self).env(),
            final(self).state() == endless_loop(old(self).env(), old(self).state(), expr@),
        decreases expr, 0nat,
    {
        proof {
            expr.look();
        }
        if let ExprKind::Loop { body } = &expr.kind {
            let entry = copied(&self.moved);
            let declared = self.declared_now();
            self.enter_loop();
            let outcome = self.branch(body);
            self.leave_loop(entry, declared, None, outcome, Ghost(old(self).state()));
            // A `loop` nothing breaks out of never reaches the code after it.
            if let Ty::Never = &expr.ty {
                self.diverged = true;
            }
        }
    }

    /// Everything that is neither a name nor a projection: walked in evaluation order, so that the
    /// first use of a moved value is the one reported.
    fn parts(&mut self, expr: &Expr)
        requires
            old(self).inv(),
        ensures
            final(self).inv(),
            final(self).env() == old(self).env(),
            final(self).state() == parts(old(self).env(), old(self).state(), expr@),
        decreases expr, 1nat,
    {
        proof {
            expr.look();
        }
        match &expr.kind {
            ExprKind::Unit
            | ExprKind::Int(_)
            | ExprKind::Float(_)
            | ExprKind::Str(_)
            | ExprKind::Bool(_)
            | ExprKind::Local(_)
            | ExprKind::Error => {},
            ExprKind::Field { base, .. } => self.place(base),
            ExprKind::Unary { expr, .. } => self.value(expr),
            ExprKind::Binary { lhs, rhs, .. } => {
                self.value(lhs);
                self.value(rhs);
            },
            // The right side of `&&` may not run. A move that may have happened is a move: the
            // alternative is a name that is live on one path and gone on another.
            ExprKind::ShortCircuit { lhs, rhs, .. } => {
                self.value(lhs);
                let entry = copied(&self.moved);
                let taken = self.branch(rhs);
                let missed = Branch { moved: copied(&entry), diverged: false };
                let mut outcomes: Vec<Branch> = Vec::new();
                outcomes.push(taken);
                outcomes.push(missed);
                assert(outcomes_of(outcomes@) =~= seq![
                    Outcome { moved: taken.moved@, diverged: taken.diverged },
                    Outcome { moved: missed.moved@, diverged: missed.diverged },
                ]);
                self.rejoin(entry, outcomes);
            },
            ExprKind::Call { callee, args } => self.call_args(*callee, args),
            ExprKind::Builtin { builtin, args } => self.builtin_args(*builtin, args),
            // A constructor's payload is stored: the aggregate owns what it was built from.
            ExprKind::Construct { args, .. } => self.values(args),
            ExprKind::SpawnReactor { args, .. } => self.values(args),
            ExprKind::Match { scrutinee, arms } => {
                self.value(scrutinee);
                self.arms(scrutinee, arms);
            },
            ExprKind::If { .. } => self.choice(expr),
            ExprKind::Block { stmts, tail } => {
                self.stmts(stmts);
                if let Some(tail) = tail {
                    self.value(tail);
                }
            },
            ExprKind::Await { expr } => self.value(expr),
            ExprKind::Spawn { expr } => self.value(expr),
            ExprKind::Try { expr, .. } => self.value(expr),
            ExprKind::Scope { body } => self.value(body),
            // A reactor handle copies, so reaching one of its members reads a name and takes
            // nothing.
            ExprKind::ReactorInput { reactor, .. } => self.place(reactor),
            ExprKind::ReactorExport { reactor, .. } => self.place(reactor),
            ExprKind::Return { value } => {
                if let Some(value) = value {
                    self.value(value);
                }
                self.diverged = true;
            },
            ExprKind::While { .. } => self.while_loop(expr),
            ExprKind::Loop { .. } => self.endless_loop(expr),
            // Like `return`, these end their path, but their moves arrive at the loop's back edge
            // or exit. So the state is recorded before the path diverges.
            ExprKind::Break { value } => {
                if let Some(value) = value {
                    self.value(value);
                }
                self.record_exit(true);
                self.diverged = true;
            },
            ExprKind::Continue => {
                self.record_exit(false);
                self.diverged = true;
            },
        }
    }
}

/// The ownership reports of the first `n` functions, filed under their owners.
pub open spec fn moves_filed(
    p: model::Program,
    v: model::Vocabulary,
    modes: Seq<Seq<Mode>>,
    owners: Seq<usize>,
    errors: Seq<Seq<Report>>,
    n: nat,
) -> Seq<Seq<Report>>
    decreases n,
{
    if n == 0 {
        errors
    } else {
        file_all(
            moves_filed(p, v, modes, owners, errors, (n - 1) as nat),
            owners[n - 1] as int,
            fn_moves(p, v, modes, p.fns[n - 1]),
        )
    }
}

/// Check every body of a program for uses of what is no longer there, filing what is found under
/// each function's owner.
pub fn check_moves(
    program: &Program,
    vocabulary: &Vocabulary,
    param_modes: &Vec<Vec<Mode>>,
    fn_owner: &Vec<usize>,
    errors: &mut Vec<Vec<Diagnostic>>,
)
    requires
        fn_owner.len() == program.fns.len(),
    ensures
        filed(final(errors)@) == moves_filed(
            program@,
            vocabulary@,
            rows(param_modes@),
            fn_owner@,
            filed(old(errors)@),
            program@.fns.len(),
        ),
{
    let affinity = Affinity::of(program);
    for index in 0..program.fns.len()
        invariant
            fn_owner.len() == program.fns.len(),
            affinity.describes(program@),
            filed(errors@) == moves_filed(
                program@,
                vocabulary@,
                rows(param_modes@),
                fn_owner@,
                filed(old(errors)@),
                index as nat,
            ),
    {
        let function = &program.fns[index];
        let n: usize = function.locals.len();
        let mut declared: Vec<bool> = Vec::new();
        for local in 0..n
            invariant
                declared@ == Seq::new(local as nat, |i: int| i < function.params),
        {
            declared.push(local < function.params);
            assert(declared@ =~= Seq::new((local + 1) as nat, |i: int| i < function.params));
        }
        let mut moves = Moves {
            program,
            vocabulary,
            affinity: &affinity,
            param_modes,
            locals: &function.locals,
            moved: none_moved(n),
            declared,
            frames: Vec::new(),
            diverged: false,
            errors: Vec::new(),
        };
        proof {
            let start = at_entry(program@.fns[index as int]);
            assert(moves.state().frames =~= start.frames);
            assert(moves.state().errors =~= start.errors);
            assert(moves.state() == start);
        }
        moves.value(&function.body);
        report_all(errors, fn_owner[index], moves.errors);
    }
}

// ---------------------------------------------------------------- what always holds

/// Reading part of a value takes nothing: a name, or any chain of fields from one, can be read
/// without anything moving.
pub proof fn reading_takes_nothing(env: Env, s: State, e: model::Expr)
    requires
        root(e) is Some,
    ensures
        place(env, s, e).moved == s.moved,
        place(env, s, e) == live(env, s, (root(e)->0).0, (root(e)->0).1),
    decreases e,
{
    match e.kind {
        model::ExprKind::Field { base, .. } => reading_takes_nothing(env, s, *base),
        _ => {},
    }
}

/// An ordinary value copies: naming it changes nothing, however often it is named.
pub proof fn ordinary_values_copy(env: Env, s: State, e: model::Expr, id: LocalId)
    requires
        e.kind == model::ExprKind::Local(id),
        !env.moves(id),
        s.at(id) is None,
    ensures
        value(env, s, e) == s,
{
}

/// An owned value is used as a value once: the second use is reported, with both places.
pub proof fn second_use_is_reported(
    env: Env,
    s: State,
    first: model::Expr,
    second: model::Expr,
    id: LocalId,
)
    requires
        first.kind == model::ExprKind::Local(id),
        second.kind == model::ExprKind::Local(id),
        env.moves(id),
        id.0 < s.moved.len(),
        s.at(id) is None,
    ensures
        value(env, s, first).errors == s.errors,
        value(env, value(env, s, first), second).errors == s.errors.push(
            already_moved(env, id, first.span, second.span),
        ),
{
}

/// A name handed to a `sink` position is gone whatever its type.
pub proof fn sink_revokes_any_name(env: Env, s: State, e: model::Expr, id: LocalId)
    requires
        e.kind == model::ExprKind::Local(id),
        id.0 < s.moved.len(),
        s.at(id) is None,
    ensures
        argument(env, s, Mode::Sink, e).at(id) == Some(e.span),
        argument(env, s, Mode::Read, e) == s,
        argument(env, s, Mode::Mut, e) == s,
{
}

/// Whatever a loop does, the names outside it are afterwards what they were before it.
pub proof fn loops_leave_outer_ownership(env: Env, s: State, e: model::Expr)
    requires
        e.kind is While || e.kind is Loop,
    ensures
        value(env, s, e).moved == s.moved,
{
    reveal_with_fuel(value, 3);
}

/// A loop that reports nothing moved nothing that was declared before it and still there.
pub proof fn silent_loops_moved_nothing(
    env: Env,
    entry: Seq<Option<Span>>,
    declared: Seq<bool>,
    summary: Seq<Option<Span>>,
    n: nat,
    i: int,
)
    requires
        0 <= i < n <= summary.len(),
        summary.len() <= env.locals.len(),
        summary.len() <= entry.len(),
        summary.len() <= declared.len(),
        escaped(env, entry, declared, summary, n).len() == 0,
        declared[i],
        entry[i] is None,
    ensures
        summary[i] is None,
    decreases n,
{
    if i < n - 1 {
        silent_loops_moved_nothing(env, entry, declared, summary, (n - 1) as nat, i);
    }
}

pub proof fn first_moved_is_some(outcomes: Seq<Outcome>, i: int)
    ensures
        first_moved(outcomes, i) is Some <==> exists|k: int|
            0 <= k < outcomes.len() && !(#[trigger] outcomes[k]).diverged && i
                < outcomes[k].moved.len() && outcomes[k].moved[i] is Some,
    decreases outcomes.len(),
{
    if outcomes.len() > 0 {
        let init = outcomes.drop_last();
        first_moved_is_some(init, i);
        if exists|k: int|
            0 <= k < outcomes.len() && !(#[trigger] outcomes[k]).diverged && i
                < outcomes[k].moved.len() && outcomes[k].moved[i] is Some {
            let k = choose|k: int|
                0 <= k < outcomes.len() && !(#[trigger] outcomes[k]).diverged && i
                    < outcomes[k].moved.len() && outcomes[k].moved[i] is Some;
            if k < init.len() {
                assert(init[k] == outcomes[k]);
            }
        }
        if first_moved(init, i) is Some {
            let k = choose|k: int|
                0 <= k < init.len() && !(#[trigger] init[k]).diverged && i < init[k].moved.len()
                    && init[k].moved[i] is Some;
            assert(init[k] == outcomes[k]);
        }
    }
}

/// After branches come back together, a name is gone exactly if it was gone before, or a branch
/// that reaches the join gave it away.
pub proof fn joins_take_what_any_branch_took(
    s: State,
    entry: Seq<Option<Span>>,
    outcomes: Seq<Outcome>,
    i: int,
)
    requires
        some_reach(outcomes),
        0 <= i < entry.len(),
    ensures
        rejoin(s, entry, outcomes).moved[i] is Some <==> entry[i] is Some || exists|k: int|
            0 <= k < outcomes.len() && !(#[trigger] outcomes[k]).diverged && i
                < outcomes[k].moved.len() && outcomes[k].moved[i] is Some,
{
    first_moved_is_some(outcomes, i);
}

/// The right side of `&&` and `||` may not run: a jump there does not end the path, and what it
/// gives away is gone wherever it comes to its end.
pub proof fn right_sides_may_not_run(env: Env, s: State, e: model::Expr, i: int)
    requires
        e.kind is ShortCircuit,
        0 <= i < value(env, s, *e.kind->ShortCircuit_lhs).moved.len(),
    ensures
        ({
            let first = value(env, s, *e.kind->ShortCircuit_lhs);
            let taken = branch(env, first, *e.kind->ShortCircuit_rhs).1;
            let end = value(env, s, e);
            &&& end.diverged == first.diverged
            &&& end.moved[i] is Some <==> first.moved[i] is Some || (!taken.diverged && i
                < taken.moved.len() && taken.moved[i] is Some)
        }),
{
    let first = value(env, s, *e.kind->ShortCircuit_lhs);
    let (end, taken) = branch(env, first, *e.kind->ShortCircuit_rhs);
    let outcomes = seq![taken, Outcome { moved: first.moved, diverged: false }];
    assert(!outcomes[1].diverged);
    assert(some_reach(outcomes));
    joins_take_what_any_branch_took(end, first.moved, outcomes, i);
    assert(value(env, s, e) == rejoin(end, first.moved, outcomes));
    if !taken.diverged && i < taken.moved.len() && taken.moved[i] is Some {
        assert(!outcomes[0].diverged && outcomes[0].moved[i] is Some);
    }
}

} // verus!
