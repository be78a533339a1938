//! No false alarms: what hands nothing over is never reported.

use vstd::prelude::*;
use crate::hir::{Builtin, FnId, LocalId};
use crate::model;
use crate::moves::{
    argument, arms_from, at_entry, bind, bind_all, branch, builtin_args, builtin_mode_at, call_args,
    choice, endless_loop, enter_loop, escaped, first_moved, first_moved_is_some, fn_moves,
    leave_loop, live, merged, mode_at, parts, reread, rejoin, stmt, stmts_from, value, values,
    while_loop, Env, Outcome, State,
};
use crate::ownership::{
    arm_hands, handed_parts_are_smaller, hands, role_of, stmt_hands, took, walked, Role,
};
use crate::span::Span;
use crate::types::affine;

verus! {

/// Nothing is gone in a list of slots.
pub open spec fn all_there(moved: Seq<Option<Span>>) -> bool {
    forall|i: int| 0 <= i < moved.len() ==> (#[trigger] moved[i]) is None
}

/// Nothing is gone: here, or at any jump to an enclosing loop.
pub open spec fn quiet(s: State) -> bool {
    &&& all_there(s.moved)
    &&& forall|k: int| 0 <= k < s.frames.len() ==> all_there((#[trigger] s.frames[k]).moved)
}

/// Some way down through the parts takes an owned value out of a field.
pub open spec fn splits(env: Env, e: model::Expr, r: Role) -> bool
    decreases e,
{
    ||| e.kind is Field && !(r is Read) && affine(env.program, e.ty)
    ||| exists|x: model::Expr, q: Role| #[trigger]
        hands(env.modes, env.vocabulary, e, x, q) && decreases_to!(e => x) && splits(env, x, q)
}

/// Nothing in an expression finds a new owner, and nothing is taken out of a field.
pub open spec fn calm(env: Env, e: model::Expr, r: Role) -> bool {
    &&& !splits(env, e, r)
    &&& forall|id: LocalId| !#[trigger]
        took(env.modes, env.vocabulary, e, r, id, env.moves(id))
}

proof fn calm_inside(env: Env, e: model::Expr, r: Role, x: model::Expr, q: Role)
    requires
        calm(env, e, r),
        hands(env.modes, env.vocabulary, e, x, q),
    ensures
        calm(env, x, q),
{
    handed_parts_are_smaller(env.modes, env.vocabulary, e, x, q);
    assert forall|id: LocalId| !#[trigger] took(
        env.modes,
        env.vocabulary,
        x,
        q,
        id,
        env.moves(id),
    ) by {
        assert(!took(env.modes, env.vocabulary, e, r, id, env.moves(id)));
    }
}

/// From `s` to `t` nothing was lost and nothing was reported.
#[verifier::opaque]
pub open spec fn hushed(s: State, t: State) -> bool {
    quiet(s) ==> quiet(t) && t.errors == s.errors && t.frames.len() == s.frames.len()
}

proof fn hushed_in_turn(s: State, t: State, u: State)
    requires
        hushed(s, t),
        hushed(t, u),
    ensures
        hushed(s, u),
{
    reveal(hushed);
}

proof fn binding_is_quiet(s: State, p: model::Pat)
    ensures
        hushed(s, bind(s, p)),
    decreases p, 1nat,
{
    reveal(hushed);
    match p.kind {
        model::PatKind::Variant { args, .. } => bindings_are_quiet(s, args),
        model::PatKind::Struct { args, .. } => bindings_are_quiet(s, args),
        model::PatKind::Or(alts) => bindings_are_quiet(s, alts),
        _ => {},
    }
}

proof fn bindings_are_quiet(s: State, ps: Seq<model::Pat>)
    ensures
        hushed(s, bind_all(s, ps)),
    decreases ps, 0nat,
{
    reveal(hushed);
    if ps.len() > 0 {
        bindings_are_quiet(s, ps.drop_last());
        binding_is_quiet(bind_all(s, ps.drop_last()), ps.last());
    }
}

/// What hands nothing over loses nothing and is told nothing, loops and jumps and all.
pub proof fn calm_code_is_never_reported(env: Env, s: State, e: model::Expr, r: Role)
    requires
        calm(env, e, r),
        quiet(s),
    ensures
        quiet(walked(env, s, e, r)),
        walked(env, s, e, r).errors == s.errors,
{
    calm_walk(env, s, e, r);
    reveal(hushed);
}

/// A function that hands nothing over has nothing to answer for.
pub proof fn calm_functions_are_never_reported(
    p: model::Program,
    v: model::Vocabulary,
    modes: Seq<Seq<crate::hir::Mode>>,
    f: model::FnDef,
)
    requires
        calm((Env { program: p, vocabulary: v, modes, locals: f.locals }), f.body, Role::Own),
    ensures
        fn_moves(p, v, modes, f).len() == 0,
{
    let env = Env { program: p, vocabulary: v, modes, locals: f.locals };
    calm_code_is_never_reported(env, at_entry(f), f.body, Role::Own);
}

proof fn calm_walk(env: Env, s: State, e: model::Expr, r: Role)
    requires
        calm(env, e, r),
    ensures
        hushed(s, walked(env, s, e, r)),
    decreases e, 3nat,
{
    match e.kind {
        model::ExprKind::Local(id) => {
            reveal(hushed);
            assert(!took(env.modes, env.vocabulary, e, r, id, env.moves(id)));
        },
        model::ExprKind::Field { base, .. } => {
            calm_inside(env, e, r, *base, Role::Read);
            calm_walk(env, s, *base, Role::Read);
        },
        _ => calm_parts(env, s, e, r),
    }
}

proof fn calm_parts(env: Env, s: State, e: model::Expr, r: Role)
    requires
        calm(env, e, r),
        !(e.kind is Local),
        !(e.kind is Field),
    ensures
        hushed(s, parts(env, s, e)),
    decreases e, 2nat,
{
    match e.kind {
        model::ExprKind::Unary { expr, .. } => {
            calm_inside(env, e, r, *expr, Role::Own);
            calm_walk(env, s, *expr, Role::Own);
        },
        model::ExprKind::Await { expr, .. } => {
            calm_inside(env, e, r, *expr, Role::Own);
            calm_walk(env, s, *expr, Role::Own);
        },
        model::ExprKind::Spawn { expr, .. } => {
            calm_inside(env, e, r, *expr, Role::Own);
            calm_walk(env, s, *expr, Role::Own);
        },
        model::ExprKind::Try { expr, .. } => {
            calm_inside(env, e, r, *expr, Role::Own);
            calm_walk(env, s, *expr, Role::Own);
        },
        model::ExprKind::Scope { body, .. } => {
            calm_inside(env, e, r, *body, Role::Own);
            calm_walk(env, s, *body, Role::Own);
        },
        model::ExprKind::ReactorInput { reactor, .. } => {
            calm_inside(env, e, r, *reactor, Role::Read);
            calm_walk(env, s, *reactor, Role::Read);
        },
        model::ExprKind::ReactorExport { reactor, .. } => {
            calm_inside(env, e, r, *reactor, Role::Read);
            calm_walk(env, s, *reactor, Role::Read);
        },
        model::ExprKind::Binary { lhs, rhs, .. } => {
            let s1 = value(env, s, *lhs);
            calm_inside(env, e, r, *lhs, Role::Own);
            calm_walk(env, s, *lhs, Role::Own);
            calm_inside(env, e, r, *rhs, Role::Own);
            calm_walk(env, s1, *rhs, Role::Own);
            hushed_in_turn(s, s1, value(env, s1, *rhs));
        },
        model::ExprKind::ShortCircuit { lhs, rhs, .. } => {
            let s1 = value(env, s, *lhs);
            calm_inside(env, e, r, *lhs, Role::Own);
            calm_walk(env, s, *lhs, Role::Own);
            calm_inside(env, e, r, *rhs, Role::Own);
            let (end, taken) = branch(env, s1, *rhs);
            calm_walk(env, State { diverged: false, ..s1 }, *rhs, Role::Own);
            let missed = Outcome { moved: s1.moved, diverged: false };
            let t = rejoin(end, s1.moved, seq![taken, missed]);
            assert(hushed(s1, t)) by {
                reveal(hushed);
                joining_is_quiet(end, s1.moved, seq![taken, missed]);
            }
            hushed_in_turn(s, s1, t);
        },
        model::ExprKind::Call { callee, args } => {
            assert forall|k: int| 0 <= k < args.len() implies calm(
                env,
                #[trigger] args[k],
                role_of(mode_at(env.modes, callee, k)),
            ) by {
                calm_inside(env, e, r, args[k], role_of(mode_at(env.modes, callee, k)));
            }
            calm_call(env, s, callee, args);
        },
        model::ExprKind::Builtin { builtin, args } => {
            assert forall|k: int| 0 <= k < args.len() implies calm(
                env,
                #[trigger] args[k],
                role_of(builtin_mode_at(env.vocabulary, builtin, k)),
            ) by {
                calm_inside(
                    env,
                    e,
                    r,
                    args[k],
                    role_of(builtin_mode_at(env.vocabulary, builtin, k)),
                );
            }
            calm_builtin(env, s, builtin, args);
        },
        model::ExprKind::Construct { args, .. } => {
            assert forall|k: int| 0 <= k < args.len() implies calm(
                env,
                #[trigger] args[k],
                Role::Own,
            ) by {
                calm_inside(env, e, r, args[k], Role::Own);
            }
            calm_values(env, s, args);
        },
        model::ExprKind::SpawnReactor { args, .. } => {
            assert forall|k: int| 0 <= k < args.len() implies calm(
                env,
                #[trigger] args[k],
                Role::Own,
            ) by {
                calm_inside(env, e, r, args[k], Role::Own);
            }
            calm_values(env, s, args);
        },
        model::ExprKind::Match { scrutinee, arms } => {
            let s1 = value(env, s, *scrutinee);
            calm_inside(env, e, r, *scrutinee, Role::Own);
            calm_walk(env, s, *scrutinee, Role::Own);
            assert forall|k: int, x: model::Expr, q: Role| 0 <= k < arms.len()
                && #[trigger] arm_hands(arms[k], x, q) implies calm(env, x, q) by {
                calm_inside(env, e, r, x, q);
            }
            calm_arms(env, s1, reread(*scrutinee), arms);
            let (end, entry, outcomes) = arms_from(env, s1, reread(*scrutinee), arms);
            let t = rejoin(end, entry, outcomes);
            assert(hushed(s1, t)) by {
                reveal(hushed);
                if quiet(s1) {
                    joining_is_quiet(end, entry, outcomes);
                }
            }
            hushed_in_turn(s, s1, t);
        },
        model::ExprKind::If { .. } => calm_if(env, s, e, r),
        model::ExprKind::Block { stmts, tail } => {
            assert forall|k: int, x: model::Expr, q: Role| 0 <= k < stmts.len()
                && #[trigger] stmt_hands(stmts[k], x, q) implies calm(env, x, q) by {
                calm_inside(env, e, r, x, q);
            }
            calm_stmts(env, s, stmts);
            let s1 = stmts_from(env, s, stmts);
            if tail is Some {
                assert(tail == Some(Box::new(*tail->0)));
                calm_inside(env, e, r, *tail->0, Role::Own);
                calm_walk(env, s1, *tail->0, Role::Own);
                hushed_in_turn(s, s1, value(env, s1, *tail->0));
            }
        },
        model::ExprKind::Return { value: operand } => {
            if operand is Some {
                assert(operand == Some(Box::new(*operand->0)));
                calm_inside(env, e, r, *operand->0, Role::Own);
                calm_walk(env, s, *operand->0, Role::Own);
            }
            reveal(hushed);
        },
        model::ExprKind::Break { value: operand } => {
            if operand is Some {
                assert(operand == Some(Box::new(*operand->0)));
                calm_inside(env, e, r, *operand->0, Role::Own);
                calm_walk(env, s, *operand->0, Role::Own);
            }
            reveal(hushed);
        },
        model::ExprKind::While { .. } => calm_while(env, s, e, r),
        model::ExprKind::Loop { .. } => calm_loop(env, s, e, r),
        _ => {
            reveal(hushed);
        },
    }
}

/// Branches that lost nothing come back together with nothing lost.
proof fn joining_is_quiet(s: State, entry: Seq<Option<Span>>, outcomes: Seq<Outcome>)
    ensures
        all_there(entry) && (forall|k: int|
            0 <= k < outcomes.len() ==> all_there((#[trigger] outcomes[k]).moved)) ==> all_there(
            rejoin(s, entry, outcomes).moved,
        ),
        rejoin(s, entry, outcomes).frames == s.frames,
        rejoin(s, entry, outcomes).errors == s.errors,
{
    let t = rejoin(s, entry, outcomes);
    if all_there(entry) && (forall|k: int|
        0 <= k < outcomes.len() ==> all_there((#[trigger] outcomes[k]).moved)) {
        assert forall|i: int| 0 <= i < t.moved.len() implies (#[trigger] t.moved[i]) is None by {
            first_moved_is_some(outcomes, i);
            if first_moved(outcomes, i) is Some {
                let k = choose|k: int|
                    0 <= k < outcomes.len() && !(#[trigger] outcomes[k]).diverged && i
                        < outcomes[k].moved.len() && outcomes[k].moved[i] is Some;
                assert(all_there(outcomes[k].moved));
                assert(outcomes[k].moved[i] is None);
            }
            assert(entry[i] is None);
        }
    }
}

proof fn calm_if(env: Env, s: State, e: model::Expr, r: Role)
    requires
        calm(env, e, r),
        e.kind is If,
    ensures
        hushed(s, parts(env, s, e)),
    decreases e, 1nat,
{
    let cond = *e.kind->If_cond;
    let yes = *e.kind->If_then;
    let els = e.kind->If_els;
    let s1 = value(env, s, cond);
    calm_inside(env, e, r, cond, Role::Own);
    calm_walk(env, s, cond, Role::Own);
    calm_inside(env, e, r, yes, Role::Own);
    let (s2, taken) = branch(env, s1, yes);
    calm_walk(env, State { diverged: false, ..s1 }, yes, Role::Own);
    let from = State { moved: s1.moved, ..s2 };
    if els is Some {
        assert(els == Some(Box::new(*els->0)));
        calm_inside(env, e, r, *els->0, Role::Own);
        calm_walk(env, State { diverged: false, ..from }, *els->0, Role::Own);
    }
    let (s3, missed) = match els {
        Some(x) => branch(env, from, *x),
        None => (s2, Outcome { moved: s1.moved, diverged: false }),
    };
    joining_is_quiet(s3, s1.moved, seq![taken, missed]);
    assert(parts(env, s, e) == choice(env, s, e));
    assert(choice(env, s, e) == rejoin(s3, s1.moved, seq![taken, missed]));
    reveal(hushed);
}

/// A loop that lost nothing reports nothing.
proof fn leaving_is_quiet(
    env: Env,
    entry: State,
    inner: State,
    after_cond: Option<Seq<Option<Span>>>,
    body: Outcome,
)
    requires
        quiet(entry),
        quiet(inner),
        inner.frames.len() == entry.frames.len() + 1,
        after_cond is Some ==> all_there(after_cond->0),
        all_there(body.moved),
    ensures
        quiet(leave_loop(env, entry, inner, after_cond, body)),
        leave_loop(env, entry, inner, after_cond, body).errors == inner.errors,
        leave_loop(env, entry, inner, after_cond, body).frames.len() == entry.frames.len(),
{
    let first = inner.frames.last().moved;
    assert(inner.frames.last() == inner.frames[inner.frames.len() - 1]);
    assert(all_there(first));
    let mid = match after_cond {
        Some(moved) => merged(first, moved),
        None => first,
    };
    assert(all_there(mid));
    let summary = if body.diverged {
        mid
    } else {
        merged(mid, body.moved)
    };
    assert(all_there(summary));
    nothing_escapes(env, entry.moved, entry.declared, summary, summary.len());
    let t = leave_loop(env, entry, inner, after_cond, body);
    assert(t.errors =~= inner.errors);
    assert forall|k: int| 0 <= k < t.frames.len() implies all_there(
        (#[trigger] t.frames[k]).moved,
    ) by {
        assert(t.frames[k] == inner.frames[k]);
    }
}

proof fn nothing_escapes(
    env: Env,
    entry: Seq<Option<Span>>,
    declared: Seq<bool>,
    summary: Seq<Option<Span>>,
    n: nat,
)
    requires
        all_there(summary),
    ensures
        escaped(env, entry, declared, summary, n).len() == 0,
    decreases n,
{
    if n > 0 {
        nothing_escapes(env, entry, declared, summary, (n - 1) as nat);
        if n - 1 < summary.len() {
            assert(summary[n - 1] is None);
        }
    }
}

proof fn entering_is_quiet(s: State)
    ensures
        quiet(s) ==> quiet(enter_loop(s)),
{
    if quiet(s) {
        let t = enter_loop(s);
        assert forall|k: int| 0 <= k < t.frames.len() implies all_there(
            (#[trigger] t.frames[k]).moved,
        ) by {
            if k < s.frames.len() {
                assert(t.frames[k] == s.frames[k]);
            }
        }
    }
}

proof fn calm_while(env: Env, s: State, e: model::Expr, r: Role)
    requires
        calm(env, e, r),
        e.kind is While,
    ensures
        hushed(s, parts(env, s, e)),
    decreases e, 1nat,
{
    let cond = *e.kind->While_cond;
    let body = *e.kind->While_body;
    calm_inside(env, e, r, cond, Role::Own);
    calm_inside(env, e, r, body, Role::Own);
    let s0 = enter_loop(s);
    entering_is_quiet(s);
    let inner = value(env, s0, cond);
    calm_walk(env, s0, cond, Role::Own);
    calm_walk(env, State { diverged: false, ..inner }, body, Role::Own);
    let (last, outcome) = branch(env, inner, body);
    reveal(hushed);
    if quiet(s) {
        assert(quiet(State { diverged: false, ..inner }));
        leaving_is_quiet(env, s, last, Some(inner.moved), outcome);
        assert(parts(env, s, e) == while_loop(env, s, e));
    }
}

proof fn calm_loop(env: Env, s: State, e: model::Expr, r: Role)
    requires
        calm(env, e, r),
        e.kind is Loop,
    ensures
        hushed(s, parts(env, s, e)),
    decreases e, 1nat,
{
    let body = *e.kind->Loop_body;
    calm_inside(env, e, r, body, Role::Own);
    let s0 = enter_loop(s);
    entering_is_quiet(s);
    calm_walk(env, State { diverged: false, ..s0 }, body, Role::Own);
    let (last, outcome) = branch(env, s0, body);
    reveal(hushed);
    if quiet(s) {
        assert(quiet(State { diverged: false, ..s0 }));
        leaving_is_quiet(env, s, last, None, outcome);
        assert(parts(env, s, e) == endless_loop(env, s, e));
    }
}

proof fn calm_arms(
    env: Env,
    s: State,
    reread: Option<(LocalId, Span)>,
    arms: Seq<model::Arm>,
)
    requires
        forall|k: int, x: model::Expr, q: Role|
            0 <= k < arms.len() && #[trigger] arm_hands(arms[k], x, q) ==> calm(env, x, q),
    ensures
        ({
            let (t, entry, outcomes) = arms_from(env, s, reread, arms);
            quiet(s) ==> quiet(t) && t.errors == s.errors && t.frames.len() == s.frames.len()
                && all_there(entry) && forall|k: int|
                0 <= k < outcomes.len() ==> all_there((#[trigger] outcomes[k]).moved)
        }),
    decreases arms, 5nat,
{
    if arms.len() > 0 {
        let init = arms.drop_last();
        let arm = arms.last();
        assert forall|k: int, x: model::Expr, q: Role| 0 <= k < init.len() && #[trigger] arm_hands(
            init[k],
            x,
            q,
        ) implies calm(env, x, q) by {
            assert(arm_hands(arms[k], x, q));
        }
        calm_arms(env, s, reread, init);
        let last = arms.len() - 1;
        assert(arms[last] == arm);
        let (s1, entry1, outs) = arms_from(env, s, reread, init);
        let from = State { moved: entry1, ..s1 };
        let s2 = bind(from, arm.pat);
        binding_is_quiet(from, arm.pat);
        if arm.guard is Some {
            assert(arm_hands(arms[last], arm.guard->0, Role::Own));
            assert(decreases_to!(arms => arms[last]));
            assert(decreases_to!(arms[last] => arms[last].guard->0));
            calm_walk(env, State { diverged: false, ..s2 }, arm.guard->0, Role::Own);
        }
        let (s3, entry, gone) = match arm.guard {
            Some(guard) => {
                let (a, asked) = branch(env, s2, guard);
                let b = match reread {
                    Some((j, span)) => live(env, a, j, span),
                    None => a,
                };
                (b, b.moved, asked.diverged)
            },
            None => (s2, entry1, false),
        };
        assert(arm_hands(arms[last], arm.body, Role::Own));
        assert(decreases_to!(arms => arms[last]));
        assert(decreases_to!(arms[last] => arms[last].body));
        calm_walk(env, State { diverged: false, ..s3 }, arm.body, Role::Own);
        let (t, outcome) = branch(env, s3, arm.body);
        let outcomes = outs.push(Outcome { diverged: gone || outcome.diverged, ..outcome });
        assert(arms_from(env, s, reread, arms) == (t, entry, outcomes));
        reveal(hushed);
        if quiet(s) {
            assert(quiet(from));
            assert(quiet(s2));
            assert(quiet(State { diverged: false, ..s2 }));
            assert(quiet(s3) && s3.errors == s.errors && s3.frames.len() == s.frames.len());
            assert(quiet(State { diverged: false, ..s3 }));
            assert forall|k: int| 0 <= k < outcomes.len() implies all_there(
                (#[trigger] outcomes[k]).moved,
            ) by {
                if k < outs.len() {
                    assert(outcomes[k] == outs[k]);
                }
            }
        }
    }
}

proof fn calm_values(env: Env, s: State, args: Seq<model::Expr>)
    requires
        forall|k: int|
            0 <= k < args.len() ==> calm(env, #[trigger] args[k], Role::Own),
    ensures
        hushed(s, values(env, s, args)),
    decreases args, 5nat,
{
    if args.len() == 0 {
        reveal(hushed);
    } else {
        let init = args.drop_last();
        let last = args.len() - 1;
        let r = Role::Own;
        assert forall|k: int| 0 <= k < init.len() implies calm(
            env,
            #[trigger] init[k],
            Role::Own,
        ) by {
            assert(init[k] == args[k]);
        }
        calm_values(env, s, init);
        let s1 = values(env, s, init);
        assert(calm(env, args[last], r));
        assert(decreases_to!(args => args[last]));
        calm_walk(env, s1, args[last], r);
        assert(values(env, s, args) == walked(env, s1, args[last], r));
        hushed_in_turn(s, s1, walked(env, s1, args[last], r));
    }
}

proof fn calm_call(env: Env, s: State, callee: FnId, args: Seq<model::Expr>)
    requires
        forall|k: int|
            0 <= k < args.len() ==> calm(
                env,
                #[trigger] args[k],
                role_of(mode_at(env.modes, callee, k)),
            ),
    ensures
        hushed(s, call_args(env, s, callee, args)),
    decreases args, 5nat,
{
    if args.len() == 0 {
        reveal(hushed);
    } else {
        let init = args.drop_last();
        let last = args.len() - 1;
        let r = role_of(mode_at(env.modes, callee, last));
        assert forall|k: int| 0 <= k < init.len() implies calm(
            env,
            #[trigger] init[k],
            role_of(mode_at(env.modes, callee, k)),
        ) by {
            assert(init[k] == args[k]);
        }
        calm_call(env, s, callee, init);
        let s1 = call_args(env, s, callee, init);
        assert(calm(env, args[last], r));
        assert(decreases_to!(args => args[last]));
        calm_walk(env, s1, args[last], r);
        assert(call_args(env, s, callee, args) == argument(
            env,
            s1,
            mode_at(env.modes, callee, last),
            args[last],
        ));
        assert(call_args(env, s, callee, args) == walked(env, s1, args[last], r));
        hushed_in_turn(s, s1, walked(env, s1, args[last], r));
    }
}

proof fn calm_builtin(env: Env, s: State, builtin: Builtin, args: Seq<model::Expr>)
    requires
        forall|k: int|
            0 <= k < args.len() ==> calm(
                env,
                #[trigger] args[k],
                role_of(builtin_mode_at(env.vocabulary, builtin, k)),
            ),
    ensures
        hushed(s, builtin_args(env, s, builtin, args)),
    decreases args, 5nat,
{
    if args.len() == 0 {
        reveal(hushed);
    } else {
        let init = args.drop_last();
        let last = args.len() - 1;
        let r = role_of(builtin_mode_at(env.vocabulary, builtin, last));
        assert forall|k: int| 0 <= k < init.len() implies calm(
            env,
            #[trigger] init[k],
            role_of(builtin_mode_at(env.vocabulary, builtin, k)),
        ) by {
            assert(init[k] == args[k]);
        }
        calm_builtin(env, s, builtin, init);
        let s1 = builtin_args(env, s, builtin, init);
        assert(calm(env, args[last], r));
        assert(decreases_to!(args => args[last]));
        calm_walk(env, s1, args[last], r);
        assert(builtin_args(env, s, builtin, args) == argument(
            env,
            s1,
            builtin_mode_at(env.vocabulary, builtin, last),
            args[last],
        ));
        assert(builtin_args(env, s, builtin, args) == walked(env, s1, args[last], r));
        hushed_in_turn(s, s1, walked(env, s1, args[last], r));
    }
}

proof fn calm_stmts(env: Env, s: State, stmts: Seq<model::Stmt>)
    requires
        forall|k: int, x: model::Expr, q: Role|
            0 <= k < stmts.len() && #[trigger] stmt_hands(stmts[k], x, q) ==> calm(env, x, q),
    ensures
        hushed(s, stmts_from(env, s, stmts)),
    decreases stmts, 5nat,
{
    if stmts.len() == 0 {
        reveal(hushed);
    } else {
        let init = stmts.drop_last();
        let last = stmts.len() - 1;
        assert forall|k: int, x: model::Expr, q: Role| 0 <= k < init.len() && #[trigger] stmt_hands(
            init[k],
            x,
            q,
        ) implies calm(env, x, q) by {
            assert(stmt_hands(stmts[k], x, q));
        }
        calm_stmts(env, s, init);
        let s1 = stmts_from(env, s, init);
        assert(decreases_to!(stmts => stmts[last]));
        assert forall|x: model::Expr, q: Role| #[trigger] stmt_hands(
            stmts[last],
            x,
            q,
        ) implies calm(env, x, q) by {}
        calm_stmt(env, s1, stmts[last]);
        hushed_in_turn(s, s1, stmts_from(env, s, stmts));
    }
}

proof fn calm_stmt(env: Env, s: State, it: model::Stmt)
    requires
        forall|x: model::Expr, q: Role| #[trigger] stmt_hands(it, x, q) ==> calm(env, x, q),
    ensures
        hushed(s, stmt(env, s, it)),
    decreases it, 4nat,
{
    match it.kind {
        model::StmtKind::Let { local, value: v } => {
            assert(stmt_hands(it, v, Role::Own));
            assert(decreases_to!(it => v));
            calm_walk(env, s, v, Role::Own);
            reveal(hushed);
        },
        model::StmtKind::Assign { place: target, value: v } => {
            assert(stmt_hands(it, v, Role::Own));
            assert(decreases_to!(it => v));
            assert(decreases_to!(it => target));
            let s1 = value(env, s, v);
            calm_walk(env, s, v, Role::Own);
            if !(target.kind is Local) {
                assert(stmt_hands(it, target, Role::Read));
                calm_walk(env, s1, target, Role::Read);
            }
            reveal(hushed);
        },
        model::StmtKind::After { task, .. } => {
            assert(stmt_hands(it, task, Role::Own));
            assert(decreases_to!(it => task));
            calm_walk(env, s, task, Role::Own);
        },
        model::StmtKind::Expr(e) => {
            assert(stmt_hands(it, e, Role::Own));
            assert(decreases_to!(it => e));
            calm_walk(env, s, e, Role::Own);
        },
    }
}

} // verus!
