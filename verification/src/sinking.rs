//! What a body takes, said over how values are handed on: inference finds every way by which the
//! value of a name comes to an owner, and nothing else, and every piece of work that is started.

use vstd::prelude::*;
use crate::hir::{Builtin, FnId, LocalId, Mode};
use crate::model;
use crate::moves::{builtin_mode_at, mode_at};
use crate::ownership::{
    arg_facts, arm_facts, arms_facts, builtin_facts, call_facts, facts, facts_of_args,
    facts_of_block, facts_of_match, facts_of_none, facts_of_one, facts_of_three, facts_of_two,
    gives, role_of, stmt_facts, stmts_facts, took, total, total_of_more, total_of_none, Ground,
    Role,
};
use crate::sink::{
    all_take, argument, arms_take, builtin_takes, call_takes, candidate, first_take_names, inside,
    maybe_takes, names, names_append, reads, settles, stmt_takes, stmts_take, taken, takes, Take,
};

verus! {

/// What an expression takes, treated as its role says.
pub open spec fn sought(
    modes: Seq<Seq<Mode>>,
    v: model::Vocabulary,
    e: model::Expr,
    r: Role,
) -> Seq<Take> {
    if r == Role::Read {
        reads(modes, v, e)
    } else {
        takes(modes, v, e)
    }
}

/// Inference finds exactly the names whose values come to an owner: a parameter is taken if and
/// only if some way down through the parts of the body leads to it and it is not merely read there.
pub proof fn inference_finds_every_owner(
    modes: Seq<Seq<Mode>>,
    v: model::Vocabulary,
    e: model::Expr,
    r: Role,
    id: LocalId,
)
    ensures
        names(sought(modes, v, e, r), id.0 as int) <==> took(modes, v, e, r, id, true),
{
    let g = Ground { modes, vocabulary: v, owned: true };
    finds(g, e, r, id);
    reveal(facts);
}

proof fn none_named(i: int)
    ensures
        !names(seq![], i),
{
}

proof fn finds(g: Ground, e: model::Expr, r: Role, id: LocalId)
    requires
        g.owned,
    ensures
        names(sought(g.modes, g.vocabulary, e, r), id.0 as int) <==> facts(g, e, r, id).takes,
    decreases e, 3nat,
{
    let i = id.0 as int;
    match e.kind {
        model::ExprKind::Local(j) => {
            facts_of_none(g, e, r, id);
            none_named(i);
            let one = seq![Take { id: j, span: e.span }];
            assert(one[0].id == j);
        },
        model::ExprKind::Field { base, .. } => {
            facts_of_one(g, e, r, id, *base, Role::Read);
            finds(g, *base, Role::Read, id);
        },
        _ => finds_inside(g, e, r, id),
    }
}

proof fn finds_inside(g: Ground, e: model::Expr, r: Role, id: LocalId)
    requires
        g.owned,
        !(e.kind is Local || e.kind is Field),
    ensures
        names(inside(g.modes, g.vocabulary, e), id.0 as int) <==> facts(g, e, r, id).takes,
    decreases e, 2nat,
{
    let i = id.0 as int;
    let m = g.modes;
    let v = g.vocabulary;
    match e.kind {
        model::ExprKind::Unary { expr, .. } => {
            facts_of_one(g, e, r, id, *expr, Role::Own);
            finds(g, *expr, Role::Own, id);
        },
        model::ExprKind::Await { expr, .. } => {
            facts_of_one(g, e, r, id, *expr, Role::Own);
            finds(g, *expr, Role::Own, id);
        },
        model::ExprKind::Spawn { expr, .. } => {
            facts_of_one(g, e, r, id, *expr, Role::Own);
            finds(g, *expr, Role::Own, id);
        },
        model::ExprKind::Try { expr, .. } => {
            facts_of_one(g, e, r, id, *expr, Role::Own);
            finds(g, *expr, Role::Own, id);
        },
        model::ExprKind::Scope { body, .. } => {
            facts_of_one(g, e, r, id, *body, Role::Own);
            finds(g, *body, Role::Own, id);
        },
        model::ExprKind::Loop { body, .. } => {
            facts_of_one(g, e, r, id, *body, Role::Own);
            finds(g, *body, Role::Own, id);
        },
        model::ExprKind::ReactorInput { reactor, .. } => {
            facts_of_one(g, e, r, id, *reactor, Role::Read);
            finds(g, *reactor, Role::Read, id);
        },
        model::ExprKind::ReactorExport { reactor, .. } => {
            facts_of_one(g, e, r, id, *reactor, Role::Read);
            finds(g, *reactor, Role::Read, id);
        },
        model::ExprKind::Binary { lhs, rhs, .. } => {
            facts_of_two(g, e, r, id, *lhs, *rhs);
            finds(g, *lhs, Role::Own, id);
            finds(g, *rhs, Role::Own, id);
            names_append(takes(m, v, *lhs), takes(m, v, *rhs), i);
        },
        model::ExprKind::ShortCircuit { lhs, rhs, .. } => {
            facts_of_two(g, e, r, id, *lhs, *rhs);
            finds(g, *lhs, Role::Own, id);
            finds(g, *rhs, Role::Own, id);
            names_append(takes(m, v, *lhs), takes(m, v, *rhs), i);
        },
        model::ExprKind::While { cond, body, .. } => {
            facts_of_two(g, e, r, id, *cond, *body);
            finds(g, *cond, Role::Own, id);
            finds(g, *body, Role::Own, id);
            names_append(takes(m, v, *cond), takes(m, v, *body), i);
        },
        model::ExprKind::Call { callee, args } => {
            let role = |k: int| role_of(mode_at(m, callee, k));
            facts_of_args(g, e, r, id, args, role);
            finds_in_call(g, callee, args, id);
            assert(arg_facts(g, args, role, id) =~= call_facts(g, callee, args, id));
        },
        model::ExprKind::Builtin { builtin, args } => {
            let role = |k: int| role_of(builtin_mode_at(v, builtin, k));
            facts_of_args(g, e, r, id, args, role);
            finds_in_builtin(g, builtin, args, id);
            assert(arg_facts(g, args, role, id) =~= builtin_facts(g, builtin, args, id));
        },
        model::ExprKind::Construct { args, .. } => {
            facts_of_args(g, e, r, id, args, |k: int| Role::Own);
            finds_in_all(g, args, id);
        },
        model::ExprKind::SpawnReactor { args, .. } => {
            facts_of_args(g, e, r, id, args, |k: int| Role::Own);
            finds_in_all(g, args, id);
        },
        model::ExprKind::Match { scrutinee, arms } => {
            facts_of_match(g, e, r, id);
            finds(g, *scrutinee, Role::Own, id);
            finds_in_arms(g, arms, id);
            names_append(takes(m, v, *scrutinee), arms_take(m, v, arms), i);
        },
        model::ExprKind::If { cond, then, els } => {
            finds(g, *cond, Role::Own, id);
            finds(g, *then, Role::Own, id);
            names_append(takes(m, v, *cond), takes(m, v, *then), i);
            names_append(
                takes(m, v, *cond) + takes(m, v, *then),
                maybe_takes(m, v, els),
                i,
            );
            none_named(i);
            match els {
                Some(x) => {
                    assert forall|y: model::Expr, p: Role| #[trigger] gives(g, e, y, p) <==> (y
                        == *cond || y == *then || y == *x) && p == Role::Own by {
                        assert(els == Some(Box::new(y)) <==> y == *x);
                    }
                    facts_of_three(g, e, r, id, *cond, *then, *x);
                    finds(g, *x, Role::Own, id);
                },
                None => facts_of_two(g, e, r, id, *cond, *then),
            }
        },
        model::ExprKind::Block { stmts, tail } => {
            facts_of_block(g, e, r, id);
            finds_in_stmts(g, stmts, id);
            names_append(stmts_take(m, v, stmts), maybe_takes(m, v, tail), i);
            none_named(i);
            match tail {
                Some(x) => finds(g, *x, Role::Own, id),
                None => {},
            }
        },
        model::ExprKind::Return { value } => {
            none_named(i);
            match value {
                Some(x) => {
                    assert forall|y: model::Expr, p: Role| #[trigger] gives(g, e, y, p) <==> y == *x
                        && p == Role::Own by {
                        assert(value == Some(Box::new(y)) <==> y == *x);
                    }
                    facts_of_one(g, e, r, id, *x, Role::Own);
                    finds(g, *x, Role::Own, id);
                },
                None => facts_of_none(g, e, r, id),
            }
        },
        model::ExprKind::Break { value } => {
            none_named(i);
            match value {
                Some(x) => {
                    assert forall|y: model::Expr, p: Role| #[trigger] gives(g, e, y, p) <==> y == *x
                        && p == Role::Own by {
                        assert(value == Some(Box::new(y)) <==> y == *x);
                    }
                    facts_of_one(g, e, r, id, *x, Role::Own);
                    finds(g, *x, Role::Own, id);
                },
                None => facts_of_none(g, e, r, id),
            }
        },
        _ => {
            none_named(i);
            facts_of_none(g, e, r, id);
        },
    }
}

proof fn finds_in_all(g: Ground, args: Seq<model::Expr>, id: LocalId)
    requires
        g.owned,
    ensures
        names(
            all_take(g.modes, g.vocabulary, args),
            id.0 as int,
        ) <==> total(arg_facts(g, args, |k: int| Role::Own, id)).takes,
    decreases args, 5nat,
{
    let m = g.modes;
    let v = g.vocabulary;
    let list = arg_facts(g, args, |k: int| Role::Own, id);
    if args.len() == 0 {
        none_named(id.0 as int);
        total_of_none(list);
    } else {
        let init = args.drop_last();
        let r = Role::Own;
        finds_in_all(g, init, id);
        assert(decreases_to!(args => args.last()));
        finds(g, args.last(), r, id);
        total_of_more(
            list,
            arg_facts(g, init, |k: int| Role::Own, id),
            facts(g, args.last(), r, id),
        );
        assert(takes(m, v, args.last()) == sought(m, v, args.last(), r));
        names_append(all_take(g.modes, g.vocabulary, init), takes(m, v, args.last()), id.0 as int);
    }
}

proof fn finds_in_call(g: Ground, callee: FnId, args: Seq<model::Expr>, id: LocalId)
    requires
        g.owned,
    ensures
        names(
            call_takes(g.modes, g.vocabulary, callee, args),
            id.0 as int,
        ) <==> total(call_facts(g, callee, args, id)).takes,
    decreases args, 5nat,
{
    let m = g.modes;
    let v = g.vocabulary;
    let list = call_facts(g, callee, args, id);
    if args.len() == 0 {
        none_named(id.0 as int);
        total_of_none(list);
    } else {
        let init = args.drop_last();
        let r = role_of(mode_at(g.modes, callee, args.len() - 1));
        finds_in_call(g, callee, init, id);
        assert(decreases_to!(args => args.last()));
        finds(g, args.last(), r, id);
        total_of_more(list, call_facts(g, callee, init, id), facts(g, args.last(), r, id));
        assert(
            argument(
                m,
                v,
                mode_at(m, callee, args.len() - 1),
                args.last(),
            ) == sought(m, v, args.last(), r)
        );
        names_append(
            call_takes(g.modes, g.vocabulary, callee, init),
            argument(m, v, mode_at(m, callee, args.len() - 1), args.last()),
            id.0 as int,
        );
    }
}

proof fn finds_in_builtin(g: Ground, builtin: Builtin, args: Seq<model::Expr>, id: LocalId)
    requires
        g.owned,
    ensures
        names(
            builtin_takes(g.modes, g.vocabulary, builtin, args),
            id.0 as int,
        ) <==> total(builtin_facts(g, builtin, args, id)).takes,
    decreases args, 5nat,
{
    let m = g.modes;
    let v = g.vocabulary;
    let list = builtin_facts(g, builtin, args, id);
    if args.len() == 0 {
        none_named(id.0 as int);
        total_of_none(list);
    } else {
        let init = args.drop_last();
        let r = role_of(builtin_mode_at(g.vocabulary, builtin, args.len() - 1));
        finds_in_builtin(g, builtin, init, id);
        assert(decreases_to!(args => args.last()));
        finds(g, args.last(), r, id);
        total_of_more(list, builtin_facts(g, builtin, init, id), facts(g, args.last(), r, id));
        assert(
            argument(
                m,
                v,
                builtin_mode_at(v, builtin, args.len() - 1),
                args.last(),
            ) == sought(m, v, args.last(), r)
        );
        names_append(
            builtin_takes(g.modes, g.vocabulary, builtin, init),
            argument(m, v, builtin_mode_at(v, builtin, args.len() - 1), args.last()),
            id.0 as int,
        );
    }
}

proof fn finds_in_arms(g: Ground, arms: Seq<model::Arm>, id: LocalId)
    requires
        g.owned,
    ensures
        names(arms_take(g.modes, g.vocabulary, arms), id.0 as int) <==> total(
            arms_facts(g, arms, id),
        ).takes,
    decreases arms, 5nat,
{
    let m = g.modes;
    let v = g.vocabulary;
    let i = id.0 as int;
    let list = arms_facts(g, arms, id);
    none_named(i);
    if arms.len() == 0 {
        total_of_none(list);
    } else {
        let init = arms.drop_last();
        let arm = arms.last();
        finds_in_arms(g, init, id);
        total_of_more(list, arms_facts(g, init, id), arm_facts(g, arm, id));
        assert(decreases_to!(arms => arm));
        assert(decreases_to!(arm => arm.body));
        finds(g, arm.body, Role::Own, id);
        let asked = match arm.guard {
            Some(guard) => takes(m, v, guard),
            None => seq![],
        };
        if arm.guard is Some {
            assert(decreases_to!(arm => arm.guard->0));
            finds(g, arm.guard->0, Role::Own, id);
        }
        names_append(arms_take(m, v, init), asked, i);
        names_append(arms_take(m, v, init) + asked, takes(m, v, arm.body), i);
    }
}

proof fn finds_in_stmts(g: Ground, stmts: Seq<model::Stmt>, id: LocalId)
    requires
        g.owned,
    ensures
        names(stmts_take(g.modes, g.vocabulary, stmts), id.0 as int) <==> total(
            stmts_facts(g, stmts, id),
        ).takes,
    decreases stmts, 5nat,
{
    let list = stmts_facts(g, stmts, id);
    if stmts.len() == 0 {
        none_named(id.0 as int);
        total_of_none(list);
    } else {
        let init = stmts.drop_last();
        finds_in_stmts(g, init, id);
        total_of_more(list, stmts_facts(g, init, id), stmt_facts(g, stmts.last(), id));
        assert(decreases_to!(stmts => stmts.last()));
        finds_in_stmt(g, stmts.last(), id);
        names_append(
            stmts_take(g.modes, g.vocabulary, init),
            stmt_takes(g.modes, g.vocabulary, stmts.last()),
            id.0 as int,
        );
    }
}

proof fn finds_in_stmt(g: Ground, it: model::Stmt, id: LocalId)
    requires
        g.owned,
    ensures
        names(stmt_takes(g.modes, g.vocabulary, it), id.0 as int) <==> stmt_facts(g, it, id).takes,
    decreases it, 4nat,
{
    match it.kind {
        model::StmtKind::Let { value, .. } => {
            assert(decreases_to!(it => value));
            finds(g, value, Role::Own, id);
        },
        model::StmtKind::Assign { place, value } => {
            assert(decreases_to!(it => value));
            assert(decreases_to!(it => place));
            finds(g, value, Role::Own, id);
            finds(g, place, Role::Read, id);
            names_append(
                takes(g.modes, g.vocabulary, value),
                reads(g.modes, g.vocabulary, place),
                id.0 as int,
            );
            if place.kind is Local {
                none_named(id.0 as int);
            }
        },
        model::StmtKind::After { task, .. } => {
            assert(decreases_to!(it => task));
            finds(g, task, Role::Own, id);
        },
        model::StmtKind::Expr(e) => {
            assert(decreases_to!(it => e));
            finds(g, e, Role::Own, id);
        },
    }
}

/// What inference settles on is what bodies do: a parameter it decides still reads only where no
/// way through its function's body finds an owner for it.
pub proof fn reading_parameters_find_no_owner(
    p: model::Program,
    v: model::Vocabulary,
    pinned: Seq<Seq<bool>>,
    written: Seq<Seq<Mode>>,
    modes: Seq<Seq<Mode>>,
    f: int,
    i: int,
)
    requires
        settles(p, v, pinned, written, modes),
        0 <= f < modes.len(),
        0 <= i < modes[f].len(),
        candidate(p, pinned, f, i),
        modes[f][i] == Mode::Read,
        i <= u32::MAX,
    ensures
        !took(modes, v, p.fns[f].body, Role::Own, LocalId(i as u32), true),
{
    let body = p.fns[f].body;
    assert(!taken(modes, v, body, i));
    inference_finds_every_owner(modes, v, body, Role::Own, LocalId(i as u32));
    first_take_names(takes(modes, v, body), i);
}

} // verus!
