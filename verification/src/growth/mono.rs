//! Each step of `mono.rs` keeps what was there.

use vstd::prelude::*;
use crate::model;
use crate::generics::INSTANCE_CEILING;
use crate::growth::{
    grew, grew_is_wandered, grew_reflexive, grew_transitive, wandered_back, wandered_transitive,
    widened, with_current_wanders,
};
use crate::hir::{Builtin, Ctor, EnumId, FnId, StructId};
use crate::instances::substitute;
use crate::mono::{
    Given, asked_again, drain_type_fills, fill, fill_from, mono_arm, mono_arms, mono_branch,
    mono_call, mono_callee, mono_copy, mono_ctor, mono_enum, mono_expr, mono_exprs, mono_from,
    mono_instance, mono_kind, mono_locals, mono_maybe, mono_one, mono_pat, mono_pat_kind, mono_pats,
    mono_stmt, mono_stmts, mono_struct, mono_two, monomorphize, neuter_templates, without_codes,
};
use crate::state::{Fill, FnInstance, State};

verus! {

pub broadcast proof fn with_code_grows(
    s: State,
    id: FnId,
    locals: Seq<model::LocalDef>,
    body: model::Expr,
)
    ensures
        grew(s, (#[trigger] s.with_code(id, locals, body))),
{
    reveal(State::with_code);
    reveal(grew);
    reveal(widened);
}

pub broadcast proof fn without_code_grows(s: State, id: FnId)
    ensures
        grew(s, (#[trigger] s.without_code(id))),
{
    reveal(State::without_code);
    reveal(grew);
    reveal(widened);
}

pub broadcast proof fn asked_again_grows(
    s: State,
    g: Given,
    builtin: Builtin,
    args: Seq<model::Expr>,
    ty: model::Ty,
)
    ensures
        grew(s, (#[trigger] asked_again(s, g, builtin, args, ty))),
{
    broadcast use {grew_reflexive, grew_transitive, crate::growth::state::push_grows};

    reveal(asked_again);
}

pub broadcast proof fn fill_grows(s: State, f: Fill)
    ensures
        grew(s, (#[trigger] fill(s, f))),
{
    broadcast use {
        grew_reflexive,
        grew_transitive,
        crate::growth::generics::fill_enum_grows,
        crate::growth::generics::fill_struct_grows,
    };

    reveal(fill);
}

pub broadcast proof fn fill_from_grows(s: State, next: nat)
    ensures
        grew(s, (#[trigger] fill_from(s, next))),
    decreases INSTANCE_CEILING - next,
{
    broadcast use {
        grew_reflexive,
        grew_transitive,
        fill_grows,
        crate::growth::state::with_fill_cursor_grows,
    };

    if !(next >= s.fill_queue.len() || next >= INSTANCE_CEILING) {
        fill_from_grows(
            fill(s.with_fill_cursor((next + 1) as usize), s.fill_queue[next as int]),
            next + 1,
        );
    }
}

pub broadcast proof fn drain_type_fills_grows(s: State)
    ensures
        grew(s, (#[trigger] drain_type_fills(s))),
{
    broadcast use {
        grew_reflexive,
        grew_transitive,
        fill_from_grows,
        crate::growth::state::with_defining_types_grows,
    };

    reveal(drain_type_fills);
}

pub broadcast proof fn mono_callee_grows(s: State, g: Given, callee: FnId)
    ensures
        grew(s, (#[trigger] mono_callee(s, g, callee)).0),
{
    broadcast use {
        grew_reflexive,
        grew_transitive,
        crate::growth::instances::request_fn_instance_grows,
        crate::growth::instances::substitute_grows,
        crate::growth::instances::substitute_all_grows,
    };

    reveal(mono_callee);
}

pub broadcast proof fn mono_enum_grows(s: State, g: Given, id: EnumId)
    ensures
        grew(s, (#[trigger] mono_enum(s, g, id)).0),
{
    broadcast use {grew_reflexive, grew_transitive, crate::growth::instances::substitute_grows};

    reveal(mono_enum);
}

pub broadcast proof fn mono_struct_grows(s: State, g: Given, id: StructId)
    ensures
        grew(s, (#[trigger] mono_struct(s, g, id)).0),
{
    broadcast use {grew_reflexive, grew_transitive, crate::growth::instances::substitute_grows};

    reveal(mono_struct);
}

pub broadcast proof fn mono_ctor_grows(s: State, g: Given, ctor: Ctor)
    ensures
        grew(s, (#[trigger] mono_ctor(s, g, ctor)).0),
{
    broadcast use {grew_reflexive, grew_transitive, mono_enum_grows, mono_struct_grows};

    reveal(mono_ctor);
}

pub broadcast proof fn mono_pats_grows(s: State, g: Given, list: Seq<model::Pat>)
    ensures
        grew(s, (#[trigger] mono_pats(s, g, list)).0),
    decreases list, 2nat,
{
    broadcast use {grew_reflexive, grew_transitive, crate::growth::state::push_grows};

    if list.len() > 0 {
        mono_pats_grows(s, g, list.drop_last());
        let front = mono_pats(s, g, list.drop_last());
        mono_pat_grows(front.0, g, list.last());
    }
}

pub broadcast proof fn mono_pat_kind_grows(s: State, g: Given, pat: model::Pat)
    ensures
        grew(s, (#[trigger] mono_pat_kind(s, g, pat)).0),
    decreases pat, 0nat,
{
    broadcast use {grew_reflexive, grew_transitive, mono_enum_grows, mono_struct_grows};

    match pat.kind {
        model::PatKind::Variant { enum_id, variant, args } => {
            let e = mono_enum(s, g, enum_id);
            mono_pats_grows(e.0, g, args);
        },
        model::PatKind::Struct { strukt, args } => {
            let e = mono_struct(s, g, strukt);
            mono_pats_grows(e.0, g, args);
        },
        model::PatKind::Or(alts) => {
            mono_pats_grows(s, g, alts);
        },
        _ => {},
    }
}

pub broadcast proof fn mono_pat_grows(s: State, g: Given, pat: model::Pat)
    ensures
        grew(s, (#[trigger] mono_pat(s, g, pat)).0),
    decreases pat, 1nat,
{
    broadcast use {grew_reflexive, grew_transitive};

    mono_pat_kind_grows(s, g, pat);
}

pub broadcast proof fn mono_two_grows(s: State, g: Given, e: model::Expr)
    ensures
        grew(s, (#[trigger] mono_two(s, g, e)).0),
    decreases e, 2nat,
{
    broadcast use {grew_reflexive, grew_transitive};

    match e.kind {
        model::ExprKind::Binary { op, lhs, rhs } => {
            mono_expr_grows(s, g, *lhs);
            let a = mono_expr(s, g, *lhs);
            mono_expr_grows(a.0, g, *rhs);
        },
        model::ExprKind::ShortCircuit { and, lhs, rhs } => {
            mono_expr_grows(s, g, *lhs);
            let a = mono_expr(s, g, *lhs);
            mono_expr_grows(a.0, g, *rhs);
        },
        model::ExprKind::While { cond, body } => {
            mono_expr_grows(s, g, *cond);
            let a = mono_expr(s, g, *cond);
            mono_expr_grows(a.0, g, *body);
        },
        _ => {},
    }
}

pub broadcast proof fn mono_one_grows(s: State, g: Given, e: model::Expr)
    ensures
        grew(s, (#[trigger] mono_one(s, g, e)).0),
    decreases e, 2nat,
{
    broadcast use {grew_reflexive, grew_transitive};

    match e.kind {
        model::ExprKind::Field { base, index } => {
            mono_expr_grows(s, g, *base);
        },
        model::ExprKind::Unary { op, expr } => {
            mono_expr_grows(s, g, *expr);
        },
        model::ExprKind::Await { expr } => {
            mono_expr_grows(s, g, *expr);
        },
        model::ExprKind::Scope { body } => {
            mono_expr_grows(s, g, *body);
        },
        model::ExprKind::Spawn { expr } => {
            mono_expr_grows(s, g, *expr);
        },
        model::ExprKind::ReactorInput { reactor, index } => {
            mono_expr_grows(s, g, *reactor);
        },
        model::ExprKind::ReactorExport { reactor, index } => {
            mono_expr_grows(s, g, *reactor);
        },
        model::ExprKind::Try { expr, enum_id } => {
            mono_expr_grows(s, g, *expr);
        },
        model::ExprKind::Loop { body } => {
            mono_expr_grows(s, g, *body);
        },
        _ => {},
    }
}

pub broadcast proof fn mono_exprs_grows(s: State, g: Given, list: Seq<model::Expr>)
    ensures
        grew(s, (#[trigger] mono_exprs(s, g, list)).0),
    decreases list, 5nat,
{
    broadcast use {grew_reflexive, grew_transitive, crate::growth::state::push_grows};

    if list.len() > 0 {
        mono_exprs_grows(s, g, list.drop_last());
        let front = mono_exprs(s, g, list.drop_last());
        mono_expr_grows(front.0, g, list.last());
    }
}

pub broadcast proof fn mono_call_grows(s: State, g: Given, e: model::Expr, ty: model::Ty)
    ensures
        grew(s, (#[trigger] mono_call(s, g, e, ty)).0),
    decreases e, 2nat,
{
    broadcast use {
        grew_reflexive,
        grew_transitive,
        asked_again_grows,
        mono_callee_grows,
        mono_ctor_grows,
    };

    match e.kind {
        model::ExprKind::Call { callee, args } => {
            let c = mono_callee(s, g, callee);
            mono_exprs_grows(c.0, g, args);
        },
        model::ExprKind::Builtin { builtin, args } => {
            mono_exprs_grows(s, g, args);
        },
        model::ExprKind::Construct { ctor, args } => {
            let c = mono_ctor(s, g, ctor);
            mono_exprs_grows(c.0, g, args);
        },
        model::ExprKind::SpawnReactor { reactor, args } => {
            mono_exprs_grows(s, g, args);
        },
        _ => {},
    }
}

pub broadcast proof fn mono_stmt_grows(s: State, g: Given, stmt: model::Stmt)
    ensures
        grew(s, (#[trigger] mono_stmt(s, g, stmt)).0),
    decreases stmt, 5nat,
{
    broadcast use {grew_reflexive, grew_transitive};

    match stmt.kind {
        model::StmtKind::Let { local, value } => {
            mono_expr_grows(s, g, value);
        },
        model::StmtKind::Assign { place, value } => {
            mono_expr_grows(s, g, place);
            let a = mono_expr(s, g, place);
            mono_expr_grows(a.0, g, value);
        },
        model::StmtKind::After { task, reply } => {
            mono_expr_grows(s, g, task);
        },
        model::StmtKind::Expr(e) => {
            mono_expr_grows(s, g, e);
        },
    }
}

pub broadcast proof fn mono_stmts_grows(s: State, g: Given, list: Seq<model::Stmt>)
    ensures
        grew(s, (#[trigger] mono_stmts(s, g, list)).0),
    decreases list, 5nat,
{
    broadcast use {grew_reflexive, grew_transitive, crate::growth::state::push_grows};

    if list.len() > 0 {
        mono_stmts_grows(s, g, list.drop_last());
        let front = mono_stmts(s, g, list.drop_last());
        mono_stmt_grows(front.0, g, list.last());
    }
}

pub broadcast proof fn mono_maybe_grows(s: State, g: Given, e: Option<Box<model::Expr>>)
    ensures
        grew(s, (#[trigger] mono_maybe(s, g, e)).0),
    decreases e, 5nat,
{
    broadcast use {grew_reflexive, grew_transitive};

    match e {
        Some(e) => {
            mono_expr_grows(s, g, *e);
        },
        _ => {},
    }
}

pub broadcast proof fn mono_arms_grows(s: State, g: Given, list: Seq<model::Arm>)
    ensures
        grew(s, (#[trigger] mono_arms(s, g, list)).0),
    decreases list, 5nat,
{
    broadcast use {grew_reflexive, grew_transitive, crate::growth::state::push_grows};

    if list.len() > 0 {
        mono_arms_grows(s, g, list.drop_last());
        let front = mono_arms(s, g, list.drop_last());
        mono_arm_grows(front.0, g, list.last());
    }
}

pub broadcast proof fn mono_branch_grows(s: State, g: Given, e: model::Expr)
    ensures
        grew(s, (#[trigger] mono_branch(s, g, e)).0),
    decreases e, 2nat,
{
    broadcast use {grew_reflexive, grew_transitive};

    match e.kind {
        model::ExprKind::Match { scrutinee, arms } => {
            mono_expr_grows(s, g, *scrutinee);
            let a = mono_expr(s, g, *scrutinee);
            mono_arms_grows(a.0, g, arms);
        },
        model::ExprKind::If { cond, then, els } => {
            mono_expr_grows(s, g, *cond);
            let a = mono_expr(s, g, *cond);
            mono_expr_grows(a.0, g, *then);
            let b = mono_expr(a.0, g, *then);
            mono_maybe_grows(b.0, g, els);
        },
        model::ExprKind::Block { stmts, tail } => {
            mono_stmts_grows(s, g, stmts);
            let a = mono_stmts(s, g, stmts);
            mono_maybe_grows(a.0, g, tail);
        },
        model::ExprKind::Return { value } => {
            mono_maybe_grows(s, g, value);
        },
        model::ExprKind::Break { value } => {
            mono_maybe_grows(s, g, value);
        },
        _ => {},
    }
}

pub broadcast proof fn mono_kind_grows(s: State, g: Given, e: model::Expr, ty: model::Ty)
    ensures
        grew(s, (#[trigger] mono_kind(s, g, e, ty)).0),
    decreases e, 3nat,
{
    broadcast use {grew_reflexive, grew_transitive};

    match e.kind {
        model::ExprKind::Field { .. } => {
            mono_one_grows(s, g, e);
        },
        model::ExprKind::Unary { .. } => {
            mono_one_grows(s, g, e);
        },
        model::ExprKind::Await { .. } => {
            mono_one_grows(s, g, e);
        },
        model::ExprKind::Scope { .. } => {
            mono_one_grows(s, g, e);
        },
        model::ExprKind::Spawn { .. } => {
            mono_one_grows(s, g, e);
        },
        model::ExprKind::ReactorInput { .. } => {
            mono_one_grows(s, g, e);
        },
        model::ExprKind::ReactorExport { .. } => {
            mono_one_grows(s, g, e);
        },
        model::ExprKind::Try { .. } => {
            mono_one_grows(s, g, e);
        },
        model::ExprKind::Loop { .. } => {
            mono_one_grows(s, g, e);
        },
        model::ExprKind::Binary { .. } => {
            mono_two_grows(s, g, e);
        },
        model::ExprKind::ShortCircuit { .. } => {
            mono_two_grows(s, g, e);
        },
        model::ExprKind::While { .. } => {
            mono_two_grows(s, g, e);
        },
        model::ExprKind::Call { .. } => {
            mono_call_grows(s, g, e, ty);
        },
        model::ExprKind::Builtin { .. } => {
            mono_call_grows(s, g, e, ty);
        },
        model::ExprKind::Construct { .. } => {
            mono_call_grows(s, g, e, ty);
        },
        model::ExprKind::SpawnReactor { .. } => {
            mono_call_grows(s, g, e, ty);
        },
        model::ExprKind::Match { .. } => {
            mono_branch_grows(s, g, e);
        },
        model::ExprKind::If { .. } => {
            mono_branch_grows(s, g, e);
        },
        model::ExprKind::Block { .. } => {
            mono_branch_grows(s, g, e);
        },
        model::ExprKind::Return { .. } => {
            mono_branch_grows(s, g, e);
        },
        model::ExprKind::Break { .. } => {
            mono_branch_grows(s, g, e);
        },
        _ => {},
    }
}

pub broadcast proof fn mono_expr_grows(s: State, g: Given, e: model::Expr)
    ensures
        grew(s, (#[trigger] mono_expr(s, g, e)).0),
    decreases e, 4nat,
{
    broadcast use {grew_reflexive, grew_transitive, crate::growth::instances::substitute_grows};

    let t = substitute(s, e.ty, g.args, g.at);
    mono_kind_grows(t.0, g, e, t.1);
}

pub broadcast proof fn mono_arm_grows(s: State, g: Given, arm: model::Arm)
    ensures
        grew(s, (#[trigger] mono_arm(s, g, arm)).0),
    decreases arm, 5nat,
{
    broadcast use {grew_reflexive, grew_transitive, mono_pat_grows};

    let p = mono_pat(s, g, arm.pat);
    match arm.guard {
        Some(guard) => {
            mono_expr_grows(p.0, g, guard);
        },
        _ => {},
    }
    let q: (State, Option<model::Expr>) = match arm.guard { Some(
        guard,
    ) => (mono_expr(p.0, g, guard).0, Some(mono_expr(p.0, g, guard).1)), None => (p.0, None), };
    mono_expr_grows(q.0, g, arm.body);
}

pub broadcast proof fn mono_locals_grows(s: State, g: Given, list: Seq<model::LocalDef>)
    ensures
        grew(s, (#[trigger] mono_locals(s, g, list)).0),
    decreases list.len(),
{
    broadcast use {
        grew_reflexive,
        grew_transitive,
        crate::growth::instances::substitute_grows,
        crate::growth::state::push_grows,
    };

    if list.len() > 0 {
        mono_locals_grows(s, g, list.drop_last());
    }
}

pub broadcast proof fn mono_copy_grows(s: State, id: FnId, i: FnInstance)
    ensures
        grew(s, (#[trigger] mono_copy(s, id, i))),
{
    broadcast use {
        grew_reflexive,
        grew_transitive,
        grew_is_wandered,
        wandered_back,
        wandered_transitive,
        with_current_wanders,
        mono_expr_grows,
        mono_locals_grows,
        with_code_grows,
    };

    reveal(mono_copy);
}

pub broadcast proof fn mono_instance_grows(s: State, id: FnId)
    ensures
        grew(s, (#[trigger] mono_instance(s, id))),
{
    broadcast use {grew_reflexive, grew_transitive, mono_copy_grows};

    reveal(mono_instance);
}

pub broadcast proof fn mono_from_grows(s: State, next: nat)
    ensures
        grew(s, (#[trigger] mono_from(s, next))),
    decreases INSTANCE_CEILING - next,
{
    broadcast use {
        grew_reflexive,
        grew_transitive,
        mono_instance_grows,
        crate::growth::state::with_work_cursor_grows,
    };

    if !(next >= s.worklist.len() || next >= INSTANCE_CEILING) {
        mono_from_grows(
            mono_instance(s.with_work_cursor((next + 1) as usize), s.worklist[next as int]),
            next + 1,
        );
    }
}

pub broadcast proof fn without_codes_grows(s: State, ids: Seq<FnId>)
    ensures
        grew(s, (#[trigger] without_codes(s, ids))),
    decreases ids.len(),
{
    broadcast use {grew_reflexive, grew_transitive, without_code_grows};

    if ids.len() > 0 {
        without_codes_grows(s, ids.drop_last());
    }
}

pub broadcast proof fn neuter_templates_grows(s: State)
    ensures
        grew(s, (#[trigger] neuter_templates(s))),
{
    broadcast use {grew_reflexive, grew_transitive, without_codes_grows};

    reveal(neuter_templates);
}

pub broadcast proof fn monomorphize_grows(s: State)
    ensures
        grew(s, (#[trigger] monomorphize(s))),
{
    broadcast use {grew_reflexive, grew_transitive, mono_from_grows, neuter_templates_grows};

    reveal(monomorphize);
}

} // verus!
