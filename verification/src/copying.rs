//! A copy of a generic function is its template at other types: the same program, part for part.

use vstd::prelude::*;
use crate::hir::{Ctor, EnumId, FnId, StructId};
use crate::instances::substitute;
use crate::model;
use crate::mono::{
    mono_arm, mono_arms, mono_callee, mono_copy, mono_ctor, mono_enum, mono_expr, mono_exprs,
    mono_locals, mono_maybe, mono_pat, mono_pats, mono_stmt, mono_stmts, mono_struct, Given,
};
use crate::checker::failed;
use crate::state::{FnInstance, State};

verus! {

/// A type became what substitution makes of it, in some state.
pub open spec fn retyped(g: Given, a: model::Ty, b: model::Ty) -> bool {
    exists|m: State| (#[trigger] substitute(m, a, g.args, g.at)).1 == b
}

/// A struct became the one its type is substituted by, or stayed.
pub open spec fn restructured(g: Given, a: StructId, b: StructId) -> bool {
    a == b || retyped(g, model::Ty::Struct(a), model::Ty::Struct(b))
}

pub open spec fn reenumerated(g: Given, a: EnumId, b: EnumId) -> bool {
    a == b || retyped(g, model::Ty::Enum(a), model::Ty::Enum(b))
}

/// A function became what it is at the arguments, in some state.
pub open spec fn recalled(g: Given, a: FnId, b: FnId) -> bool {
    exists|m: State| (#[trigger] mono_callee(m, g, a)).1 == b
}

/// A constructor makes the same variant of the same type, at other arguments.
pub open spec fn reconstructed(g: Given, a: Ctor, b: Ctor) -> bool {
    match (a, b) {
        (Ctor::Struct(x), Ctor::Struct(y)) => restructured(g, x, y),
        (Ctor::Variant(x, i), Ctor::Variant(y, j)) => reenumerated(g, x, y) && i == j,
        _ => false,
    }
}

pub open spec fn pat_copied(g: Given, a: model::Pat, b: model::Pat) -> bool
    decreases a,
{
    &&& a.span == b.span
    &&& match (a.kind, b.kind) {
        (
            model::PatKind::Variant { enum_id, variant, args },
            model::PatKind::Variant { enum_id: other, variant: place, args: list },
        ) => reenumerated(g, enum_id, other) && variant == place && args.len() == list.len()
            && forall|k: int|
            0 <= k < args.len() ==> pat_copied(g, #[trigger] args[k], list[k]),
        (
            model::PatKind::Struct { strukt, args },
            model::PatKind::Struct { strukt: other, args: list },
        ) => restructured(g, strukt, other) && args.len() == list.len() && forall|k: int|
            0 <= k < args.len() ==> pat_copied(g, #[trigger] args[k], list[k]),
        (model::PatKind::Or(args), model::PatKind::Or(list)) => args.len() == list.len()
            && forall|k: int| 0 <= k < args.len() ==> pat_copied(g, #[trigger] args[k], list[k]),
        _ => a.kind == b.kind && !(a.kind is Variant || a.kind is Struct || a.kind is Or),
    }
}

pub open spec fn maybe_copied(
    g: Given,
    a: Option<Box<model::Expr>>,
    b: Option<Box<model::Expr>>,
) -> bool
    decreases a, 5nat,
{
    match (a, b) {
        (Some(x), Some(y)) => copied(g, *x, *y),
        (None, None) => true,
        _ => false,
    }
}

pub open spec fn arm_copied(g: Given, a: model::Arm, b: model::Arm) -> bool
    decreases a, 5nat,
{
    &&& a.span == b.span
    &&& pat_copied(g, a.pat, b.pat)
    &&& match (a.guard, b.guard) {
        (Some(x), Some(y)) => copied(g, x, y),
        (None, None) => true,
        _ => false,
    }
    &&& copied(g, a.body, b.body)
}

pub open spec fn stmt_copied(g: Given, a: model::Stmt, b: model::Stmt) -> bool
    decreases a, 5nat,
{
    &&& a.span == b.span
    &&& match (a.kind, b.kind) {
        (
            model::StmtKind::Let { local, value },
            model::StmtKind::Let { local: other, value: v },
        ) => local == other && copied(g, value, v),
        (
            model::StmtKind::Assign { place, value },
            model::StmtKind::Assign { place: p, value: v },
        ) => copied(g, place, p) && copied(g, value, v),
        (
            model::StmtKind::After { task, reply },
            model::StmtKind::After { task: t, reply: other },
        ) => copied(g, task, t) && reply == other,
        (model::StmtKind::Expr(x), model::StmtKind::Expr(y)) => copied(g, x, y),
        _ => false,
    }
}

/// `b` is `a` at the arguments: what it computes with, where it stands and what it is made of are
/// the same, part for part, and its type is the type of `a` with the arguments put in.
pub open spec fn copied(g: Given, a: model::Expr, b: model::Expr) -> bool
    decreases a, 4nat,
{
    &&& a.span == b.span
    &&& retyped(g, a.ty, b.ty)
    &&& match (a.kind, b.kind) {
        (
            model::ExprKind::Field { base, index },
            model::ExprKind::Field { base: y, index: other },
        ) => index == other && copied(
            g,
            *base,
            *y,
        ),
        (
            model::ExprKind::Unary { expr, op },
            model::ExprKind::Unary { expr: y, op: other },
        ) => op == other && copied(
            g,
            *expr,
            *y,
        ),
        (model::ExprKind::Await { expr }, model::ExprKind::Await { expr: y }) => copied(
            g,
            *expr,
            *y,
        ),
        (model::ExprKind::Scope { body }, model::ExprKind::Scope { body: y }) => copied(
            g,
            *body,
            *y,
        ),
        (model::ExprKind::Spawn { expr }, model::ExprKind::Spawn { expr: y }) => copied(
            g,
            *expr,
            *y,
        ),
        (
            model::ExprKind::ReactorInput { reactor, index },
            model::ExprKind::ReactorInput { reactor: y, index: other },
        ) => index == other && copied(
            g,
            *reactor,
            *y,
        ),
        (
            model::ExprKind::ReactorExport { reactor, index },
            model::ExprKind::ReactorExport { reactor: y, index: other },
        ) => index == other && copied(
            g,
            *reactor,
            *y,
        ),
        (
            model::ExprKind::Try { expr, enum_id },
            model::ExprKind::Try { expr: y, enum_id: other },
        ) => enum_id == other && copied(
            g,
            *expr,
            *y,
        ),
        (model::ExprKind::Loop { body }, model::ExprKind::Loop { body: y }) => copied(
            g,
            *body,
            *y,
        ),
        (
            model::ExprKind::Binary { op, lhs, rhs },
            model::ExprKind::Binary { op: other, lhs: p, rhs: q },
        ) => op == other && copied(g, *lhs, *p) && copied(g, *rhs, *q),
        (
            model::ExprKind::ShortCircuit { and, lhs, rhs },
            model::ExprKind::ShortCircuit { and: other, lhs: p, rhs: q },
        ) => and == other && copied(g, *lhs, *p) && copied(g, *rhs, *q),
        (
            model::ExprKind::While { cond, body },
            model::ExprKind::While { cond: p, body: q },
        ) => copied(g, *cond, *p) && copied(g, *body, *q),
        (
            model::ExprKind::Call { callee, args },
            model::ExprKind::Call { callee: other, args: list },
        ) => recalled(g, callee, other) && args.len() == list.len() && forall|k: int|
            0 <= k < args.len() ==> copied(g, #[trigger] args[k], list[k]),
        (
            model::ExprKind::Builtin { builtin, args },
            model::ExprKind::Builtin { builtin: other, args: list },
        ) => builtin == other && args.len() == list.len() && forall|k: int|
            0 <= k < args.len() ==> copied(g, #[trigger] args[k], list[k]),
        (
            model::ExprKind::Construct { ctor, args },
            model::ExprKind::Construct { ctor: other, args: list },
        ) => reconstructed(g, ctor, other) && args.len() == list.len() && forall|k: int|
            0 <= k < args.len() ==> copied(g, #[trigger] args[k], list[k]),
        (
            model::ExprKind::SpawnReactor { reactor, args },
            model::ExprKind::SpawnReactor { reactor: other, args: list },
        ) => reactor == other && args.len() == list.len() && forall|k: int|
            0 <= k < args.len() ==> copied(g, #[trigger] args[k], list[k]),
        (
            model::ExprKind::Match { scrutinee, arms },
            model::ExprKind::Match { scrutinee: y, arms: list },
        ) => copied(g, *scrutinee, *y) && arms.len() == list.len() && forall|k: int|
            0 <= k < arms.len() ==> arm_copied(g, #[trigger] arms[k], list[k]),
        (
            model::ExprKind::If { cond, then, els },
            model::ExprKind::If { cond: c, then: t, els: x },
        ) => copied(g, *cond, *c) && copied(g, *then, *t) && maybe_copied(g, els, x),
        (
            model::ExprKind::Block { stmts, tail },
            model::ExprKind::Block { stmts: list, tail: t },
        ) => maybe_copied(g, tail, t) && stmts.len() == list.len() && forall|k: int|
            0 <= k < stmts.len() ==> stmt_copied(g, #[trigger] stmts[k], list[k]),
        (model::ExprKind::Return { value }, model::ExprKind::Return { value: v }) => maybe_copied(
            g,
            value,
            v,
        ),
        (model::ExprKind::Break { value }, model::ExprKind::Break { value: v }) => maybe_copied(
            g,
            value,
            v,
        ),
        _ => a.kind == b.kind && whole(a),
    }
}

/// An expression without parts.
pub open spec fn whole(e: model::Expr) -> bool {
    e.kind is Unit || e.kind is Int || e.kind is Float || e.kind is Str || e.kind is Bool
        || e.kind is Local || e.kind is Continue || e.kind is Error
}

proof fn struct_is_copied(s: State, g: Given, id: StructId)
    ensures
        restructured(g, id, mono_struct(s, g, id).1),
{
    reveal(mono_struct);
    let r = substitute(s, model::Ty::Struct(id), g.args, g.at);
}

proof fn enum_is_copied(s: State, g: Given, id: EnumId)
    ensures
        reenumerated(g, id, mono_enum(s, g, id).1),
{
    reveal(mono_enum);
    let r = substitute(s, model::Ty::Enum(id), g.args, g.at);
}

proof fn pattern_is_copied(s: State, g: Given, p: model::Pat)
    ensures
        pat_copied(g, p, mono_pat(s, g, p).1),
    decreases p, 1nat,
{
    match p.kind {
        model::PatKind::Variant { enum_id, variant, args } => {
            enum_is_copied(s, g, enum_id);
            patterns_are_copied(mono_enum(s, g, enum_id).0, g, args);
        },
        model::PatKind::Struct { strukt, args } => {
            struct_is_copied(s, g, strukt);
            patterns_are_copied(mono_struct(s, g, strukt).0, g, args);
        },
        model::PatKind::Or(alts) => patterns_are_copied(s, g, alts),
        _ => {},
    }
}

proof fn patterns_are_copied(s: State, g: Given, list: Seq<model::Pat>)
    ensures
        mono_pats(s, g, list).1.len() == list.len(),
        forall|k: int|
            0 <= k < list.len() ==> pat_copied(g, #[trigger] list[k], mono_pats(s, g, list).1[k]),
    decreases list, 2nat,
{
    if list.len() > 0 {
        let init = list.drop_last();
        let front = mono_pats(s, g, init);
        let all = mono_pats(s, g, list).1;
        patterns_are_copied(s, g, init);
        assert(decreases_to!(list => list.last()));
        pattern_is_copied(front.0, g, list.last());
        assert forall|k: int| 0 <= k < list.len() implies pat_copied(
            g,
            #[trigger] list[k],
            all[k],
        ) by {
            if k < init.len() {
                assert(pat_copied(g, init[k], front.1[k]));
            }
        }
    }
}

proof fn exprs_are_copied(s: State, g: Given, list: Seq<model::Expr>)
    ensures
        mono_exprs(s, g, list).1.len() == list.len(),
        forall|k: int|
            0 <= k < list.len() ==> copied(g, #[trigger] list[k], mono_exprs(s, g, list).1[k]),
    decreases list, 5nat,
{
    if list.len() > 0 {
        let init = list.drop_last();
        let front = mono_exprs(s, g, init);
        let all = mono_exprs(s, g, list).1;
        exprs_are_copied(s, g, init);
        assert(decreases_to!(list => list.last()));
        copies_are_their_templates(front.0, g, list.last());
        assert forall|k: int| 0 <= k < list.len() implies copied(
            g,
            #[trigger] list[k],
            all[k],
        ) by {
            if k < init.len() {
                assert(copied(g, init[k], front.1[k]));
            }
        }
    }
}

proof fn arms_are_copied(s: State, g: Given, list: Seq<model::Arm>)
    ensures
        mono_arms(s, g, list).1.len() == list.len(),
        forall|k: int|
            0 <= k < list.len() ==> arm_copied(g, #[trigger] list[k], mono_arms(s, g, list).1[k]),
    decreases list, 5nat,
{
    if list.len() > 0 {
        let init = list.drop_last();
        let front = mono_arms(s, g, init);
        let all = mono_arms(s, g, list).1;
        arms_are_copied(s, g, init);
        assert(decreases_to!(list => list.last()));
        arm_is_copied(front.0, g, list.last());
        assert forall|k: int| 0 <= k < list.len() implies arm_copied(
            g,
            #[trigger] list[k],
            all[k],
        ) by {
            if k < init.len() {
                assert(arm_copied(g, init[k], front.1[k]));
            }
        }
    }
}

proof fn stmts_are_copied(s: State, g: Given, list: Seq<model::Stmt>)
    ensures
        mono_stmts(s, g, list).1.len() == list.len(),
        forall|k: int|
            0 <= k < list.len() ==> stmt_copied(g, #[trigger] list[k], mono_stmts(s, g, list).1[k]),
    decreases list, 5nat,
{
    if list.len() > 0 {
        let init = list.drop_last();
        let front = mono_stmts(s, g, init);
        let all = mono_stmts(s, g, list).1;
        stmts_are_copied(s, g, init);
        assert(decreases_to!(list => list.last()));
        stmt_is_copied(front.0, g, list.last());
        assert forall|k: int| 0 <= k < list.len() implies stmt_copied(
            g,
            #[trigger] list[k],
            all[k],
        ) by {
            if k < init.len() {
                assert(stmt_copied(g, init[k], front.1[k]));
            }
        }
    }
}

proof fn arm_is_copied(s: State, g: Given, arm: model::Arm)
    ensures
        arm_copied(g, arm, mono_arm(s, g, arm).1),
    decreases arm, 5nat,
{
    pattern_is_copied(s, g, arm.pat);
    let p = mono_pat(s, g, arm.pat);
    let q: State = match arm.guard {
        Some(guard) => mono_expr(p.0, g, guard).0,
        None => p.0,
    };
    if arm.guard is Some {
        assert(decreases_to!(arm => arm.guard->0));
        copies_are_their_templates(p.0, g, arm.guard->0);
    }
    assert(decreases_to!(arm => arm.body));
    copies_are_their_templates(q, g, arm.body);
}

proof fn stmt_is_copied(s: State, g: Given, it: model::Stmt)
    ensures
        stmt_copied(g, it, mono_stmt(s, g, it).1),
    decreases it, 4nat,
{
    match it.kind {
        model::StmtKind::Let { local, value } => {
            assert(decreases_to!(it => value));
            copies_are_their_templates(s, g, value);
        },
        model::StmtKind::Assign { place, value } => {
            assert(decreases_to!(it => value));
            assert(decreases_to!(it => place));
            copies_are_their_templates(s, g, place);
            copies_are_their_templates(mono_expr(s, g, place).0, g, value);
        },
        model::StmtKind::After { task, reply } => {
            assert(decreases_to!(it => task));
            copies_are_their_templates(s, g, task);
        },
        model::StmtKind::Expr(e) => {
            assert(decreases_to!(it => e));
            copies_are_their_templates(s, g, e);
        },
    }
}

proof fn maybe_is_copied(s: State, g: Given, e: Option<Box<model::Expr>>)
    ensures
        maybe_copied(g, e, mono_maybe(s, g, e).1),
    decreases e, 5nat,
{
    match e {
        Some(x) => copies_are_their_templates(s, g, *x),
        None => {},
    }
}

/// A copy is its template at other types, part for part: every branch, argument, operand and
/// statement of the template stands in the copy where it stood, and nothing else does.
pub proof fn copies_are_their_templates(s: State, g: Given, e: model::Expr)
    ensures
        copied(g, e, mono_expr(s, g, e).1),
    decreases e, 3nat,
{
    let t = substitute(s, e.ty, g.args, g.at);
    let s1 = t.0;
    let b = mono_expr(s, g, e).1;
    assert(retyped(g, e.ty, b.ty));
    match e.kind {
        model::ExprKind::Field { base, .. } => copies_are_their_templates(s1, g, *base),
        model::ExprKind::Unary { expr, .. } => copies_are_their_templates(s1, g, *expr),
        model::ExprKind::Await { expr, .. } => copies_are_their_templates(s1, g, *expr),
        model::ExprKind::Scope { body, .. } => copies_are_their_templates(s1, g, *body),
        model::ExprKind::Spawn { expr, .. } => copies_are_their_templates(s1, g, *expr),
        model::ExprKind::ReactorInput { reactor, .. } => copies_are_their_templates(
            s1,
            g,
            *reactor,
        ),
        model::ExprKind::ReactorExport { reactor, .. } => copies_are_their_templates(
            s1,
            g,
            *reactor,
        ),
        model::ExprKind::Try { expr, .. } => copies_are_their_templates(s1, g, *expr),
        model::ExprKind::Loop { body, .. } => copies_are_their_templates(s1, g, *body),
        model::ExprKind::Binary { lhs, rhs, .. } => {
            copies_are_their_templates(s1, g, *lhs);
            copies_are_their_templates(mono_expr(s1, g, *lhs).0, g, *rhs);
        },
        model::ExprKind::ShortCircuit { lhs, rhs, .. } => {
            copies_are_their_templates(s1, g, *lhs);
            copies_are_their_templates(mono_expr(s1, g, *lhs).0, g, *rhs);
        },
        model::ExprKind::While { cond, body, .. } => {
            copies_are_their_templates(s1, g, *cond);
            copies_are_their_templates(mono_expr(s1, g, *cond).0, g, *body);
        },
        model::ExprKind::Call { callee, args } => {
            let c = mono_callee(s1, g, callee);
            exprs_are_copied(c.0, g, args);
            assert(recalled(g, callee, c.1));
        },
        model::ExprKind::Builtin { builtin, args } => exprs_are_copied(s1, g, args),
        model::ExprKind::Construct { ctor, args } => {
            exprs_are_copied(mono_ctor(s1, g, ctor).0, g, args);
            reveal(mono_ctor);
            match ctor {
                Ctor::Struct(id) => struct_is_copied(s1, g, id),
                Ctor::Variant(id, _) => enum_is_copied(s1, g, id),
            }
        },
        model::ExprKind::SpawnReactor { reactor, args } => exprs_are_copied(s1, g, args),
        model::ExprKind::Match { scrutinee, arms } => {
            copies_are_their_templates(s1, g, *scrutinee);
            arms_are_copied(mono_expr(s1, g, *scrutinee).0, g, arms);
        },
        model::ExprKind::If { cond, then, els } => {
            let a = mono_expr(s1, g, *cond);
            let b = mono_expr(a.0, g, *then);
            copies_are_their_templates(s1, g, *cond);
            copies_are_their_templates(a.0, g, *then);
            maybe_is_copied(b.0, g, els);
        },
        model::ExprKind::Block { stmts, tail } => {
            stmts_are_copied(s1, g, stmts);
            maybe_is_copied(mono_stmts(s1, g, stmts).0, g, tail);
        },
        model::ExprKind::Return { value } => maybe_is_copied(s1, g, value),
        model::ExprKind::Break { value } => maybe_is_copied(s1, g, value),
        _ => {},
    }
}

/// A copy that is made has its template's body at the copy's arguments, and the template keeps its
/// own.
pub proof fn made_copies_are_their_templates(s: State, id: FnId, i: FnInstance)
    requires
        i.template.0 < s.program.fns.len(),
        i.template.0 < mono_copy(s, id, i).program.fns.len(),
        id.0 < mono_copy(s, id, i).program.fns.len(),
        id != i.template,
    ensures
        ({
            let g = Given { args: i.args, at: i.at, depth: i.depth };
            let body = s.program.fns[i.template.0 as int].body;
            let t = mono_copy(s, id, i);
            &&& copied(g, body, t.program.fns[id.0 as int].body)
            &&& t.program.fns[i.template.0 as int].body == body
        }),
{
    reveal(mono_copy);
    reveal(State::with_code);
    reveal(State::with_current);
    let def = s.program.fns[i.template.0 as int];
    let g = Given { args: i.args, at: i.at, depth: i.depth };
    let s1 = s.with_current(i.module).with_code(i.template, seq![], failed(i.at));
    let l = mono_locals(s1, g, def.locals);
    copies_are_their_templates(l.0, g, def.body);
}

/// A call of a function that is neither generic nor a trait's stays a call of it.
pub proof fn ordinary_calls_stay(s: State, g: Given, callee: FnId)
    requires
        s.stub(callee) is None,
        s.fn_base(callee) is None,
    ensures
        mono_callee(s, g, callee) == (s, callee),
{
    reveal(mono_callee);
}

/// Each local of a copy is the template's, at the arguments.
pub proof fn locals_are_copied(s: State, g: Given, list: Seq<model::LocalDef>, k: int)
    requires
        0 <= k < list.len(),
    ensures
        mono_locals(s, g, list).1.len() == list.len(),
        retyped(g, list[k].ty, mono_locals(s, g, list).1[k].ty),
        mono_locals(s, g, list).1[k] == (model::LocalDef {
            ty: mono_locals(s, g, list).1[k].ty,
            ..list[k]
        }),
    decreases list.len(),
{
    let init = list.drop_last();
    if init.len() > 0 {
        locals_are_copied(
            s,
            g,
            init,
            if k < init.len() {
                k
            } else {
                0
            },
        );
    } else {
        assert(mono_locals(s, g, init).1.len() == 0);
    }
    if k < init.len() {
        assert(init[k] == list[k]);
    } else {
        let front = mono_locals(s, g, init);
        let t = substitute(front.0, list.last().ty, g.args, g.at);
    }
}

} // verus!
