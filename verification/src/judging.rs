//! How an expression's type follows from the types of its parts, and what each part has to fit.
//!
//! The rules are said here once, of a typed expression and its direct parts. What the checker
//! gives back obeys them, at every kind of expression that is not a mistake.

use vstd::prelude::*;
use crate::ast;
use crate::binding::{
    borrowed_arguments, declare_local, declare_role, expect, no_borrowed_arguments, owned,
};
use crate::copies::{field_names, place_is_first, place_of};
use crate::evaluation::{comparison, stands_for, works_on};
use crate::evaluation::{operators_are_of_their_own_kind, unary_operators_are_of_their_own_kind};
use crate::expr::{
    check_arm, check_arms, check_each, check_expr, check_if, check_inferred, check_kind,
    check_loops, check_match, check_send, check_operand, check_stmt, check_stmts, check_tasks,
    declared_ty, let_ty, run_plan,
};
use crate::flows::only_reports;
use crate::growth::fitting::check_kind_marked;
use crate::hir::{
    Builtin, Ctor, EnumId, FnId, LocalRole, ReactorId, StructId, UnOp, ERR, OK, OPTION, RESULT,
    SOME,
};
use crate::infer::{bound_stay_bound, first_binding_wins, mentions_unbound, solve};
use crate::instances::substitute_bindings;
use crate::model;
use crate::pat::pattern;
use crate::path::{field_access, unshared};
use crate::plan::{conclude, plan_fn, plan_option, plan_result, plan_struct, plan_variant, Plan};
use crate::span::Span;
use crate::state::{builtin_variant, input_names, newest_binding_wins, Ctx, State};
use crate::steps::{
    after_of, after_synthesis, answered_effect, await_of, binary_of, check_assignable,
    else_expected, if_else_of, if_of, spawn_of, try_of, unary_of, while_of,
};
use crate::substitution::{alike, inner, side};
use crate::walk::effect_arguments;
use crate::types::{affine, affine_within, fits_itself};

verus! {

/// A type that is read through a borrow and through any number of `Shared`.
pub open spec fn seen_through(t: model::Ty) -> model::Ty {
    unshared(owned(t))
}

/// The typing rule of one expression, over its direct parts and the program's tables.
pub open spec fn judged(s: State, e: model::Expr) -> bool {
    match e.kind {
        model::ExprKind::Unit => e.ty is Unit,
        model::ExprKind::Int(_) => e.ty is I64,
        model::ExprKind::Float(_) => e.ty is F64,
        model::ExprKind::Str(_) => e.ty is Str,
        model::ExprKind::Bool(_) => e.ty is Bool,
        model::ExprKind::Unary { op, expr } => e.ty == expr.ty && if op == UnOp::Not {
            e.ty is Bool
        } else {
            e.ty is I64 || e.ty is F64
        },
        model::ExprKind::Binary { op, lhs, rhs } => works_on(op, lhs.ty) && rhs.ty.fits(lhs.ty)
            && e.ty == if comparison(stands_for(op)) {
            model::Ty::Bool
        } else {
            lhs.ty
        },
        model::ExprKind::ShortCircuit { lhs, rhs, .. } => lhs.ty.fits(model::Ty::Bool)
            && rhs.ty.fits(model::Ty::Bool) && e.ty is Bool,
        model::ExprKind::If { cond, then, els } => cond.ty.fits(model::Ty::Bool) && match els {
            Some(x) => if then.ty is Never {
                e.ty == x.ty
            } else {
                e.ty == then.ty
            },
            None => e.ty is Unit,
        },
        model::ExprKind::While { cond, .. } => cond.ty.fits(model::Ty::Bool) && e.ty is Unit,
        model::ExprKind::Await { expr } => expr.ty is Task && side(expr.ty, false) == Some(e.ty),
        model::ExprKind::Spawn { expr } => expr.ty is Task && side(expr.ty, false) == Some(
            model::Ty::Unit,
        ) && e.ty is Unit,
        model::ExprKind::Scope { body } => e.ty == body.ty,
        model::ExprKind::Try { expr, enum_id } => if enum_id == EnumId(RESULT) {
            expr.ty is Result && side(expr.ty, false) == Some(e.ty) && s.ret is Result && side(
                s.ret,
                true,
            ) == side(expr.ty, true)
        } else {
            expr.ty is Option && side(expr.ty, false) == Some(e.ty) && s.ret is Option
        },
        model::ExprKind::Match { arms, .. } => forall|k: int|
            0 <= k < arms.len() ==> (#[trigger] arms[k]).body.ty.fits(e.ty),
        _ => true,
    }
}

proof fn asked_is_given(s: State, e: ast::Expr, want: model::Ty)
    ensures
        check_expr(s, e, Some(want)).1.ty.fits(want),
{
    reveal(expect);
    check_kind_marked(s, e, Some(want));
}

/// Operators, propagation and projections follow their rules.
pub proof fn operands_are_judged(s: State, e: ast::Expr)
    requires
        match e.kind {
            ast::ExprKind::Unary { op, .. } => op == ast::UnOp::Neg || op == ast::UnOp::Not,
            ast::ExprKind::Binary { .. } => true,
            ast::ExprKind::Try(_) => true,
            _ => false,
        },
        !(check_operand(s, e).1.kind is Error),
    ensures
        judged(check_operand(s, e).0, check_operand(s, e).1),
{
    match e.kind {
        ast::ExprKind::Unary { op, expr } => {
            let x = check_expr(s, *expr, None);
            reveal(unary_of);
            unary_operators_are_of_their_own_kind(op, x.1.ty);
        },
        ast::ExprKind::Binary { op, lhs, rhs } => {
            if op == ast::BinOp::And || op == ast::BinOp::Or {
                let l = check_expr(s, *lhs, Some(model::Ty::Bool));
                asked_is_given(s, *lhs, model::Ty::Bool);
                asked_is_given(l.0, *rhs, model::Ty::Bool);
            } else {
                let l = check_expr(s, *lhs, None);
                let r = check_expr(l.0, *rhs, Some(l.1.ty));
                asked_is_given(l.0, *rhs, l.1.ty);
                reveal(binary_of);
                operators_are_of_their_own_kind(r.0, op, l.1.ty);
            }
        },
        ast::ExprKind::Try(inner) => {
            reveal(try_of);
        },
        _ => {},
    }
}

/// Choices and loops follow their rules.
pub proof fn choices_are_judged(s: State, e: ast::Expr, expected: Option<model::Ty>)
    requires
        e.kind is If || e.kind is While,
        !(check_kind(s, e, expected).1.kind is Error),
    ensures
        judged(check_kind(s, e, expected).0, check_kind(s, e, expected).1),
{
    match e.kind {
        ast::ExprKind::If { cond, then, els } => {
            asked_is_given(s, *cond, model::Ty::Bool);
            reveal(if_else_of);
            reveal(if_of);
            assert(check_kind(s, e, expected) == check_if(s, e, expected));
        },
        ast::ExprKind::While { cond, body } => {
            asked_is_given(s.open_loop(false, None), *cond, model::Ty::Bool);
            reveal(while_of);
            assert(check_kind(s, e, expected) == check_loops(s, e, expected));
        },
        _ => {},
    }
}

/// Where both branches are there, each fits what the position wants, or else what the first is.
pub proof fn branches_fit_together(s: State, e: ast::Expr, want: model::Ty)
    requires
        e.kind is If,
        e.kind->If_els is Some,
    ensures
        check_if(s, e, Some(want)).1.kind matches model::ExprKind::If { els: Some(x), .. }
            && x.ty.fits(want),
{
    let cond = *e.kind->If_cond;
    let block = e.kind->If_then;
    let c = check_expr(s, cond, Some(model::Ty::Bool));
    let t = crate::expr::check_block(c.0, block, Some(want), block.span);
    reveal(else_expected);
    reveal(if_else_of);
    asked_is_given(t.0, *e.kind->If_els->0, want);
}

/// Waiting for a task, starting one, and a scope follow their rules.
pub proof fn tasks_are_judged(s: State, e: ast::Expr, expected: Option<model::Ty>)
    requires
        e.kind is Await || e.kind is Spawn || e.kind is Scope,
        !(check_kind(s, e, expected).1.kind is Error),
    ensures
        judged(check_kind(s, e, expected).0, check_kind(s, e, expected).1),
{
    reveal(await_of);
    reveal(spawn_of);
    assert(check_kind(s, e, expected) == check_tasks(s, e, expected));
}

/// A field is the field of its name: the index is where the name stands in the declaration, and
/// the type is the type declared there.
pub proof fn fields_are_found_by_name(s: State, base: model::Expr, name: ast::Ident, span: Span)
    requires
        field_access(s, base, name, span).1.kind is Field,
    ensures
        ({
            let x = field_access(s, base, name, span).1;
            &&& seen_through(base.ty) is Struct
            &&& *x.kind->Field_base == base
            &&& {
                let fields = s.struct_fields(seen_through(base.ty)->Struct_0);
                let i = x.kind->Field_index as int;
                fields.len() <= usize::MAX ==> i < fields.len() && fields[i].name == name.name@
                    && x.ty == fields[i].ty && forall|j: int|
                    0 <= j < i ==> (#[trigger] fields[j]).name != name.name@
            }
        }),
{
    reveal(field_access);
    reveal(crate::path::handle_member);
    let id = seen_through(base.ty)->Struct_0;
    let fields = s.struct_fields(id);
    let names = field_names(fields);
    place_is_first(names, name.name@);
    if place_of(names, name.name@) is Some {
        let i = place_of(names, name.name@)->0;
        assert(names[i] == fields[i].name);
        assert forall|j: int| 0 <= j < i implies (#[trigger] fields[j]).name != name.name@ by {
            assert(names[j] == fields[j].name);
        }
    }
}

// ---------------------------------------------------------------- arguments

/// Each argument is the one its place asks for, checked against the type that place wants.
pub proof fn arguments_are_checked_in_place(
    s: State,
    wants: Seq<Option<model::Ty>>,
    order: Seq<usize>,
    args: Seq<ast::Arg>,
    span: Span,
    k: int,
)
    requires
        0 <= k < wants.len(),
    ensures
        ({
            let list = check_each(s, wants, order, args, span).1;
            &&& list.len() == wants.len()
            &&& wants[k] is Some ==> list[k].ty.fits(wants[k]->0)
            &&& k < order.len() && order[k] < args.len() ==> exists|m: State|
                list[k] == (#[trigger] check_expr(m, args[order[k] as int].value, wants[k])).1
        }),
    decreases wants.len(),
{
    let init = wants.drop_last();
    let (s1, done) = check_each(s, init, order, args, span);
    if init.len() > 0 {
        arguments_are_checked_in_place(
            s,
            init,
            order,
            args,
            span,
            if k < init.len() {
                k
            } else {
                0
            },
        );
    } else {
        assert(done.len() == 0);
    }
    if k < init.len() {
        assert(init[k] == wants[k]);
    } else {
        let at = order[k] as int;
        if wants.len() <= order.len() && at < args.len() {
            let x = check_expr(s1, args[at].value, wants[k]);
            if wants[k] is Some {
                asked_is_given(s1, args[at].value, wants[k]->0);
            }
        }
    }
}

/// A struct is built of all its fields, each of a value that fits it.
pub proof fn structs_are_built_of_their_fields(
    s: State,
    id: StructId,
    args: Seq<ast::Arg>,
    expected: Option<model::Ty>,
    span: Span,
    k: int,
)
    requires
        s.struct_params(id).len() == 0,
        0 <= k < s.struct_fields(id).len(),
    ensures
        ({
            let (s1, plan) = plan_struct(s, id, args, expected, span);
            let x = run_plan(s1, plan, args, span).1;
            x.kind is Error || (x.ty == model::Ty::Struct(id) && match x.kind {
                model::ExprKind::Construct { ctor, args: list } => ctor == Ctor::Struct(id)
                    && list.len() == s.struct_fields(id).len() && list[k].ty.fits(
                    s.struct_fields(id)[k].ty,
                ),
                _ => false,
            })
        }),
{
    reveal(plan_struct);
    reveal(conclude);
    let (s1, plan) = plan_struct(s, id, args, expected, span);
    match plan {
        Plan::Each { wants, order, .. } => {
            arguments_are_checked_in_place(s1, wants, order, args, span, k);
            assert(wants[k] == Some(s.struct_fields(id)[k].ty));
        },
        _ => {},
    }
}

/// A variant is built of all its fields, each of a value that fits it.
pub proof fn variants_are_built_of_their_fields(
    s: State,
    id: EnumId,
    index: usize,
    args: Seq<ast::Arg>,
    expected: Option<model::Ty>,
    span: Span,
    k: int,
)
    requires
        s.enum_params(id).len() == 0,
        0 <= k < s.variant_fields(id, index as int).len(),
    ensures
        ({
            let (s1, plan) = plan_variant(s, id, index, args, expected, span);
            let x = run_plan(s1, plan, args, span).1;
            x.kind is Error || (x.ty == model::Ty::Enum(id) && match x.kind {
                model::ExprKind::Construct { ctor, args: list } => ctor == Ctor::Variant(id, index)
                    && list.len() == s.variant_fields(id, index as int).len() && list[k].ty.fits(
                    s.variant_fields(id, index as int)[k].ty,
                ),
                _ => false,
            })
        }),
{
    reveal(plan_variant);
    reveal(conclude);
    let (s1, plan) = plan_variant(s, id, index, args, expected, span);
    match plan {
        Plan::Each { wants, order, .. } => {
            arguments_are_checked_in_place(s1, wants, order, args, span, k);
            assert(wants[k] == Some(s.variant_fields(id, index as int)[k].ty));
        },
        _ => {},
    }
}

/// A call hands each parameter a value that fits it, and is of the type the function returns, or
/// of a task of it.
pub proof fn calls_hand_parameters_what_fits(
    s: State,
    id: FnId,
    display: Seq<char>,
    args: Seq<ast::Arg>,
    expected: Option<model::Ty>,
    span: Span,
    k: int,
)
    requires
        s.fn_type_params(id).len() == 0,
        0 <= k < s.signature(id).0.len(),
    ensures
        ({
            let (s1, plan) = plan_fn(s, id, display, None, args, expected, span);
            let x = run_plan(s1, plan, args, span).1;
            x.kind is Error || ((x.ty == s.signature(id).1 || side(x.ty, false) == Some(
                s.signature(id).1,
            ) && x.ty is Task) && match x.kind {
                model::ExprKind::Call { callee, args: list } => callee == id && list.len()
                    == s.signature(id).0.len() && list[k].ty.fits(s.signature(id).0[k].1),
                _ => false,
            })
        }),
{
    reveal(plan_fn);
    reveal(conclude);
    let (s1, plan) = plan_fn(s, id, display, None, args, expected, span);
    match plan {
        Plan::Each { wants, order, .. } => {
            arguments_are_checked_in_place(s1, wants, order, args, span, k);
            assert(wants[k] == Some(s.signature(id).0[k].1));
        },
        _ => {},
    }
}

/// `Some`, `Ok` and `Err` at a wanted type are of that type, and carry a value that fits the side
/// of it they stand for.
pub proof fn constructors_carry_their_side(
    s: State,
    args: Seq<ast::Arg>,
    ty: model::Ty,
    span: Span,
    is_ok: bool,
)
    ensures
        ({
            let (s1, plan) = plan_option(s, true, args, Some(ty), span);
            let x = run_plan(s1, plan, args, span).1;
            ty is Option ==> x.kind is Error || (x.ty == ty && match x.kind {
                model::ExprKind::Construct { ctor, args: list } => ctor == Ctor::Variant(
                    EnumId(OPTION),
                    SOME,
                ) && list.len() == 1 && list[0].ty.fits(side(ty, false)->0),
                _ => false,
            })
        }),
        ({
            let (s1, plan) = plan_result(s, is_ok, args, Some(ty), span);
            let x = run_plan(s1, plan, args, span).1;
            ty is Result ==> x.kind is Error || (x.ty == ty && match x.kind {
                model::ExprKind::Construct { ctor, args: list } => ctor == Ctor::Variant(
                    EnumId(RESULT),
                    if is_ok {
                        OK
                    } else {
                        ERR
                    },
                ) && list.len() == 1 && list[0].ty.fits(side(ty, !is_ok)->0),
                _ => false,
            })
        }),
{
    reveal(plan_option);
    reveal(plan_result);
    reveal(conclude);
    let a = plan_option(s, true, args, Some(ty), span);
    match a.1 {
        Plan::Each { wants, order, .. } => {
            arguments_are_checked_in_place(a.0, wants, order, args, span, 0);
        },
        _ => {},
    }
    let b = plan_result(s, is_ok, args, Some(ty), span);
    match b.1 {
        Plan::Each { wants, order, .. } => {
            arguments_are_checked_in_place(b.0, wants, order, args, span, 0);
        },
        _ => {},
    }
}

// ---------------------------------------------------------------- inferred arguments

/// An inferred argument fits its parameter's type at what was settled by then, with nothing in that
/// type left open; and what was settled by then stays settled.
pub proof fn inferred_arguments_fit(
    s: State,
    types: Seq<model::Ty>,
    order: Seq<usize>,
    args: Seq<ast::Arg>,
    start: Seq<Option<model::Ty>>,
    span: Span,
    k: int,
    settled: int,
)
    requires
        0 <= k < types.len(),
        0 <= settled < start.len(),
    ensures
        ({
            let p = check_inferred(s, types, order, args, start, span);
            &&& p.args.len() == types.len()
            &&& start[settled] is Some ==> p.b.len() == start.len() && p.b[settled]
                == start[settled]
            &&& p.args[k].kind is Error || exists|m: State, b: Seq<Option<model::Ty>>|
                !mentions_unbound(m, types[k], b, m.made()) && p.args[k].ty.fits(
                    (#[trigger] substitute_bindings(m, types[k], b, span)).1,
                )
        }),
    decreases types.len(),
{
    let init = types.drop_last();
    let q = check_inferred(s, init, order, args, start, span);
    let p = check_inferred(s, types, order, args, start, span);
    if init.len() > 0 {
        inferred_arguments_fit(
            s,
            init,
            order,
            args,
            start,
            span,
            if k < init.len() {
                k
            } else {
                0
            },
            settled,
        );
    } else {
        assert(q.args.len() == 0);
    }
    let ty = types.last();
    let at = order[types.len() - 1] as int;
    if types.len() <= order.len() && at < args.len() {
        if mentions_unbound(q.s, ty, q.b, q.s.made()) {
            let (s1, x) = check_expr(q.s, args[at].value, None);
            let b1 = solve(s1, ty, x.ty, q.b, s1.made());
            reveal(after_synthesis);
            if start[settled] is Some {
                first_binding_wins(s1, ty, x.ty, q.b, s1.made(), settled);
                bound_stay_bound(s1, ty, b1, model::Ty::Error, s1.made(), settled);
            }
            if !mentions_unbound(s1, ty, b1, s1.made()) {
                let want = substitute_bindings(s1, ty, b1, span);
                reveal(expect);
            }
        } else {
            let want = substitute_bindings(q.s, ty, q.b, span);
            asked_is_given(want.0, args[at].value, want.1);
        }
    }
    if k < init.len() {
        assert(init[k] == types[k]);
        assert(p.args[k] == q.args[k]);
    }
}

/// A message fits the input it is sent to, and sending it is work that produces nothing.
pub proof fn messages_fit_their_inputs(s: State, args: Seq<ast::Arg>, span: Span)
    ensures
        check_send(s, args, span).1.kind is Error || {
            let x = check_send(s, args, span).1;
            &&& x.kind is Builtin
            &&& x.kind->Builtin_builtin == Builtin::Send
            &&& x.kind->Builtin_args.len() == 2
            &&& x.kind->Builtin_args[0].ty is Input
            &&& x.kind->Builtin_args[1].ty.fits(side(x.kind->Builtin_args[0].ty, false)->0)
            &&& x.ty is Task
            &&& side(x.ty, false) == Some(model::Ty::Unit)
        },
{
    if args.len() == 2 {
        let (s1, target) = check_expr(s, args[0].value, None);
        match target.ty {
            model::Ty::Input(message) => asked_is_given(s1, args[1].value, *message),
            _ => {},
        }
    }
}

// ---------------------------------------------------------------- arms and statements

/// An arm is checked where it stands: its pattern against the type of what is matched, its guard
/// as a condition, its body as a body.
pub proof fn arms_are_checked_in_place(
    s: State,
    arms: Seq<ast::Arm>,
    ty: model::Ty,
    expected: Option<model::Ty>,
    k: int,
)
    requires
        0 <= k < arms.len(),
    ensures
        ({
            let p = check_arms(s, arms, ty, expected);
            let arm = p.arms[k];
            &&& p.arms.len() == arms.len()
            &&& arm.span == arms[k].span
            &&& exists|m: State| arm.pat == (#[trigger] pattern(m, arms[k].pat, ty)).1
            &&& arm.guard is Some <==> arms[k].guard is Some
            &&& arm.guard is Some ==> arm.guard->0.ty.fits(model::Ty::Bool) && exists|m: State|
                arm.guard->0 == (#[trigger] check_expr(
                    m,
                    arms[k].guard->0,
                    Some(model::Ty::Bool),
                )).1
            &&& exists|m: State, want: Option<model::Ty>|
                arm.body == (#[trigger] check_expr(m, arms[k].body, want)).1
        }),
    decreases arms.len(),
{
    let init = arms.drop_last();
    let p = check_arms(s, init, ty, expected);
    if init.len() > 0 {
        arms_are_checked_in_place(
            s,
            init,
            ty,
            expected,
            if k < init.len() {
                k
            } else {
                0
            },
        );
    } else {
        assert(p.arms.len() == 0);
    }
    if k < init.len() {
        assert(init[k] == arms[k]);
    } else {
        let arm = arms.last();
        assert(arm == arms[k]);
        let (s1, got) = check_arm(p.s, arm, ty, p.result);
        let a = pattern(p.s.open_scope(), arm.pat, ty);
        let b = match arm.guard {
            Some(g) => check_expr(a.0, g, Some(model::Ty::Bool)).0,
            None => a.0,
        };
        if arm.guard is Some {
            asked_is_given(a.0, arm.guard->0, model::Ty::Bool);
        }
        let c = check_expr(b, arm.body, p.result);
        assert(got.body == c.1);
        assert(check_arms(s, arms, ty, expected).arms[k] == got);
    }
}

/// The arms of a match agree: each fits the type of the whole, or none of them comes back.
proof fn arms_agree(s: State, arms: Seq<ast::Arm>, ty: model::Ty, expected: Option<model::Ty>)
    ensures
        ({
            let p = check_arms(s, arms, ty, expected);
            forall|k: int|
                0 <= k < p.arms.len() ==> match p.result {
                    Some(t) => (#[trigger] p.arms[k]).body.ty.fits(t),
                    None => p.arms[k].body.ty is Never || p.arms[k].body.ty is Error,
                }
        }),
    decreases arms.len(),
{
    if arms.len() > 0 {
        let init = arms.drop_last();
        arms_agree(s, init, ty, expected);
        let p = check_arms(s, init, ty, expected);
        let all = check_arms(s, arms, ty, expected);
        let arm = arms.last();
        let (s1, got) = check_arm(p.s, arm, ty, p.result);
        let a = pattern(p.s.open_scope(), arm.pat, ty);
        let b = match arm.guard {
            Some(g) => check_expr(a.0, g, Some(model::Ty::Bool)).0,
            None => a.0,
        };
        if p.result is Some {
            asked_is_given(b, arm.body, p.result->0);
        }
        fits_itself(got.body.ty);
        assert forall|k: int| 0 <= k < all.arms.len() implies match all.result {
            Some(t) => (#[trigger] all.arms[k]).body.ty.fits(t),
            None => all.arms[k].body.ty is Never || all.arms[k].body.ty is Error,
        } by {
            if k < p.arms.len() {
                assert(all.arms[k] == p.arms[k]);
            } else {
                assert(all.arms[k] == got);
            }
        }
    }
}

/// A match follows its rule: every arm fits the type of the whole.
pub proof fn matches_are_judged(s: State, e: ast::Expr, expected: Option<model::Ty>)
    requires
        e.kind is Match,
        !(check_match(s, e, expected).1.kind is Error),
    ensures
        judged(check_match(s, e, expected).0, check_match(s, e, expected).1),
{
    let arms = e.kind->Match_arms@;
    let x = check_expr(s, *e.kind->Match_scrutinee, None);
    arms_agree(x.0, arms, x.1.ty, expected);
}

/// A statement is the statement that was written: it does the same with the same parts.
pub open spec fn stmt_stands(it: ast::Stmt, got: model::Stmt) -> bool {
    &&& got.span == it.span
    &&& match it.kind {
        ast::StmtKind::Let { value, .. } => got.kind is Let && exists|
            m: State,
            want: Option<model::Ty>,
        |
            got.kind->Let_value == (#[trigger] check_expr(m, value, want)).1,
        ast::StmtKind::Assign { target, value } => got.kind is Assign && (exists|m: State|
            got.kind->Assign_place == (#[trigger] check_expr(m, target, None)).1) && (exists|
            m: State,
        |
            got.kind->Assign_value == (#[trigger] check_expr(
                m,
                value,
                Some(got.kind->Assign_place.ty),
            )).1) && got.kind->Assign_value.ty.fits(got.kind->Assign_place.ty),
        ast::StmtKind::Return(value) => got.kind is Expr && got.kind->Expr_0.ty is Never
            && got.kind->Expr_0.kind is Return && match value {
            Some(v) => got.kind->Expr_0.kind->Return_value is Some && exists|
                m: State,
                want: model::Ty,
            |
                *got.kind->Expr_0.kind->Return_value->0 == (#[trigger] check_expr(
                    m,
                    v,
                    Some(want),
                )).1,
            None => got.kind->Expr_0.kind->Return_value is None,
        },
        ast::StmtKind::Expr(x) => got.kind is Expr && exists|m: State|
            got.kind->Expr_0 == (#[trigger] check_expr(m, x, None)).1,
        ast::StmtKind::After { task, .. } => got.kind is After ==> exists|m: State|
            got.kind->After_task == (#[trigger] check_expr(m, task, None)).1,
    }
}

/// Every statement of a block stands in the result, in its place and in its order.
pub proof fn statements_are_checked_in_place(s: State, list: Seq<ast::Stmt>, k: int)
    requires
        0 <= k < list.len(),
    ensures
        check_stmts(s, list).done.len() == list.len(),
        stmt_stands(list[k], check_stmts(s, list).done[k]),
    decreases list.len(),
{
    let init = list.drop_last();
    let p = check_stmts(s, init);
    if init.len() > 0 {
        statements_are_checked_in_place(
            s,
            init,
            if k < init.len() {
                k
            } else {
                0
            },
        );
    } else {
        assert(p.done.len() == 0);
    }
    if k < init.len() {
        assert(init[k] == list[k]);
    } else {
        let it = list.last();
        assert(it == list[k]);
        let (s1, kind) = check_stmt(p.s, it);
        match it.kind {
            ast::StmtKind::Let { ty, value, .. } => {
                let d = declared_ty(p.s, ty);
                let x = check_expr(d.0, value, d.1);
            },
            ast::StmtKind::Assign { target, value } => {
                let a = check_expr(p.s.with_assigning(true), target, None);
                let b = check_assignable(a.0.with_assigning(false), a.1, target.span);
                let c = check_expr(b, value, Some(a.1.ty));
                asked_is_given(b, value, a.1.ty);
            },
            ast::StmtKind::Return(value) => {
                if value is Some {
                    let x = check_expr(p.s, value->0, Some(p.s.ret));
                }
            },
            ast::StmtKind::Expr(e) => {
                let x = check_expr(p.s, e, None);
            },
            ast::StmtKind::After { task, .. } => {
                let x = check_expr(p.s.with_ctx(Ctx::Effect), task, None);
                reveal(after_of);
                reveal(answered_effect);
            },
        }
    }
}

/// A `let` binds its name from there on: looked up, the name means the new local, which has the
/// type that was written, or else the type of its value.
pub proof fn lets_bind_what_they_are_given(s: State, it: ast::Stmt)
    requires
        it.kind is Let,
        !builtin_variant(it.kind->Let_name.name@),
        ({
            let d = declared_ty(s, it.kind->Let_ty);
            let v = check_expr(d.0, it.kind->Let_value, d.1);
            &&& v.0.scopes.len() > 0
            &&& v.0.locals.len() < u32::MAX
            &&& !(let_ty(d.1, v.1.ty) is Ref)
        }),
    ensures
        ({
            let d = declared_ty(s, it.kind->Let_ty);
            let value = check_expr(d.0, it.kind->Let_value, d.1).1;
            let (s1, kind) = check_stmt(s, it);
            &&& kind is Let
            &&& s1.lookup_local(it.kind->Let_name.name@) == Some(kind->Let_local)
            &&& s1.local_ty(kind->Let_local) == match d.1 {
                Some(t) => t,
                None => if value.ty is Never {
                    model::Ty::Unit
                } else {
                    value.ty
                },
            }
        }),
{
    let d = declared_ty(s, it.kind->Let_ty);
    let v = check_expr(d.0, it.kind->Let_value, d.1);
    let name = it.kind->Let_name.name@;
    let ty = let_ty(d.1, v.1.ty);
    reveal(declare_local);
    reveal(declare_role);
    reveal(State::local_ty);
    newest_binding_wins(
        v.0,
        name,
        ty,
        it.kind->Let_mutable,
        LocalRole::Ordinary,
        it.kind->Let_name.span,
    );
    assert(check_stmt(s, it).0.locals.len() == v.0.locals.len() + 1) by {
        reveal(State::bound);
    }
    reveal(State::bound);
}

proof fn borrows_are_only_reported(
    s: State,
    args: Seq<model::Expr>,
    what: Seq<char>,
    when: Seq<char>,
)
    ensures
        only_reports(s, borrowed_arguments(s, args, what, when)),
    decreases args.len(),
{
    if args.len() > 0 {
        borrows_are_only_reported(s, args.drop_last(), what, when);
        reveal(State::push);
    }
}

/// Work that is started after a turn and answers on an input answers on the input of the name that
/// was written, with a value that fits it; work that answers nowhere produces nothing.
pub proof fn replies_go_where_they_say(
    s: State,
    task: model::Expr,
    reply: Option<ast::Ident>,
    span: Span,
)
    requires
        after_of(s, task, reply, span).1 is After,
        forall|id: ReactorId| #[trigger] s.reactor_inputs(id).len() <= usize::MAX,
    ensures
        ({
            let kind = after_of(s, task, reply, span).1;
            &&& task.ty is Task
            &&& kind->After_task == task
            &&& match (reply, kind->After_reply) {
                (None, None) => side(task.ty, false) == Some(model::Ty::Unit),
                (Some(name), Some(i)) => s.reactor is Some && {
                    let inputs = s.reactor_inputs(s.reactor->0);
                    i < inputs.len() && inputs[i as int].name == name.name@ && (side(
                        task.ty,
                        false,
                    )->0).fits(inputs[i as int].ty)
                },
                _ => false,
            }
        }),
{
    reveal(after_of);
    reveal(answered_effect);
    reveal(no_borrowed_arguments);
    reveal(State::push);
    reveal(State::input_place);
    reveal(State::reactor_inputs);
    let when = "starts once the snapshot is published"@;
    borrows_are_only_reported(s, effect_arguments(task), "after"@, when);
    let s1 = no_borrowed_arguments(s, task, "after"@, when);
    assert(only_reports(s, s1));
    if reply is Some && s.reactor is Some {
        assert(s1.reactor_inputs(s.reactor->0) == s.reactor_inputs(s.reactor->0));
        let inputs = s.reactor_inputs(s.reactor->0);
        let names = input_names(inputs);
        let name = reply->0.name@;
        assert(inputs.len() <= usize::MAX);
        place_is_first(names, name);
        if place_of(names, name) is Some {
            let i = place_of(names, name)->0;
            assert(names[i] == inputs[i].name);
        }
    }
}

// ---------------------------------------------------------------- fitting and owning

/// Types fit side by side: away from what fits everywhere, one type fits another exactly if both
/// are made the same way and each side of the one fits that side of the other.
pub proof fn types_fit_side_by_side(a: model::Ty, b: model::Ty)
    requires
        !(a is Error),
        !(b is Error),
        !(a is Never),
    ensures
        a.fits(b) <==> alike(a, b) && forall|second: bool|
            (#[trigger] side(a, second)) is Some ==> side(a, second)->0.fits(side(b, second)->0),
{
    assert(side(a, false) is Some ==> inner(a) is Some || a is Result);
    assert(side(a, true) is Some ==> a is Result);
}

/// A value that may hold another has one owner exactly if what it may hold on some side has; of the
/// other types made of types, only a task has.
pub proof fn owning_goes_by_side(p: model::Program, t: model::Ty)
    ensures
        t is Option || t is Result ==> (affine(p, t) <==> exists|second: bool|
            (#[trigger] side(t, second)) is Some && affine(p, side(t, second)->0)),
        t is Task || t is Resource ==> affine(p, t),
        t is Shared || t is Slots || t is Input || t is Signal || t is Event || t is Ref || t is I64
            || t is F64 || t is Bool || t is Str || t is Bytes || t is Unit ==> !affine(p, t),
{
    if t is Task || t is Resource {
        assert(affine_within(p, t, 0));
    }
    if t is Option || t is Result {
        let a = side(t, false)->0;
        assert forall|n: nat| affine_within(p, t, n) == (affine_within(p, a, n) || (t is Result
            && affine_within(p, side(t, true)->0, n))) by {}
        if affine(p, t) {
            let n = choose|n: nat| affine_within(p, t, n);
            if affine_within(p, a, n) {
                assert(side(t, false) is Some && affine(p, a));
            } else {
                assert(side(t, true) is Some && affine(p, side(t, true)->0));
            }
        }
        if exists|second: bool| (#[trigger] side(t, second)) is Some && affine(
            p,
            side(t, second)->0,
        ) {
            let second = choose|second: bool|
                (#[trigger] side(t, second)) is Some && affine(p, side(t, second)->0);
            let n = choose|n: nat| affine_within(p, side(t, second)->0, n);
            assert(affine_within(p, t, n));
        }
    }
}

/// An enum has one owner exactly if a field of one of its variants has.
pub proof fn enums_own_by_a_field(p: model::Program, id: EnumId)
    requires
        id.0 < p.enums.len(),
    ensures
        affine(p, model::Ty::Enum(id)) <==> exists|v: int, i: int|
            0 <= v < p.enums[id.0 as int].variants.len() && 0 <= i
                < p.enums[id.0 as int].variants[v].fields.len() && #[trigger] affine(
                p,
                p.enums[id.0 as int].variants[v].fields[i].ty,
            ),
{
    let variants = p.enums[id.0 as int].variants;
    let t = model::Ty::Enum(id);
    if affine(p, t) {
        let n = choose|n: nat| affine_within(p, t, n);
        let (v, i) = choose|v: int, i: int|
            0 <= v < variants.len() && 0 <= i < variants[v].fields.len() && affine_within(
                p,
                (#[trigger] variants[v].fields[i]).ty,
                (n - 1) as nat,
            );
        assert(affine(p, variants[v].fields[i].ty));
    }
    if exists|v: int, i: int|
        0 <= v < variants.len() && 0 <= i < variants[v].fields.len() && #[trigger] affine(
            p,
            variants[v].fields[i].ty,
        ) {
        let (v, i) = choose|v: int, i: int|
            0 <= v < variants.len() && 0 <= i < variants[v].fields.len() && #[trigger] affine(
                p,
                variants[v].fields[i].ty,
            );
        let n = choose|n: nat| affine_within(p, variants[v].fields[i].ty, n);
        assert(affine_within(p, variants[v].fields[i].ty, ((n + 1) - 1) as nat));
        assert(affine_within(p, t, n + 1));
    }
}

} // verus!
