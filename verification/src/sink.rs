//! Sink inference: which parameters consume what they are handed.
//!
//! A parameter reads unless the function's own body proves otherwise: a written `sink` asserts
//! it, and a body that consumes the parameter infers it. Modes only ever move from `Read` to
//! `Sink`, so repeated passes settle, and what they settle on is the least table that every body
//! agrees with.
//!
//! Two enforcement walks ride on the settled table. A trait's contract is declared, not inferred,
//! so an impl body that consumes a read-pinned affine parameter is an error at the impl. And
//! `spawn` and `after` start work that outlives the call that built it, so an affine argument
//! must land on a `Sink` parameter.

use vstd::prelude::*;
use vstd::string::*;
use crate::filing::{file_each, filed, report};
use crate::hir::{
    arms_of, exprs, stmts_of, Arm, Builtin, Expr, ExprKind, FnDef, FnId, LocalId, Mode, Program,
    Stmt, StmtKind, Vocabulary,
};
use crate::model;
use crate::moves::{builtin_mode_at, builtin_mode_of, mode_at, mode_of, rows};
use crate::span::{Diagnostic, Report, Span};
use crate::types::{affine, ty_name, Affinity};

verus! {

// ---------------------------------------------------------------- what a body takes

/// A place where a name is used as a value that something takes.
pub struct Take {
    pub id: LocalId,
    pub span: Span,
}

/// What consuming the value of an expression takes, in evaluation order. The dispatch is that of
/// the ownership walk: what inference calls consumption is exactly what enforcement treats as a
/// move.
pub open spec fn takes(
    modes: Seq<Seq<Mode>>,
    v: model::Vocabulary,
    e: model::Expr,
) -> Seq<Take>
    decreases e, 1nat,
{
    match e.kind {
        model::ExprKind::Local(id) => seq![Take { id, span: e.span }],
        model::ExprKind::Field { base, .. } => reads(modes, v, *base),
        _ => inside(modes, v, e),
    }
}

/// What reading an expression takes: nothing from the name it is rooted at.
pub open spec fn reads(
    modes: Seq<Seq<Mode>>,
    v: model::Vocabulary,
    e: model::Expr,
) -> Seq<Take>
    decreases e, 1nat,
{
    match e.kind {
        model::ExprKind::Local(id) => seq![],
        model::ExprKind::Field { base, .. } => reads(modes, v, *base),
        _ => inside(modes, v, e),
    }
}

/// What an argument position of the given mode takes.
pub open spec fn argument(
    modes: Seq<Seq<Mode>>,
    v: model::Vocabulary,
    mode: Mode,
    e: model::Expr,
) -> Seq<Take>
    decreases e, 2nat,
{
    match mode {
        Mode::Sink => takes(modes, v, e),
        _ => reads(modes, v, e),
    }
}

pub open spec fn inside(
    modes: Seq<Seq<Mode>>,
    v: model::Vocabulary,
    e: model::Expr,
) -> Seq<Take>
    decreases e, 0nat,
{
    match e.kind {
        model::ExprKind::Field { base, .. } => reads(modes, v, *base),
        model::ExprKind::Unary { expr, .. } => takes(modes, v, *expr),
        model::ExprKind::Binary { lhs, rhs, .. } => takes(modes, v, *lhs) + takes(
            modes,
            v,
            *rhs,
        ),
        model::ExprKind::ShortCircuit { lhs, rhs, .. } => takes(modes, v, *lhs) + takes(
            modes,
            v,
            *rhs,
        ),
        model::ExprKind::Call { callee, args } => call_takes(modes, v, callee, args),
        model::ExprKind::Builtin { builtin, args } => builtin_takes(modes, v, builtin, args),
        model::ExprKind::Construct { args, .. } => all_take(modes, v, args),
        model::ExprKind::SpawnReactor { args, .. } => all_take(modes, v, args),
        model::ExprKind::Match { scrutinee, arms } => takes(modes, v, *scrutinee) + arms_take(
            modes,
            v,
            arms,
        ),
        model::ExprKind::If { cond, then, els } => takes(modes, v, *cond) + takes(
            modes,
            v,
            *then,
        ) + maybe_takes(modes, v, els),
        model::ExprKind::Block { stmts, tail } => stmts_take(modes, v, stmts) + maybe_takes(
            modes,
            v,
            tail,
        ),
        model::ExprKind::Await { expr } => takes(modes, v, *expr),
        model::ExprKind::Spawn { expr } => takes(modes, v, *expr),
        model::ExprKind::Try { expr, .. } => takes(modes, v, *expr),
        model::ExprKind::Scope { body } => takes(modes, v, *body),
        model::ExprKind::ReactorInput { reactor, .. } => reads(modes, v, *reactor),
        model::ExprKind::ReactorExport { reactor, .. } => reads(modes, v, *reactor),
        model::ExprKind::Return { value } => maybe_takes(modes, v, value),
        model::ExprKind::Break { value } => maybe_takes(modes, v, value),
        model::ExprKind::While { cond, body } => takes(modes, v, *cond) + takes(modes, v, *body),
        model::ExprKind::Loop { body } => takes(modes, v, *body),
        _ => seq![],
    }
}

pub open spec fn maybe_takes(
    modes: Seq<Seq<Mode>>,
    v: model::Vocabulary,
    e: Option<Box<model::Expr>>,
) -> Seq<Take>
    decreases e, 3nat,
{
    match e {
        Some(e) => takes(modes, v, *e),
        None => seq![],
    }
}

pub open spec fn call_takes(
    modes: Seq<Seq<Mode>>,
    v: model::Vocabulary,
    callee: FnId,
    args: Seq<model::Expr>,
) -> Seq<Take>
    decreases args, 3nat,
{
    if args.len() == 0 {
        seq![]
    } else {
        call_takes(modes, v, callee, args.drop_last()) + argument(
            modes,
            v,
            mode_at(modes, callee, args.len() - 1),
            args.last(),
        )
    }
}

pub open spec fn builtin_takes(
    modes: Seq<Seq<Mode>>,
    v: model::Vocabulary,
    builtin: Builtin,
    args: Seq<model::Expr>,
) -> Seq<Take>
    decreases args, 3nat,
{
    if args.len() == 0 {
        seq![]
    } else {
        builtin_takes(modes, v, builtin, args.drop_last()) + argument(
            modes,
            v,
            builtin_mode_at(v, builtin, args.len() - 1),
            args.last(),
        )
    }
}

pub open spec fn all_take(
    modes: Seq<Seq<Mode>>,
    v: model::Vocabulary,
    args: Seq<model::Expr>,
) -> Seq<Take>
    decreases args, 3nat,
{
    if args.len() == 0 {
        seq![]
    } else {
        all_take(modes, v, args.drop_last()) + takes(modes, v, args.last())
    }
}

pub open spec fn arms_take(
    modes: Seq<Seq<Mode>>,
    v: model::Vocabulary,
    arms: Seq<model::Arm>,
) -> Seq<Take>
    decreases arms, 3nat,
{
    if arms.len() == 0 {
        seq![]
    } else {
        arms_take(modes, v, arms.drop_last()) + match arms.last().guard {
            Some(guard) => takes(modes, v, guard),
            None => seq![],
        } + takes(modes, v, arms.last().body)
    }
}

pub open spec fn stmts_take(
    modes: Seq<Seq<Mode>>,
    v: model::Vocabulary,
    stmts: Seq<model::Stmt>,
) -> Seq<Take>
    decreases stmts, 3nat,
{
    if stmts.len() == 0 {
        seq![]
    } else {
        stmts_take(modes, v, stmts.drop_last()) + stmt_takes(modes, v, stmts.last())
    }
}

pub open spec fn stmt_takes(
    modes: Seq<Seq<Mode>>,
    v: model::Vocabulary,
    it: model::Stmt,
) -> Seq<Take>
    decreases it, 3nat,
{
    match it.kind {
        model::StmtKind::Let { value, .. } => takes(modes, v, value),
        model::StmtKind::Assign { place, value } => takes(modes, v, value) + reads(
            modes,
            v,
            place,
        ),
        model::StmtKind::After { task, .. } => takes(modes, v, task),
        model::StmtKind::Expr(e) => takes(modes, v, e),
    }
}

/// Where a name is first taken.
pub open spec fn first_take(uses: Seq<Take>, i: int) -> Option<Span>
    decreases uses.len(),
{
    if uses.len() == 0 {
        None
    } else if uses[0].id.0 == i {
        Some(uses[0].span)
    } else {
        first_take(uses.skip(1), i)
    }
}

/// The slots of `c`, each still empty one filled with where its name is first taken.
pub open spec fn noted(c: Seq<Option<Span>>, uses: Seq<Take>) -> Seq<Option<Span>> {
    Seq::new(
        c.len(),
        |i: int|
            if c[i] is None {
                first_take(uses, i)
            } else {
                c[i]
            },
    )
}

proof fn first_take_appends(a: Seq<Take>, b: Seq<Take>, i: int)
    ensures
        first_take(a + b, i) == if first_take(a, i) is None {
            first_take(b, i)
        } else {
            first_take(a, i)
        },
    decreases a.len(),
{
    if a.len() == 0 {
        assert(a + b =~= b);
    } else {
        assert((a + b).skip(1) =~= a.skip(1) + b);
        first_take_appends(a.skip(1), b, i);
    }
}

proof fn noted_appends(c: Seq<Option<Span>>, a: Seq<Take>, b: Seq<Take>)
    ensures
        noted(noted(c, a), b) == noted(c, a + b),
{
    assert forall|i: int| 0 <= i < c.len() implies #[trigger] noted(noted(c, a), b)[i] == noted(
        c,
        a + b,
    )[i] by {
        first_take_appends(a, b, i);
    }
    assert(noted(noted(c, a), b) =~= noted(c, a + b));
}

proof fn noted_nothing(c: Seq<Option<Span>>)
    ensures
        noted(c, seq![]) == c,
{
    assert(noted(c, seq![]) =~= c);
}

// ---------------------------------------------------------------- the consumption walk

/// An expression whose value is consumed.
fn value(
    expr: &Expr,
    param_modes: &Vec<Vec<Mode>>,
    vocabulary: &Vocabulary,
    consumed: &mut Vec<Option<Span>>,
)
    ensures
        final(consumed)@ == noted(
            old(consumed)@,
            takes(rows(param_modes@), vocabulary@, expr@),
        ),
    decreases expr, 1nat,
{
    proof {
        expr.look();
    }
    match &expr.kind {
        ExprKind::Local(id) => {
            let index: usize = id.index();
            let ghost uses = takes(rows(param_modes@), vocabulary@, expr@);
            proof {
                assert(uses =~= seq![Take { id: *id, span: expr.span }]);
                assert forall|i: int| #[trigger]
                    first_take(uses, i) == if id.0 == i {
                        Some(expr.span)
                    } else {
                        None
                    } by {
                    assert(first_take(uses.skip(1), i) is None);
                }
            }
            if index < consumed.len() && consumed[index].is_none() {
                consumed.set(index, Some(expr.span));
            }
            assert(consumed@ =~= noted(old(consumed)@, uses));
        },
        ExprKind::Field { base, .. } => place(base, param_modes, vocabulary, consumed),
        _ => parts(expr, param_modes, vocabulary, consumed),
    }
}

/// An expression only part of which is read: nothing is taken from a parameter it roots.
fn place(
    expr: &Expr,
    param_modes: &Vec<Vec<Mode>>,
    vocabulary: &Vocabulary,
    consumed: &mut Vec<Option<Span>>,
)
    ensures
        final(consumed)@ == noted(
            old(consumed)@,
            reads(rows(param_modes@), vocabulary@, expr@),
        ),
    decreases expr, 1nat,
{
    proof {
        expr.look();
    }
    match &expr.kind {
        ExprKind::Local(_) => {
            proof {
                noted_nothing(consumed@);
            }
        },
        ExprKind::Field { base, .. } => place(base, param_modes, vocabulary, consumed),
        _ => parts(expr, param_modes, vocabulary, consumed),
    }
}

fn one_argument(
    expr: &Expr,
    mode: Mode,
    param_modes: &Vec<Vec<Mode>>,
    vocabulary: &Vocabulary,
    consumed: &mut Vec<Option<Span>>,
)
    ensures
        final(consumed)@ == noted(
            old(consumed)@,
            argument(rows(param_modes@), vocabulary@, mode, expr@),
        ),
    decreases expr, 2nat,
{
    match mode {
        Mode::Sink => value(expr, param_modes, vocabulary, consumed),
        Mode::Read | Mode::Mut => place(expr, param_modes, vocabulary, consumed),
    }
}

fn call_args(
    callee: FnId,
    args: &Vec<Expr>,
    param_modes: &Vec<Vec<Mode>>,
    vocabulary: &Vocabulary,
    consumed: &mut Vec<Option<Span>>,
)
    ensures
        final(consumed)@ == noted(
            old(consumed)@,
            call_takes(rows(param_modes@), vocabulary@, callee, exprs(args@)),
        ),
    decreases args, 3nat,
{
    let ghost all = exprs(args@);
    let ghost (m, v) = (rows(param_modes@), vocabulary@);
    proof {
        noted_nothing(consumed@);
    }
    for i in 0..args.len()
        invariant
            all == exprs(args@),
            m == rows(param_modes@),
            v == vocabulary@,
            consumed@ == noted(old(consumed)@, call_takes(m, v, callee, all.take(i as int))),
    {
        let mode = mode_of(param_modes, callee, i);
        one_argument(&args[i], mode, param_modes, vocabulary, consumed);
        proof {
            noted_appends(
                old(consumed)@,
                call_takes(m, v, callee, all.take(i as int)),
                argument(m, v, mode, args[i as int]@),
            );
            assert(all.take(i + 1).drop_last() =~= all.take(i as int));
        }
    }
    assert(all.take(args.len() as int) =~= all);
}

fn builtin_args(
    builtin: Builtin,
    args: &Vec<Expr>,
    param_modes: &Vec<Vec<Mode>>,
    vocabulary: &Vocabulary,
    consumed: &mut Vec<Option<Span>>,
)
    ensures
        final(consumed)@ == noted(
            old(consumed)@,
            builtin_takes(rows(param_modes@), vocabulary@, builtin, exprs(args@)),
        ),
    decreases args, 3nat,
{
    let ghost all = exprs(args@);
    let ghost (m, v) = (rows(param_modes@), vocabulary@);
    proof {
        noted_nothing(consumed@);
    }
    for i in 0..args.len()
        invariant
            all == exprs(args@),
            m == rows(param_modes@),
            v == vocabulary@,
            consumed@ == noted(
                old(consumed)@,
                builtin_takes(m, v, builtin, all.take(i as int)),
            ),
    {
        let mode = builtin_mode_of(vocabulary, builtin, i);
        one_argument(&args[i], mode, param_modes, vocabulary, consumed);
        proof {
            noted_appends(
                old(consumed)@,
                builtin_takes(m, v, builtin, all.take(i as int)),
                argument(m, v, mode, args[i as int]@),
            );
            assert(all.take(i + 1).drop_last() =~= all.take(i as int));
        }
    }
    assert(all.take(args.len() as int) =~= all);
}

fn values(
    args: &Vec<Expr>,
    param_modes: &Vec<Vec<Mode>>,
    vocabulary: &Vocabulary,
    consumed: &mut Vec<Option<Span>>,
)
    ensures
        final(consumed)@ == noted(
            old(consumed)@,
            all_take(rows(param_modes@), vocabulary@, exprs(args@)),
        ),
    decreases args, 3nat,
{
    let ghost all = exprs(args@);
    let ghost (m, v) = (rows(param_modes@), vocabulary@);
    proof {
        noted_nothing(consumed@);
    }
    for i in 0..args.len()
        invariant
            all == exprs(args@),
            m == rows(param_modes@),
            v == vocabulary@,
            consumed@ == noted(old(consumed)@, all_take(m, v, all.take(i as int))),
    {
        value(&args[i], param_modes, vocabulary, consumed);
        proof {
            noted_appends(
                old(consumed)@,
                all_take(m, v, all.take(i as int)),
                takes(m, v, args[i as int]@),
            );
            assert(all.take(i + 1).drop_last() =~= all.take(i as int));
        }
    }
    assert(all.take(args.len() as int) =~= all);
}

fn arms(
    arms: &Vec<Arm>,
    param_modes: &Vec<Vec<Mode>>,
    vocabulary: &Vocabulary,
    consumed: &mut Vec<Option<Span>>,
)
    ensures
        final(consumed)@ == noted(
            old(consumed)@,
            arms_take(rows(param_modes@), vocabulary@, arms_of(arms@)),
        ),
    decreases arms, 3nat,
{
    let ghost all = arms_of(arms@);
    let ghost (m, v) = (rows(param_modes@), vocabulary@);
    proof {
        noted_nothing(consumed@);
    }
    for i in 0..arms.len()
        invariant
            all == arms_of(arms@),
            m == rows(param_modes@),
            v == vocabulary@,
            consumed@ == noted(old(consumed)@, arms_take(m, v, all.take(i as int))),
    {
        let ghost so_far = arms_take(m, v, all.take(i as int));
        let arm = &arms[i];
        let ghost guarded = match &arm.guard {
            Some(guard) => takes(m, v, guard@),
            None => seq![],
        };
        if let Some(guard) = &arm.guard {
            value(guard, param_modes, vocabulary, consumed);
        } else {
            proof {
                noted_nothing(consumed@);
            }
        }
        proof {
            noted_appends(old(consumed)@, so_far, guarded);
        }
        value(&arm.body, param_modes, vocabulary, consumed);
        proof {
            noted_appends(old(consumed)@, so_far + guarded, takes(m, v, arm.body@));
            assert(all.take(i + 1).drop_last() =~= all.take(i as int));
            assert(all.take(i + 1).last() == arm@);
        }
    }
    assert(all.take(arms.len() as int) =~= all);
}

fn stmts(
    stmts: &Vec<Stmt>,
    param_modes: &Vec<Vec<Mode>>,
    vocabulary: &Vocabulary,
    consumed: &mut Vec<Option<Span>>,
)
    ensures
        final(consumed)@ == noted(
            old(consumed)@,
            stmts_take(rows(param_modes@), vocabulary@, stmts_of(stmts@)),
        ),
    decreases stmts, 3nat,
{
    let ghost all = stmts_of(stmts@);
    let ghost (m, v) = (rows(param_modes@), vocabulary@);
    proof {
        noted_nothing(consumed@);
    }
    for i in 0..stmts.len()
        invariant
            all == stmts_of(stmts@),
            m == rows(param_modes@),
            v == vocabulary@,
            consumed@ == noted(old(consumed)@, stmts_take(m, v, all.take(i as int))),
    {
        let ghost so_far = stmts_take(m, v, all.take(i as int));
        let it = &stmts[i];
        let ghost before = consumed@;
        match &it.kind {
            StmtKind::Let { value: rhs, .. } => value(rhs, param_modes, vocabulary, consumed),
            StmtKind::Assign { place: target, value: rhs } => {
                value(rhs, param_modes, vocabulary, consumed);
                place(target, param_modes, vocabulary, consumed);
                proof {
                    noted_appends(before, takes(m, v, rhs@), reads(m, v, target@));
                }
            },
            StmtKind::After { task, .. } => value(task, param_modes, vocabulary, consumed),
            StmtKind::Expr(expr) => value(expr, param_modes, vocabulary, consumed),
        }
        proof {
            noted_appends(old(consumed)@, so_far, stmt_takes(m, v, it@));
            assert(all.take(i + 1).drop_last() =~= all.take(i as int));
            assert(all.take(i + 1).last() == it@);
        }
    }
    assert(all.take(stmts.len() as int) =~= all);
}

fn maybe(
    expr: &Option<Box<Expr>>,
    param_modes: &Vec<Vec<Mode>>,
    vocabulary: &Vocabulary,
    consumed: &mut Vec<Option<Span>>,
)
    ensures
        final(consumed)@ == noted(
            old(consumed)@,
            maybe_takes(rows(param_modes@), vocabulary@, crate::hir::boxed(*expr)),
        ),
    decreases expr, 3nat,
{
    if let Some(expr) = expr {
        value(expr, param_modes, vocabulary, consumed);
    } else {
        proof {
            noted_nothing(consumed@);
        }
    }
}

fn parts(
    expr: &Expr,
    param_modes: &Vec<Vec<Mode>>,
    vocabulary: &Vocabulary,
    consumed: &mut Vec<Option<Span>>,
)
    ensures
        final(consumed)@ == noted(
            old(consumed)@,
            inside(rows(param_modes@), vocabulary@, expr@),
        ),
    decreases expr, 0nat,
{
    let ghost (m, v) = (rows(param_modes@), vocabulary@);
    let ghost before = consumed@;
    proof {
        expr.look();
    }
    match &expr.kind {
        ExprKind::Unit
        | ExprKind::Int(_)
        | ExprKind::Float(_)
        | ExprKind::Str(_)
        | ExprKind::Bool(_)
        | ExprKind::Local(_)
        | ExprKind::Continue
        | ExprKind::Error => {
            proof {
                noted_nothing(consumed@);
            }
        },
        ExprKind::Field { base, .. } => place(base, param_modes, vocabulary, consumed),
        ExprKind::Unary { expr, .. } => value(expr, param_modes, vocabulary, consumed),
        ExprKind::Binary { lhs, rhs, .. } => {
            value(lhs, param_modes, vocabulary, consumed);
            value(rhs, param_modes, vocabulary, consumed);
            proof {
                noted_appends(before, takes(m, v, lhs@), takes(m, v, rhs@));
            }
        },
        ExprKind::ShortCircuit { lhs, rhs, .. } => {
            value(lhs, param_modes, vocabulary, consumed);
            value(rhs, param_modes, vocabulary, consumed);
            proof {
                noted_appends(before, takes(m, v, lhs@), takes(m, v, rhs@));
            }
        },
        ExprKind::Call { callee, args } => call_args(
            *callee,
            args,
            param_modes,
            vocabulary,
            consumed,
        ),
        ExprKind::Builtin { builtin, args } => builtin_args(
            *builtin,
            args,
            param_modes,
            vocabulary,
            consumed,
        ),
        ExprKind::Construct { args, .. } => values(args, param_modes, vocabulary, consumed),
        ExprKind::SpawnReactor { args, .. } => values(args, param_modes, vocabulary, consumed),
        // A `match` on an owned value takes it apart, which is a consumption of the scrutinee.
        ExprKind::Match { scrutinee, arms: list } => {
            value(scrutinee, param_modes, vocabulary, consumed);
            arms(list, param_modes, vocabulary, consumed);
            proof {
                noted_appends(before, takes(m, v, scrutinee@), arms_take(m, v, arms_of(list@)));
            }
        },
        ExprKind::If { cond, then, els } => {
            value(cond, param_modes, vocabulary, consumed);
            value(then, param_modes, vocabulary, consumed);
            maybe(els, param_modes, vocabulary, consumed);
            proof {
                noted_appends(before, takes(m, v, cond@), takes(m, v, then@));
                noted_appends(
                    before,
                    takes(m, v, cond@) + takes(m, v, then@),
                    maybe_takes(m, v, crate::hir::boxed(*els)),
                );
            }
        },
        ExprKind::Block { stmts: list, tail } => {
            stmts(list, param_modes, vocabulary, consumed);
            maybe(tail, param_modes, vocabulary, consumed);
            proof {
                noted_appends(
                    before,
                    stmts_take(m, v, stmts_of(list@)),
                    maybe_takes(m, v, crate::hir::boxed(*tail)),
                );
            }
        },
        ExprKind::Await { expr } => value(expr, param_modes, vocabulary, consumed),
        ExprKind::Spawn { expr } => value(expr, param_modes, vocabulary, consumed),
        ExprKind::Try { expr, .. } => value(expr, param_modes, vocabulary, consumed),
        ExprKind::Scope { body } => value(body, param_modes, vocabulary, consumed),
        ExprKind::ReactorInput { reactor, .. } => place(
            reactor,
            param_modes,
            vocabulary,
            consumed,
        ),
        ExprKind::ReactorExport { reactor, .. } => place(
            reactor,
            param_modes,
            vocabulary,
            consumed,
        ),
        ExprKind::Return { value: inner } => maybe(inner, param_modes, vocabulary, consumed),
        ExprKind::Break { value: inner } => maybe(inner, param_modes, vocabulary, consumed),
        ExprKind::While { cond, body } => {
            value(cond, param_modes, vocabulary, consumed);
            value(body, param_modes, vocabulary, consumed);
            proof {
                noted_appends(before, takes(m, v, cond@), takes(m, v, body@));
            }
        },
        ExprKind::Loop { body } => value(body, param_modes, vocabulary, consumed),
    }
}

/// Where a body first takes each of its parameters.
fn consumed_by(
    def: &FnDef,
    param_modes: &Vec<Vec<Mode>>,
    vocabulary: &Vocabulary,
) -> (r: Vec<Option<Span>>)
    ensures
        r.len() == def.params,
        forall|i: int|
            0 <= i < def.params ==> r@[i] == first_take(
                takes(rows(param_modes@), vocabulary@, def@.body),
                i,
            ),
{
    let mut consumed: Vec<Option<Span>> = Vec::new();
    for i in 0..def.params
        invariant
            consumed.len() == i,
            forall|j: int| 0 <= j < i ==> consumed@[j] == None::<Span>,
    {
        consumed.push(None);
    }
    value(&def.body, param_modes, vocabulary, &mut consumed);
    consumed
}

// ---------------------------------------------------------------- the settled table

/// Whether a body takes a parameter anywhere.
pub open spec fn taken(
    modes: Seq<Seq<Mode>>,
    v: model::Vocabulary,
    body: model::Expr,
    param: int,
) -> bool {
    first_take(takes(modes, v, body), param) is Some
}

/// A parameter inference may decide: nothing was declared for it, and it has one owner.
pub open spec fn candidate(
    p: model::Program,
    pinned: Seq<Seq<bool>>,
    f: int,
    param: int,
) -> bool {
    &&& 0 <= f < p.fns.len()
    &&& !p.fns[f].inert
    &&& 0 <= param < p.fns[f].params
    &&& param < p.fns[f].locals.len()
    &&& f < pinned.len()
    &&& param < pinned[f].len()
    &&& !pinned[f][param]
    &&& affine(p, p.fns[f].locals[param].ty)
}

/// One row made as long as its function has parameters: a position nothing was written for reads.
pub open spec fn padded_row(row: Seq<Mode>, params: usize) -> Seq<Mode> {
    if row.len() < params {
        row + Seq::new((params - row.len()) as nat, |i: int| Mode::Read)
    } else {
        row
    }
}

pub open spec fn padded(p: model::Program, modes: Seq<Seq<Mode>>) -> Seq<Seq<Mode>> {
    Seq::new(modes.len(), |f: int| padded_row(modes[f], p.fns[f].params))
}

/// What padding adds is pinned: a contract nobody wrote is not inferred against.
pub open spec fn padded_pins(p: model::Program, pinned: Seq<Seq<bool>>) -> Seq<Seq<bool>> {
    Seq::new(
        pinned.len(),
        |f: int|
            if pinned[f].len() < p.fns[f].params {
                pinned[f] + Seq::new((p.fns[f].params - pinned[f].len()) as nat, |i: int| true)
            } else {
                pinned[f]
            },
    )
}

/// `b` is `a` with some candidates turned from `Read` to `Sink`, and nothing else.
pub open spec fn above(
    p: model::Program,
    pinned: Seq<Seq<bool>>,
    a: Seq<Seq<Mode>>,
    b: Seq<Seq<Mode>>,
) -> bool {
    &&& a.len() == b.len()
    &&& forall|f: int| 0 <= f < a.len() ==> (#[trigger] a[f]).len() == b[f].len()
    &&& forall|f: int, i: int|
        #![trigger a[f][i]]
        #![trigger b[f][i]]
        0 <= f < a.len() && 0 <= i < a[f].len() ==> a[f][i] == b[f][i] || (a[f][i] == Mode::Read
            && b[f][i] == Mode::Sink && candidate(p, pinned, f, i))
}

/// Every body agrees with the table: a candidate that still reads is not taken.
pub open spec fn agreed(
    p: model::Program,
    v: model::Vocabulary,
    pinned: Seq<Seq<bool>>,
    modes: Seq<Seq<Mode>>,
) -> bool {
    forall|f: int, i: int|
        #![trigger modes[f][i]]
        0 <= f < modes.len() && 0 <= i < modes[f].len() && candidate(p, pinned, f, i)
            && modes[f][i] == Mode::Read ==> !taken(modes, v, p.fns[f].body, i)
}

/// What inference settles on: the least table above the written one that every body agrees with.
pub open spec fn settles(
    p: model::Program,
    v: model::Vocabulary,
    pinned: Seq<Seq<bool>>,
    written: Seq<Seq<Mode>>,
    modes: Seq<Seq<Mode>>,
) -> bool {
    &&& above(p, pinned, written, modes)
    &&& agreed(p, v, pinned, modes)
    &&& forall|other: Seq<Seq<Mode>>|
        above(p, pinned, written, other) && agreed(p, v, pinned, other) ==> #[trigger] above(
            p,
            pinned,
            modes,
            other,
        )
}

/// There is one table that inference can settle on.
pub proof fn settled_table_is_unique(
    p: model::Program,
    v: model::Vocabulary,
    pinned: Seq<Seq<bool>>,
    written: Seq<Seq<Mode>>,
    a: Seq<Seq<Mode>>,
    b: Seq<Seq<Mode>>,
)
    requires
        settles(p, v, pinned, written, a),
        settles(p, v, pinned, written, b),
    ensures
        a == b,
{
    assert(above(p, pinned, a, b));
    assert(above(p, pinned, b, a));
    assert forall|f: int| 0 <= f < a.len() implies #[trigger] a[f] == b[f] by {
        assert forall|i: int| 0 <= i < a[f].len() implies a[f][i] == b[f][i] by {
            assert(b[f][i] == a[f][i] || b[f][i] == Mode::Read);
        }
        assert(a[f] =~= b[f]);
    }
    assert(a =~= b);
}

/// A declared mode is never changed: a written `sink`, and a trait's contract.
pub proof fn pinned_rows_never_flip(
    p: model::Program,
    v: model::Vocabulary,
    pinned: Seq<Seq<bool>>,
    written: Seq<Seq<Mode>>,
    modes: Seq<Seq<Mode>>,
    f: int,
    i: int,
)
    requires
        settles(p, v, pinned, written, modes),
        0 <= f < written.len(),
        0 <= i < written[f].len(),
        f < pinned.len() && i < pinned[f].len() && pinned[f][i],
    ensures
        modes[f][i] == written[f][i],
{
    assert(written[f][i] == modes[f][i] || candidate(p, pinned, f, i));
}

pub open spec fn names(uses: Seq<Take>, i: int) -> bool {
    exists|k: int| 0 <= k < uses.len() && (#[trigger] uses[k]).id.0 == i
}

pub proof fn first_take_names(uses: Seq<Take>, i: int)
    ensures
        first_take(uses, i) is Some <==> names(uses, i),
    decreases uses.len(),
{
    if uses.len() > 0 {
        let rest = uses.skip(1);
        first_take_names(rest, i);
        if names(rest, i) {
            let k = choose|k: int| 0 <= k < rest.len() && (#[trigger] rest[k]).id.0 == i;
            assert(uses[k + 1].id.0 == i);
        }
        if names(uses, i) && uses[0].id.0 != i {
            let k = choose|k: int| 0 <= k < uses.len() && (#[trigger] uses[k]).id.0 == i;
            assert(rest[k - 1].id.0 == i);
        }
    }
}

pub proof fn names_append(a: Seq<Take>, b: Seq<Take>, i: int)
    ensures
        names(a + b, i) <==> names(a, i) || names(b, i),
{
    if names(a, i) {
        let k = choose|k: int| 0 <= k < a.len() && (#[trigger] a[k]).id.0 == i;
        assert((a + b)[k].id.0 == i);
    }
    if names(b, i) {
        let k = choose|k: int| 0 <= k < b.len() && (#[trigger] b[k]).id.0 == i;
        assert((a + b)[k + a.len()].id.0 == i);
    }
    if names(a + b, i) {
        let k = choose|k: int| 0 <= k < (a + b).len() && (#[trigger] (a + b)[k]).id.0 == i;
        if k < a.len() {
            assert(a[k].id.0 == i);
        } else {
            assert(b[k - a.len()].id.0 == i);
        }
    }
}

/// The tables agree wherever the smaller one sinks.
spec fn sinks_kept(a: Seq<Seq<Mode>>, b: Seq<Seq<Mode>>) -> bool {
    forall|f: FnId, i: int| #[trigger]
        mode_at(a, f, i) == Mode::Sink ==> mode_at(b, f, i) == Mode::Sink
}

proof fn above_keeps_sinks(
    p: model::Program,
    pinned: Seq<Seq<bool>>,
    a: Seq<Seq<Mode>>,
    b: Seq<Seq<Mode>>,
)
    requires
        above(p, pinned, a, b),
    ensures
        sinks_kept(a, b),
{
    assert forall|f: FnId, i: int| #[trigger]
        mode_at(a, f, i) == Mode::Sink implies mode_at(b, f, i) == Mode::Sink by {
        assert(a[f.0 as int].len() == b[f.0 as int].len());
        assert(a[f.0 as int][i] == b[f.0 as int][i]);
    }
}

/// More sinks take more: nothing a smaller table takes is given back by a larger one.
proof fn takes_grow(
    a: Seq<Seq<Mode>>,
    b: Seq<Seq<Mode>>,
    v: model::Vocabulary,
    e: model::Expr,
    i: int,
)
    requires
        sinks_kept(a, b),
    ensures
        names(takes(a, v, e), i) ==> names(takes(b, v, e), i),
    decreases e, 2nat,
{
    match e.kind {
        model::ExprKind::Local(id) => {
            assert(takes(a, v, e) == takes(b, v, e));
        },
        model::ExprKind::Field { base, .. } => reads_grow(a, b, v, *base, i),
        _ => inside_grows(a, b, v, e, i),
    }
}

proof fn reads_grow(
    a: Seq<Seq<Mode>>,
    b: Seq<Seq<Mode>>,
    v: model::Vocabulary,
    e: model::Expr,
    i: int,
)
    requires
        sinks_kept(a, b),
    ensures
        names(reads(a, v, e), i) ==> names(reads(b, v, e), i),
    decreases e, 2nat,
{
    match e.kind {
        model::ExprKind::Local(id) => {},
        model::ExprKind::Field { base, .. } => reads_grow(a, b, v, *base, i),
        _ => inside_grows(a, b, v, e, i),
    }
}

/// What reading takes, taking takes too.
proof fn taking_takes_what_reading_does(
    m: Seq<Seq<Mode>>,
    v: model::Vocabulary,
    e: model::Expr,
    i: int,
)
    ensures
        names(reads(m, v, e), i) ==> names(takes(m, v, e), i),
{
    if e.kind is Local {
        assert(reads(m, v, e) =~= seq![]);
    }
}

proof fn argument_grows(
    a: Seq<Seq<Mode>>,
    b: Seq<Seq<Mode>>,
    v: model::Vocabulary,
    x: Mode,
    y: Mode,
    e: model::Expr,
    i: int,
)
    requires
        sinks_kept(a, b),
        x == Mode::Sink ==> y == Mode::Sink,
    ensures
        names(argument(a, v, x, e), i) ==> names(argument(b, v, y, e), i),
    decreases e, 3nat,
{
    takes_grow(a, b, v, e, i);
    reads_grow(a, b, v, e, i);
    taking_takes_what_reading_does(b, v, e, i);
}

proof fn maybe_grows(
    a: Seq<Seq<Mode>>,
    b: Seq<Seq<Mode>>,
    v: model::Vocabulary,
    e: Option<Box<model::Expr>>,
    i: int,
)
    requires
        sinks_kept(a, b),
    ensures
        names(maybe_takes(a, v, e), i) ==> names(maybe_takes(b, v, e), i),
    decreases e, 4nat,
{
    if let Some(e) = e {
        takes_grow(a, b, v, *e, i);
    }
}

proof fn call_grows(
    a: Seq<Seq<Mode>>,
    b: Seq<Seq<Mode>>,
    v: model::Vocabulary,
    callee: FnId,
    args: Seq<model::Expr>,
    i: int,
)
    requires
        sinks_kept(a, b),
    ensures
        names(call_takes(a, v, callee, args), i) ==> names(call_takes(b, v, callee, args), i),
    decreases args, 4nat,
{
    if args.len() > 0 {
        let x = mode_at(a, callee, args.len() - 1);
        let y = mode_at(b, callee, args.len() - 1);
        call_grows(a, b, v, callee, args.drop_last(), i);
        argument_grows(a, b, v, x, y, args.last(), i);
        names_append(
            call_takes(a, v, callee, args.drop_last()),
            argument(a, v, x, args.last()),
            i,
        );
        names_append(
            call_takes(b, v, callee, args.drop_last()),
            argument(b, v, y, args.last()),
            i,
        );
    }
}

proof fn builtin_grows(
    a: Seq<Seq<Mode>>,
    b: Seq<Seq<Mode>>,
    v: model::Vocabulary,
    builtin: Builtin,
    args: Seq<model::Expr>,
    i: int,
)
    requires
        sinks_kept(a, b),
    ensures
        names(builtin_takes(a, v, builtin, args), i) ==> names(
            builtin_takes(b, v, builtin, args),
            i,
        ),
    decreases args, 4nat,
{
    if args.len() > 0 {
        let x = builtin_mode_at(v, builtin, args.len() - 1);
        builtin_grows(a, b, v, builtin, args.drop_last(), i);
        argument_grows(a, b, v, x, x, args.last(), i);
        names_append(
            builtin_takes(a, v, builtin, args.drop_last()),
            argument(a, v, x, args.last()),
            i,
        );
        names_append(
            builtin_takes(b, v, builtin, args.drop_last()),
            argument(b, v, x, args.last()),
            i,
        );
    }
}

proof fn all_grow(
    a: Seq<Seq<Mode>>,
    b: Seq<Seq<Mode>>,
    v: model::Vocabulary,
    args: Seq<model::Expr>,
    i: int,
)
    requires
        sinks_kept(a, b),
    ensures
        names(all_take(a, v, args), i) ==> names(all_take(b, v, args), i),
    decreases args, 4nat,
{
    if args.len() > 0 {
        all_grow(a, b, v, args.drop_last(), i);
        takes_grow(a, b, v, args.last(), i);
        names_append(all_take(a, v, args.drop_last()), takes(a, v, args.last()), i);
        names_append(all_take(b, v, args.drop_last()), takes(b, v, args.last()), i);
    }
}

spec fn guard_takes(m: Seq<Seq<Mode>>, v: model::Vocabulary, arm: model::Arm) -> Seq<Take> {
    match arm.guard {
        Some(guard) => takes(m, v, guard),
        None => seq![],
    }
}

proof fn arms_grow(
    a: Seq<Seq<Mode>>,
    b: Seq<Seq<Mode>>,
    v: model::Vocabulary,
    arms: Seq<model::Arm>,
    i: int,
)
    requires
        sinks_kept(a, b),
    ensures
        names(arms_take(a, v, arms), i) ==> names(arms_take(b, v, arms), i),
    decreases arms, 4nat,
{
    if arms.len() > 0 {
        let arm = arms.last();
        let rest = arms.drop_last();
        arms_grow(a, b, v, rest, i);
        if let Some(guard) = arm.guard {
            takes_grow(a, b, v, guard, i);
        }
        takes_grow(a, b, v, arm.body, i);
        names_append(arms_take(a, v, rest), guard_takes(a, v, arm), i);
        names_append(arms_take(b, v, rest), guard_takes(b, v, arm), i);
        names_append(
            arms_take(a, v, rest) + guard_takes(a, v, arm),
            takes(a, v, arm.body),
            i,
        );
        names_append(
            arms_take(b, v, rest) + guard_takes(b, v, arm),
            takes(b, v, arm.body),
            i,
        );
    }
}

proof fn stmts_grow(
    a: Seq<Seq<Mode>>,
    b: Seq<Seq<Mode>>,
    v: model::Vocabulary,
    stmts: Seq<model::Stmt>,
    i: int,
)
    requires
        sinks_kept(a, b),
    ensures
        names(stmts_take(a, v, stmts), i) ==> names(stmts_take(b, v, stmts), i),
    decreases stmts, 4nat,
{
    if stmts.len() > 0 {
        stmts_grow(a, b, v, stmts.drop_last(), i);
        stmt_grows(a, b, v, stmts.last(), i);
        names_append(stmts_take(a, v, stmts.drop_last()), stmt_takes(a, v, stmts.last()), i);
        names_append(stmts_take(b, v, stmts.drop_last()), stmt_takes(b, v, stmts.last()), i);
    }
}

proof fn stmt_grows(
    a: Seq<Seq<Mode>>,
    b: Seq<Seq<Mode>>,
    v: model::Vocabulary,
    it: model::Stmt,
    i: int,
)
    requires
        sinks_kept(a, b),
    ensures
        names(stmt_takes(a, v, it), i) ==> names(stmt_takes(b, v, it), i),
    decreases it, 4nat,
{
    match it.kind {
        model::StmtKind::Let { value, .. } => takes_grow(a, b, v, value, i),
        model::StmtKind::Assign { place, value } => {
            takes_grow(a, b, v, value, i);
            reads_grow(a, b, v, place, i);
            names_append(takes(a, v, value), reads(a, v, place), i);
            names_append(takes(b, v, value), reads(b, v, place), i);
        },
        model::StmtKind::After { task, .. } => takes_grow(a, b, v, task, i),
        model::StmtKind::Expr(e) => takes_grow(a, b, v, e, i),
    }
}

proof fn inside_grows(
    a: Seq<Seq<Mode>>,
    b: Seq<Seq<Mode>>,
    v: model::Vocabulary,
    e: model::Expr,
    i: int,
)
    requires
        sinks_kept(a, b),
    ensures
        names(inside(a, v, e), i) ==> names(inside(b, v, e), i),
    decreases e, 1nat,
{
    match e.kind {
        model::ExprKind::Field { base, .. } => reads_grow(a, b, v, *base, i),
        model::ExprKind::Unary { expr, .. } => takes_grow(a, b, v, *expr, i),
        model::ExprKind::Binary { lhs, rhs, .. } => {
            takes_grow(a, b, v, *lhs, i);
            takes_grow(a, b, v, *rhs, i);
            names_append(takes(a, v, *lhs), takes(a, v, *rhs), i);
            names_append(takes(b, v, *lhs), takes(b, v, *rhs), i);
        },
        model::ExprKind::ShortCircuit { lhs, rhs, .. } => {
            takes_grow(a, b, v, *lhs, i);
            takes_grow(a, b, v, *rhs, i);
            names_append(takes(a, v, *lhs), takes(a, v, *rhs), i);
            names_append(takes(b, v, *lhs), takes(b, v, *rhs), i);
        },
        model::ExprKind::Call { callee, args } => call_grows(a, b, v, callee, args, i),
        model::ExprKind::Builtin { builtin, args } => builtin_grows(a, b, v, builtin, args, i),
        model::ExprKind::Construct { args, .. } => all_grow(a, b, v, args, i),
        model::ExprKind::SpawnReactor { args, .. } => all_grow(a, b, v, args, i),
        model::ExprKind::Match { scrutinee, arms } => {
            takes_grow(a, b, v, *scrutinee, i);
            arms_grow(a, b, v, arms, i);
            names_append(takes(a, v, *scrutinee), arms_take(a, v, arms), i);
            names_append(takes(b, v, *scrutinee), arms_take(b, v, arms), i);
        },
        model::ExprKind::If { cond, then, els } => {
            takes_grow(a, b, v, *cond, i);
            takes_grow(a, b, v, *then, i);
            maybe_grows(a, b, v, els, i);
            names_append(takes(a, v, *cond), takes(a, v, *then), i);
            names_append(takes(b, v, *cond), takes(b, v, *then), i);
            names_append(takes(a, v, *cond) + takes(a, v, *then), maybe_takes(a, v, els), i);
            names_append(takes(b, v, *cond) + takes(b, v, *then), maybe_takes(b, v, els), i);
        },
        model::ExprKind::Block { stmts, tail } => {
            stmts_grow(a, b, v, stmts, i);
            maybe_grows(a, b, v, tail, i);
            names_append(stmts_take(a, v, stmts), maybe_takes(a, v, tail), i);
            names_append(stmts_take(b, v, stmts), maybe_takes(b, v, tail), i);
        },
        model::ExprKind::Await { expr } => takes_grow(a, b, v, *expr, i),
        model::ExprKind::Spawn { expr } => takes_grow(a, b, v, *expr, i),
        model::ExprKind::Try { expr, .. } => takes_grow(a, b, v, *expr, i),
        model::ExprKind::Scope { body } => takes_grow(a, b, v, *body, i),
        model::ExprKind::ReactorInput { reactor, .. } => reads_grow(a, b, v, *reactor, i),
        model::ExprKind::ReactorExport { reactor, .. } => reads_grow(a, b, v, *reactor, i),
        model::ExprKind::Return { value } => maybe_grows(a, b, v, value, i),
        model::ExprKind::Break { value } => maybe_grows(a, b, v, value, i),
        model::ExprKind::While { cond, body } => {
            takes_grow(a, b, v, *cond, i);
            takes_grow(a, b, v, *body, i);
            names_append(takes(a, v, *cond), takes(a, v, *body), i);
            names_append(takes(b, v, *cond), takes(b, v, *body), i);
        },
        model::ExprKind::Loop { body } => takes_grow(a, b, v, *body, i),
        _ => {},
    }
}

/// What a body takes under one table it takes under every table with more sinks.
pub proof fn taking_is_monotone(
    p: model::Program,
    pinned: Seq<Seq<bool>>,
    a: Seq<Seq<Mode>>,
    b: Seq<Seq<Mode>>,
    v: model::Vocabulary,
    body: model::Expr,
    param: int,
)
    requires
        above(p, pinned, a, b),
        taken(a, v, body, param),
    ensures
        taken(b, v, body, param),
{
    above_keeps_sinks(p, pinned, a, b);
    first_take_names(takes(a, v, body), param);
    first_take_names(takes(b, v, body), param);
    takes_grow(a, b, v, body, param);
}

// ---------------------------------------------------------------- inference

pub open spec fn pin_rows(s: Seq<Vec<bool>>) -> Seq<Seq<bool>> {
    Seq::new(s.len(), |i: int| s[i]@)
}

spec fn reading(row: Seq<Mode>) -> nat
    decreases row.len(),
{
    if row.len() == 0 {
        0
    } else {
        reading(row.drop_last()) + if row.last() == Mode::Read {
            1nat
        } else {
            0nat
        }
    }
}

spec fn all_reading(modes: Seq<Seq<Mode>>) -> nat
    decreases modes.len(),
{
    if modes.len() == 0 {
        0
    } else {
        all_reading(modes.drop_last()) + reading(modes.last())
    }
}

proof fn flipping_counts(row: Seq<Mode>, i: int)
    requires
        0 <= i < row.len(),
        row[i] == Mode::Read,
    ensures
        reading(row.update(i, Mode::Sink)) + 1 == reading(row),
    decreases row.len(),
{
    let after = row.update(i, Mode::Sink);
    if i == row.len() - 1 {
        assert(after.drop_last() =~= row.drop_last());
    } else {
        assert(after.drop_last() =~= row.drop_last().update(i, Mode::Sink));
        flipping_counts(row.drop_last(), i);
    }
}

proof fn flipping_counts_all(modes: Seq<Seq<Mode>>, f: int, i: int)
    requires
        0 <= f < modes.len(),
        0 <= i < modes[f].len(),
        modes[f][i] == Mode::Read,
    ensures
        all_reading(modes.update(f, modes[f].update(i, Mode::Sink))) + 1 == all_reading(modes),
    decreases modes.len(),
{
    let after = modes.update(f, modes[f].update(i, Mode::Sink));
    if f == modes.len() - 1 {
        assert(after.drop_last() =~= modes.drop_last());
        flipping_counts(modes[f], i);
    } else {
        assert(after.drop_last() =~= modes.drop_last().update(
            f,
            modes.drop_last()[f].update(i, Mode::Sink),
        ));
        flipping_counts_all(modes.drop_last(), f, i);
    }
}

/// Pad every mode row to its function's arity. Lifted reactor members declare no written parameter
/// list, so their rows start empty.
fn pad(program: &Program, param_modes: &mut Vec<Vec<Mode>>, mode_pinned: &mut Vec<Vec<bool>>)
    requires
        old(param_modes).len() == program.fns.len(),
        old(mode_pinned).len() == program.fns.len(),
    ensures
        final(param_modes).len() == program.fns.len(),
        rows(final(param_modes)@) == padded(program@, rows(old(param_modes)@)),
        pin_rows(final(mode_pinned)@) == padded_pins(program@, pin_rows(old(mode_pinned)@)),
{
    let ghost modes0 = rows(param_modes@);
    let ghost pins0 = pin_rows(mode_pinned@);
    let n: usize = program.fns.len();
    for index in 0..n
        invariant
            n == program.fns.len(),
            param_modes.len() == n,
            mode_pinned.len() == n,
            modes0.len() == n,
            pins0.len() == n,
            forall|f: int|
                0 <= f < index ==> #[trigger] param_modes@[f]@ == padded(program@, modes0)[f],
            forall|f: int| index <= f < n ==> #[trigger] param_modes@[f]@ == modes0[f],
            forall|f: int|
                0 <= f < index ==> #[trigger] mode_pinned@[f]@ == padded_pins(program@, pins0)[f],
            forall|f: int| index <= f < n ==> #[trigger] mode_pinned@[f]@ == pins0[f],
    {
        let params: usize = program.fns[index].params;
        while param_modes[index].len() < params
            invariant
                index < n,
                param_modes.len() == n,
                modes0.len() == n,
                params == program@.fns[index as int].params,
                param_modes@[index as int]@.len() >= modes0[index as int].len(),
                modes0[index as int].len() < params ==> param_modes@[index as int]@.len()
                    <= params,
                modes0[index as int].len() >= params ==> param_modes@[index as int]@
                    == modes0[index as int],
                param_modes@[index as int]@ == modes0[index as int] + Seq::new(
                    (param_modes@[index as int]@.len() - modes0[index as int].len()) as nat,
                    |i: int| Mode::Read,
                ),
                forall|f: int|
                    0 <= f < index ==> #[trigger] param_modes@[f]@ == padded(program@, modes0)[f],
                forall|f: int| index < f < n ==> #[trigger] param_modes@[f]@ == modes0[f],
            decreases params - param_modes@[index as int]@.len(),
        {
            let ghost row = param_modes@[index as int]@;
            param_modes[index].push(Mode::Read);
            assert(param_modes@[index as int]@ =~= modes0[index as int] + Seq::new(
                (row.len() + 1 - modes0[index as int].len()) as nat,
                |i: int| Mode::Read,
            ));
        }
        assert(param_modes@[index as int]@ =~= padded(program@, modes0)[index as int]);
        while mode_pinned[index].len() < params
            invariant
                index < n,
                mode_pinned.len() == n,
                pins0.len() == n,
                params == program@.fns[index as int].params,
                mode_pinned@[index as int]@.len() >= pins0[index as int].len(),
                pins0[index as int].len() < params ==> mode_pinned@[index as int]@.len()
                    <= params,
                pins0[index as int].len() >= params ==> mode_pinned@[index as int]@
                    == pins0[index as int],
                mode_pinned@[index as int]@ == pins0[index as int] + Seq::new(
                    (mode_pinned@[index as int]@.len() - pins0[index as int].len()) as nat,
                    |i: int| true,
                ),
                forall|f: int|
                    0 <= f < index ==> #[trigger] mode_pinned@[f]@ == padded_pins(
                        program@,
                        pins0,
                    )[f],
                forall|f: int| index < f < n ==> #[trigger] mode_pinned@[f]@ == pins0[f],
            decreases params - mode_pinned@[index as int]@.len(),
        {
            let ghost row = mode_pinned@[index as int]@;
            mode_pinned[index].push(true);
            assert(mode_pinned@[index as int]@ =~= pins0[index as int] + Seq::new(
                (row.len() + 1 - pins0[index as int].len()) as nat,
                |i: int| true,
            ));
        }
        assert(mode_pinned@[index as int]@ =~= padded_pins(program@, pins0)[index as int]);
    }
    assert(rows(param_modes@) =~= padded(program@, modes0));
    assert(pin_rows(mode_pinned@) =~= padded_pins(program@, pins0));
}

fn is_candidate(
    program: &Program,
    affinity: &Affinity,
    mode_pinned: &Vec<Vec<bool>>,
    f: usize,
    param: usize,
) -> (r: bool)
    requires
        affinity.describes(program@),
    ensures
        r == candidate(program@, pin_rows(mode_pinned@), f as int, param as int),
{
    if f >= program.fns.len() || f >= mode_pinned.len() {
        return false;
    }
    let def = &program.fns[f];
    !def.inert && param < def.params && param < def.locals.len() && param < mode_pinned[f].len()
        && !mode_pinned[f][param] && affinity.holds(Ghost(program@), &def.locals[param].ty)
}

/// Flip, in one function, each candidate its body takes. Whether any was.
fn flip(
    program: &Program,
    vocabulary: &Vocabulary,
    affinity: &Affinity,
    mode_pinned: &Vec<Vec<bool>>,
    param_modes: &mut Vec<Vec<Mode>>,
    f: usize,
    Ghost(written): Ghost<Seq<Seq<Mode>>>,
) -> (changed: bool)
    requires
        affinity.describes(program@),
        f < program.fns.len(),
        f < old(param_modes).len(),
        above(program@, pin_rows(mode_pinned@), written, rows(old(param_modes)@)),
        forall|other: Seq<Seq<Mode>>|
            above(program@, pin_rows(mode_pinned@), written, other) && agreed(
                program@,
                vocabulary@,
                pin_rows(mode_pinned@),
                other,
            ) ==> #[trigger] above(
                program@,
                pin_rows(mode_pinned@),
                rows(old(param_modes)@),
                other,
            ),
    ensures
        final(param_modes).len() == old(param_modes).len(),
        above(program@, pin_rows(mode_pinned@), written, rows(final(param_modes)@)),
        forall|other: Seq<Seq<Mode>>|
            above(program@, pin_rows(mode_pinned@), written, other) && agreed(
                program@,
                vocabulary@,
                pin_rows(mode_pinned@),
                other,
            ) ==> #[trigger] above(
                program@,
                pin_rows(mode_pinned@),
                rows(final(param_modes)@),
                other,
            ),
        changed ==> all_reading(rows(final(param_modes)@)) < all_reading(
            rows(old(param_modes)@),
        ),
        !changed ==> rows(final(param_modes)@) == rows(old(param_modes)@),
        !changed ==> forall|i: int|
            0 <= i < rows(final(param_modes)@)[f as int].len() && #[trigger] candidate(
                program@,
                pin_rows(mode_pinned@),
                f as int,
                i,
            ) && rows(final(param_modes)@)[f as int][i] == Mode::Read ==> !taken(
                rows(final(param_modes)@),
                vocabulary@,
                program@.fns[f as int].body,
                i,
            ),
{
    let ghost p = program@;
    let ghost v = vocabulary@;
    let ghost pinned = pin_rows(mode_pinned@);
    let ghost start = rows(param_modes@);
    let consumed = consumed_by(&program.fns[f], param_modes, vocabulary);
    let mut changed = false;
    let n: usize = param_modes[f].len();
    for param in 0..n
        invariant
            f < program.fns.len(),
            f < param_modes.len(),
            param_modes.len() == start.len(),
            n == param_modes@[f as int].len(),
            n == start[f as int].len(),
            p == program@,
            v == vocabulary@,
            pinned == pin_rows(mode_pinned@),
            affinity.describes(p),
            consumed.len() == p.fns[f as int].params,
            forall|i: int|
                0 <= i < consumed.len() ==> consumed@[i] == first_take(
                    takes(start, v, p.fns[f as int].body),
                    i,
                ),
            above(p, pinned, written, rows(param_modes@)),
            above(p, pinned, start, rows(param_modes@)),
            forall|other: Seq<Seq<Mode>>|
                above(p, pinned, written, other) && agreed(p, v, pinned, other)
                    ==> #[trigger] above(p, pinned, rows(param_modes@), other),
            changed ==> all_reading(rows(param_modes@)) < all_reading(start),
            !changed ==> rows(param_modes@) == start,
            !changed ==> forall|i: int|
                0 <= i < param && #[trigger] candidate(p, pinned, f as int, i)
                    && start[f as int][i] == Mode::Read ==> !taken(
                    start,
                    v,
                    p.fns[f as int].body,
                    i,
                ),
    {
        if param_modes[f][param] == Mode::Read && is_candidate(
            program,
            affinity,
            mode_pinned,
            f,
            param,
        ) && consumed[param].is_some() {
            let ghost before = rows(param_modes@);
            let ghost after = before.update(f as int, before[f as int].update(
                param as int,
                Mode::Sink,
            ));
            param_modes[f].set(param, Mode::Sink);
            proof {
                assert(rows(param_modes@) =~= after);
                flipping_counts_all(before, f as int, param as int);
                assert(taken(start, v, p.fns[f as int].body, param as int));
                assert forall|g: int, i: int|
                    #![trigger written[g][i]]
                    #![trigger after[g][i]]
                    0 <= g < written.len() && 0 <= i < written[g].len() implies written[g][i]
                    == after[g][i] || (written[g][i] == Mode::Read && after[g][i] == Mode::Sink
                    && candidate(p, pinned, g, i)) by {
                    assert(written[g][i] == before[g][i] || before[g][i] == Mode::Sink);
                }
                assert(above(p, pinned, written, after));
                assert forall|g: int, i: int|
                    #![trigger start[g][i]]
                    #![trigger after[g][i]]
                    0 <= g < start.len() && 0 <= i < start[g].len() implies start[g][i]
                    == after[g][i] || (start[g][i] == Mode::Read && after[g][i] == Mode::Sink
                    && candidate(p, pinned, g, i)) by {
                    assert(start[g][i] == before[g][i] || before[g][i] == Mode::Sink);
                }
                assert(above(p, pinned, start, after));
                assert forall|other: Seq<Seq<Mode>>|
                    above(p, pinned, written, other) && agreed(
                        p,
                        v,
                        pinned,
                        other,
                    ) implies #[trigger] above(p, pinned, after, other) by {
                    assert(above(p, pinned, before, other));
                    assert(above(p, pinned, start, other)) by {
                        assert forall|g: int, i: int|
                            #![trigger start[g][i]]
                            #![trigger other[g][i]]
                            0 <= g < start.len() && 0 <= i < start[g].len() implies start[g][i]
                            == other[g][i] || (start[g][i] == Mode::Read && other[g][i]
                            == Mode::Sink && candidate(p, pinned, g, i)) by {
                            assert(start[g][i] == before[g][i] || before[g][i] == Mode::Sink);
                            assert(before[g][i] == other[g][i] || before[g][i] == Mode::Read);
                        }
                    }
                    taking_is_monotone(
                        p,
                        pinned,
                        start,
                        other,
                        v,
                        p.fns[f as int].body,
                        param as int,
                    );
                    assert(before[f as int][param as int] == Mode::Read);
                    assert(other[f as int][param as int] != Mode::Read);
                    assert forall|g: int, i: int|
                        #![trigger after[g][i]]
                        #![trigger other[g][i]]
                        0 <= g < after.len() && 0 <= i < after[g].len() implies after[g][i]
                        == other[g][i] || (after[g][i] == Mode::Read && other[g][i] == Mode::Sink
                        && candidate(p, pinned, g, i)) by {
                        assert(before[g][i] == other[g][i] || other[g][i] == Mode::Sink);
                    }
                }
            }
            changed = true;
        }
    }
    changed
}

/// Repeated passes in order, flipping `Read` to `Sink` where a body takes, through the current
/// state of every callee, until nothing changes.
pub fn infer(
    program: &Program,
    vocabulary: &Vocabulary,
    affinity: &Affinity,
    mode_pinned: &Vec<Vec<bool>>,
    param_modes: &mut Vec<Vec<Mode>>,
)
    requires
        affinity.describes(program@),
        old(param_modes).len() == program.fns.len(),
    ensures
        settles(
            program@,
            vocabulary@,
            pin_rows(mode_pinned@),
            rows(old(param_modes)@),
            rows(final(param_modes)@),
        ),
{
    let ghost p = program@;
    let ghost v = vocabulary@;
    let ghost pinned = pin_rows(mode_pinned@);
    let ghost written = rows(param_modes@);
    let mut changed = true;
    while changed
        invariant
            p == program@,
            v == vocabulary@,
            pinned == pin_rows(mode_pinned@),
            affinity.describes(p),
            param_modes.len() == program.fns.len(),
            above(p, pinned, written, rows(param_modes@)),
            forall|other: Seq<Seq<Mode>>|
                above(p, pinned, written, other) && agreed(p, v, pinned, other)
                    ==> #[trigger] above(p, pinned, rows(param_modes@), other),
            !changed ==> agreed(p, v, pinned, rows(param_modes@)),
        decreases
                all_reading(rows(param_modes@)),
                if changed {
                    1int
                } else {
                    0
                },
    {
        changed = false;
        let ghost start = rows(param_modes@);
        for index in 0..program.fns.len()
            invariant
                p == program@,
                v == vocabulary@,
                pinned == pin_rows(mode_pinned@),
                affinity.describes(p),
                param_modes.len() == program.fns.len(),
                above(p, pinned, written, rows(param_modes@)),
                forall|other: Seq<Seq<Mode>>|
                    above(p, pinned, written, other) && agreed(p, v, pinned, other)
                        ==> #[trigger] above(p, pinned, rows(param_modes@), other),
                changed ==> all_reading(rows(param_modes@)) < all_reading(start),
                !changed ==> rows(param_modes@) == start,
                !changed ==> forall|f: int, i: int|
                    0 <= f < index && 0 <= i < start[f].len() && #[trigger] candidate(
                        p,
                        pinned,
                        f,
                        i,
                    ) && start[f][i] == Mode::Read ==> !taken(start, v, p.fns[f].body, i),
        {
            if !program.fns[index].inert && flip(
                program,
                vocabulary,
                affinity,
                mode_pinned,
                param_modes,
                index,
                Ghost(written),
            ) {
                changed = true;
            }
        }
    }
}

// ---------------------------------------------------------------- declared contracts

/// A parameter a trait declares to read, and that has one owner.
pub open spec fn suspect(
    p: model::Program,
    pinned: Seq<Seq<bool>>,
    modes: Seq<Seq<Mode>>,
    f: int,
    param: int,
) -> bool {
    &&& 0 <= param < p.fns[f].params
    &&& param < p.fns[f].locals.len()
    &&& f < pinned.len()
    &&& param < pinned[f].len()
    &&& f < modes.len()
    &&& param < modes[f].len()
    &&& modes[f][param] == Mode::Read
    &&& pinned[f][param]
    &&& affine(p, p.fns[f].locals[param].ty)
}

/// A body that takes what its contract says it reads.
pub open spec fn takes_a_read(p: model::Program, f: int, param: int, at: Span) -> Report {
    let name = p.fns[f].locals[param].name;
    Report::new(at, "`"@ + name + "` is a read parameter, and this takes it"@).label(
        "consumed here"@,
    ).secondary(p.fns[f].locals[param].span, "declared to read"@).note(
        "`"@ + p.fns[f].name + "` implements a trait method whose `"@ + name
            + "` is declared without `sink`: every caller keeps ownership, so the body may only read it"@,
    ).note("declare the parameter `sink` at the trait to let every impl consume it"@)
}

/// The broken contracts among the first `n` parameters of one function.
pub open spec fn fn_pins(
    p: model::Program,
    v: model::Vocabulary,
    pinned: Seq<Seq<bool>>,
    modes: Seq<Seq<Mode>>,
    owner: int,
    f: int,
    n: nat,
) -> Seq<(int, Report)>
    decreases n,
{
    if n == 0 || p.fns[f].inert {
        seq![]
    } else {
        let rest = fn_pins(p, v, pinned, modes, owner, f, (n - 1) as nat);
        let at = first_take(takes(modes, v, p.fns[f].body), n - 1);
        if suspect(p, pinned, modes, f, n - 1) && at is Some {
            rest.push((owner, takes_a_read(p, f, n - 1, at->0)))
        } else {
            rest
        }
    }
}

/// The broken contracts of the first `n` functions.
pub open spec fn pins(
    p: model::Program,
    v: model::Vocabulary,
    pinned: Seq<Seq<bool>>,
    modes: Seq<Seq<Mode>>,
    owners: Seq<usize>,
    n: nat,
) -> Seq<(int, Report)>
    decreases n,
{
    if n == 0 {
        seq![]
    } else {
        pins(p, v, pinned, modes, owners, (n - 1) as nat) + fn_pins(
            p,
            v,
            pinned,
            modes,
            owners[n - 1] as int,
            n - 1,
            p.fns[n - 1].params as nat,
        )
    }
}

pub open spec fn owned(s: Seq<(usize, Diagnostic)>) -> Seq<(int, Report)> {
    Seq::new(s.len(), |i: int| (s[i].0 as int, s[i].1@))
}

/// File diagnostics, each under its owner, in order.
pub fn report_each(errors: &mut Vec<Vec<Diagnostic>>, found: Vec<(usize, Diagnostic)>)
    ensures
        filed(final(errors)@) == file_each(filed(old(errors)@), owned(found@)),
{
    let ghost all = owned(found@);
    let ghost before = filed(errors@);
    let mut rest = found;
    let mut taken: Vec<(usize, Diagnostic)> = Vec::new();
    while rest.len() > 0
        invariant
            taken@.len() + rest@.len() == all.len(),
            forall|i: int|
                0 <= i < rest@.len() ==> (#[trigger] rest@[i]).0 == all[i].0 && rest@[i].1@
                    == all[i].1,
            forall|i: int|
                0 <= i < taken@.len() ==> (#[trigger] taken@[i]).0 == all[all.len() - 1 - i].0
                    && taken@[i].1@ == all[all.len() - 1 - i].1,
            filed(errors@) == before,
        decreases rest.len(),
    {
        if let Some(d) = rest.pop() {
            taken.push(d);
        }
    }
    let n: usize = taken.len();
    assert(all.take(0) =~= seq![]);
    for i in 0..n
        invariant
            n == all.len(),
            taken@.len() == n - i,
            forall|j: int|
                0 <= j < taken@.len() ==> (#[trigger] taken@[j]).0 == all[all.len() - 1 - j].0
                    && taken@[j].1@ == all[all.len() - 1 - j].1,
            filed(errors@) == file_each(before, all.take(i as int)),
    {
        if let Some((owner, d)) = taken.pop() {
            assert(d@ == all[i as int].1);
            report(errors, owner, d);
            assert(all.take(i + 1).drop_last() =~= all.take(i as int));
        }
    }
    assert(all.take(n as int) =~= all);
}

/// The declared-contract check: a pinned `Read` on an affine parameter means every caller keeps
/// ownership, so a body that consumes it anyway is wrong at the body.
fn enforce_pins(
    program: &Program,
    vocabulary: &Vocabulary,
    affinity: &Affinity,
    mode_pinned: &Vec<Vec<bool>>,
    param_modes: &Vec<Vec<Mode>>,
    fn_owner: &Vec<usize>,
) -> (found: Vec<(usize, Diagnostic)>)
    requires
        affinity.describes(program@),
        fn_owner.len() == program.fns.len(),
    ensures
        owned(found@) == pins(
            program@,
            vocabulary@,
            pin_rows(mode_pinned@),
            rows(param_modes@),
            fn_owner@,
            program@.fns.len(),
        ),
{
    let ghost p = program@;
    let ghost v = vocabulary@;
    let ghost pinned = pin_rows(mode_pinned@);
    let ghost modes = rows(param_modes@);
    let mut found: Vec<(usize, Diagnostic)> = Vec::new();
    assert(owned(found@) =~= seq![]);
    for index in 0..program.fns.len()
        invariant
            p == program@,
            v == vocabulary@,
            pinned == pin_rows(mode_pinned@),
            modes == rows(param_modes@),
            affinity.describes(p),
            fn_owner.len() == program.fns.len(),
            owned(found@) == pins(p, v, pinned, modes, fn_owner@, index as nat),
    {
        let def = &program.fns[index];
        let ghost before = owned(found@);
        let ghost owner = fn_owner@[index as int] as int;
        assert(before + seq![] =~= before);
        if !def.inert {
            let consumed = consumed_by(def, param_modes, vocabulary);
            let n: usize = def.params;
            for param in 0..n
                invariant
                    index < program.fns.len(),
                    index < fn_owner.len(),
                    owner == fn_owner@[index as int],
                    p == program@,
                    v == vocabulary@,
                    pinned == pin_rows(mode_pinned@),
                    modes == rows(param_modes@),
                    affinity.describes(p),
                    *def == program.fns@[index as int],
                    def@ == p.fns[index as int],
                    !def.inert,
                    n == def.params,
                    consumed.len() == n,
                    forall|i: int|
                        0 <= i < n ==> consumed@[i] == first_take(
                            takes(modes, v, def@.body),
                            i,
                        ),
                    owned(found@) == before + fn_pins(
                        p,
                        v,
                        pinned,
                        modes,
                        owner,
                        index as int,
                        param as nat,
                    ),
            {
                let ghost so_far = fn_pins(
                    p,
                    v,
                    pinned,
                    modes,
                    owner,
                    index as int,
                    param as nat,
                );
                let ghost held = owned(found@);
                if param < def.locals.len() && index < mode_pinned.len() && param
                    < mode_pinned[index].len() && index < param_modes.len() && param
                    < param_modes[index].len() && param_modes[index][param] == Mode::Read
                    && mode_pinned[index][param] && affinity.holds(
                    Ghost(p),
                    &def.locals[param].ty,
                ) {
                    if let Some(at) = consumed[param] {
                        let local = &def.locals[param];
                        let d = Diagnostic::new(
                            at,
                            "`".to_owned().concat(local.name.as_str()).concat(
                                "` is a read parameter, and this takes it",
                            ),
                        ).label("consumed here").secondary(local.span, "declared to read").note(
                            "`".to_owned().concat(def.name.as_str()).concat(
                                "` implements a trait method whose `",
                            ).concat(local.name.as_str()).concat(
                                "` is declared without `sink`: every caller keeps ownership, so the body may only read it",
                            ).as_str(),
                        ).note(
                            "declare the parameter `sink` at the trait to let every impl consume it",
                        );
                        let ghost r = d@;
                        assert(r == takes_a_read(p, index as int, param as int, at));
                        found.push((fn_owner[index], d));
                        assert(owned(found@) =~= held.push((owner, r)));
                        assert((before + so_far).push((owner, r)) =~= before + so_far.push(
                            (owner, r),
                        ));
                    }
                }
            }
        }
    }
    found
}

// ---------------------------------------------------------------- work that outlives its call

/// A `spawn` or `after` operand, and which of the two words started it.
pub struct Started {
    pub task: model::Expr,
    pub what: Seq<char>,
}

/// Every piece of work an expression starts, in order.
pub open spec fn started(e: model::Expr) -> Seq<Started>
    decreases e,
{
    match e.kind {
        model::ExprKind::Spawn { expr } => seq![
            Started { task: *expr, what: "spawn"@ },
        ] + started(*expr),
        model::ExprKind::Field { base, .. } => started(*base),
        model::ExprKind::Unary { expr, .. } => started(*expr),
        model::ExprKind::Await { expr } => started(*expr),
        model::ExprKind::Try { expr, .. } => started(*expr),
        model::ExprKind::Scope { body } => started(*body),
        model::ExprKind::ReactorInput { reactor, .. } => started(*reactor),
        model::ExprKind::ReactorExport { reactor, .. } => started(*reactor),
        model::ExprKind::Loop { body } => started(*body),
        model::ExprKind::Binary { lhs, rhs, .. } => started(*lhs) + started(*rhs),
        model::ExprKind::ShortCircuit { lhs, rhs, .. } => started(*lhs) + started(*rhs),
        model::ExprKind::Call { args, .. } => started_all(args),
        model::ExprKind::Builtin { args, .. } => started_all(args),
        model::ExprKind::Construct { args, .. } => started_all(args),
        model::ExprKind::SpawnReactor { args, .. } => started_all(args),
        model::ExprKind::Match { scrutinee, arms } => started(*scrutinee) + started_arms(arms),
        model::ExprKind::If { cond, then, els } => started(*cond) + started(*then)
            + started_maybe(els),
        model::ExprKind::While { cond, body } => started(*cond) + started(*body),
        model::ExprKind::Block { stmts, tail } => started_stmts(stmts) + started_maybe(tail),
        model::ExprKind::Return { value } => started_maybe(value),
        model::ExprKind::Break { value } => started_maybe(value),
        _ => seq![],
    }
}

pub open spec fn started_maybe(e: Option<Box<model::Expr>>) -> Seq<Started>
    decreases e,
{
    match e {
        Some(e) => started(*e),
        None => seq![],
    }
}

pub open spec fn started_all(es: Seq<model::Expr>) -> Seq<Started>
    decreases es,
{
    if es.len() == 0 {
        seq![]
    } else {
        started_all(es.drop_last()) + started(es.last())
    }
}

pub open spec fn started_arms(arms: Seq<model::Arm>) -> Seq<Started>
    decreases arms,
{
    if arms.len() == 0 {
        seq![]
    } else {
        started_arms(arms.drop_last()) + match arms.last().guard {
            Some(guard) => started(guard),
            None => seq![],
        } + started(arms.last().body)
    }
}

pub open spec fn started_stmts(stmts: Seq<model::Stmt>) -> Seq<Started>
    decreases stmts,
{
    if stmts.len() == 0 {
        seq![]
    } else {
        started_stmts(stmts.drop_last()) + started_stmt(stmts.last())
    }
}

pub open spec fn started_stmt(it: model::Stmt) -> Seq<Started>
    decreases it,
{
    match it.kind {
        model::StmtKind::Let { value, .. } => started(value),
        model::StmtKind::Expr(value) => started(value),
        model::StmtKind::Assign { place, value } => started(place) + started(value),
        model::StmtKind::After { task, .. } => seq![
            Started { task, what: "after"@ },
        ] + started(task),
    }
}

spec fn sites_of(s: Seq<(&Expr, &'static str)>) -> Seq<Started> {
    Seq::new(s.len(), |i: int| Started { task: s[i].0@, what: s[i].1@ })
}

/// `spawn` and `after` operands, with the word to blame in the diagnostic.
fn collect_started<'e>(expr: &'e Expr, out: &mut Vec<(&'e Expr, &'static str)>)
    ensures
        sites_of(final(out)@) == sites_of(old(out)@) + started(expr@),
    decreases expr,
{
    let ghost before = sites_of(out@);
    proof {
        expr.look();
    }
    assert(before + seq![] =~= before);
    match &expr.kind {
        ExprKind::Spawn { expr: task } => {
            out.push((task, "spawn"));
            assert(sites_of(out@) =~= before + seq![Started { task: task@, what: "spawn"@ }]);
            collect_started(task, out);
            assert(sites_of(out@) =~= before + (seq![Started { task: task@, what: "spawn"@ }]
                + started(task@)));
        },
        ExprKind::Field { base: inner, .. }
        | ExprKind::Unary { expr: inner, .. }
        | ExprKind::Await { expr: inner }
        | ExprKind::Try { expr: inner, .. }
        | ExprKind::Scope { body: inner }
        | ExprKind::ReactorInput { reactor: inner, .. }
        | ExprKind::ReactorExport { reactor: inner, .. }
        | ExprKind::Loop { body: inner } => collect_started(inner, out),
        ExprKind::Binary { lhs, rhs, .. } | ExprKind::ShortCircuit { lhs, rhs, .. } => {
            collect_started(lhs, out);
            collect_started(rhs, out);
            assert(sites_of(out@) =~= before + (started(lhs@) + started(rhs@)));
        },
        ExprKind::Call { args, .. }
        | ExprKind::Builtin { args, .. }
        | ExprKind::Construct { args, .. }
        | ExprKind::SpawnReactor { args, .. } => collect_started_all(args, out),
        ExprKind::Match { scrutinee, arms } => {
            collect_started(scrutinee, out);
            collect_started_arms(arms, out);
            assert(sites_of(out@) =~= before + (started(scrutinee@) + started_arms(
                arms_of(arms@),
            )));
        },
        ExprKind::If { cond, then, els } => {
            collect_started(cond, out);
            collect_started(then, out);
            collect_started_maybe(els, out);
            assert(sites_of(out@) =~= before + (started(cond@) + started(then@) + started_maybe(
                crate::hir::boxed(*els),
            )));
        },
        ExprKind::While { cond, body } => {
            collect_started(cond, out);
            collect_started(body, out);
            assert(sites_of(out@) =~= before + (started(cond@) + started(body@)));
        },
        ExprKind::Block { stmts, tail } => {
            collect_started_stmts(stmts, out);
            collect_started_maybe(tail, out);
            assert(sites_of(out@) =~= before + (started_stmts(stmts_of(stmts@)) + started_maybe(
                crate::hir::boxed(*tail),
            )));
        },
        ExprKind::Return { value } | ExprKind::Break { value } => collect_started_maybe(
            value,
            out,
        ),
        ExprKind::Unit
        | ExprKind::Int(_)
        | ExprKind::Float(_)
        | ExprKind::Str(_)
        | ExprKind::Bool(_)
        | ExprKind::Local(_)
        | ExprKind::Continue
        | ExprKind::Error => {},
    }
}

fn collect_started_maybe<'e>(
    expr: &'e Option<Box<Expr>>,
    out: &mut Vec<(&'e Expr, &'static str)>,
)
    ensures
        sites_of(final(out)@) == sites_of(old(out)@) + started_maybe(crate::hir::boxed(*expr)),
    decreases expr,
{
    assert(sites_of(out@) + seq![] =~= sites_of(out@));
    if let Some(expr) = expr {
        collect_started(expr, out);
    }
}

fn collect_started_all<'e>(args: &'e Vec<Expr>, out: &mut Vec<(&'e Expr, &'static str)>)
    ensures
        sites_of(final(out)@) == sites_of(old(out)@) + started_all(exprs(args@)),
    decreases args,
{
    let ghost all = exprs(args@);
    let ghost before = sites_of(out@);
    assert(before + seq![] =~= before);
    for i in 0..args.len()
        invariant
            all == exprs(args@),
            sites_of(out@) == before + started_all(all.take(i as int)),
    {
        collect_started(&args[i], out);
        assert(all.take(i + 1).drop_last() =~= all.take(i as int));
        assert(sites_of(out@) =~= before + (started_all(all.take(i as int)) + started(
            args[i as int]@,
        )));
    }
    assert(all.take(args.len() as int) =~= all);
}

fn collect_started_arms<'e>(arms: &'e Vec<Arm>, out: &mut Vec<(&'e Expr, &'static str)>)
    ensures
        sites_of(final(out)@) == sites_of(old(out)@) + started_arms(arms_of(arms@)),
    decreases arms,
{
    let ghost all = arms_of(arms@);
    let ghost before = sites_of(out@);
    assert(before + seq![] =~= before);
    for i in 0..arms.len()
        invariant
            all == arms_of(arms@),
            sites_of(out@) == before + started_arms(all.take(i as int)),
    {
        let arm = &arms[i];
        let ghost guarded = match &arm.guard {
            Some(guard) => started(guard@),
            None => seq![],
        };
        if let Some(guard) = &arm.guard {
            collect_started(guard, out);
        }
        collect_started(&arm.body, out);
        assert(all.take(i + 1).drop_last() =~= all.take(i as int));
        assert(all.take(i + 1).last() == arm@);
        assert(sites_of(out@) =~= before + (started_arms(all.take(i as int)) + guarded + started(
            arm.body@,
        )));
    }
    assert(all.take(arms.len() as int) =~= all);
}

fn collect_started_stmts<'e>(stmts: &'e Vec<Stmt>, out: &mut Vec<(&'e Expr, &'static str)>)
    ensures
        sites_of(final(out)@) == sites_of(old(out)@) + started_stmts(stmts_of(stmts@)),
    decreases stmts,
{
    let ghost all = stmts_of(stmts@);
    let ghost before = sites_of(out@);
    assert(before + seq![] =~= before);
    for i in 0..stmts.len()
        invariant
            all == stmts_of(stmts@),
            sites_of(out@) == before + started_stmts(all.take(i as int)),
    {
        let it = &stmts[i];
        let ghost held = sites_of(out@);
        match &it.kind {
            StmtKind::Let { value, .. } | StmtKind::Expr(value) => {
                collect_started(value, out);
            },
            StmtKind::Assign { place, value } => {
                collect_started(place, out);
                collect_started(value, out);
                assert(sites_of(out@) =~= held + (started(place@) + started(value@)));
            },
            StmtKind::After { task, .. } => {
                out.push((task, "after"));
                assert(sites_of(out@) =~= held + seq![Started { task: task@, what: "after"@ }]);
                collect_started(task, out);
                assert(sites_of(out@) =~= held + (seq![Started { task: task@, what: "after"@ }]
                    + started(task@)));
            },
        }
        assert(all.take(i + 1).drop_last() =~= all.take(i as int));
        assert(all.take(i + 1).last() == it@);
        assert(sites_of(out@) =~= before + (started_stmts(all.take(i as int)) + started_stmt(
            it@,
        )));
    }
    assert(all.take(stmts.len() as int) =~= all);
}

/// How a called function is named in a diagnostic.
pub open spec fn fn_name(p: model::Program, callee: FnId) -> Seq<char> {
    if callee.0 < p.fns.len() {
        p.fns[callee.0 as int].name
    } else {
        "_"@
    }
}

pub open spec fn builtin_name(v: model::Vocabulary, builtin: Builtin) -> Seq<char> {
    if v.knows(builtin) {
        v.builtin(builtin).name
    } else {
        "_"@
    }
}

/// An owned argument handed to started work that would only read it.
pub open spec fn must_own(
    p: model::Program,
    arg: model::Expr,
    callee: Seq<char>,
    what: Seq<char>,
) -> Report {
    let ty = ty_name(p, arg.ty);
    Report::new(
        arg.span,
        "work started with `"@ + what + "` must own its "@ + ty,
    ).label("`"@ + callee + "` only reads this"@).note(
        "the task runs after this line, so a parameter that reads would leave the "@ + ty
            + " with two users and one owner"@,
    ).note(
        "make `"@ + callee
            + "` consume it — close it in the body, or declare the parameter `sink`"@,
    )
}

/// The reports for the arguments of one started call, given each position's mode.
pub open spec fn unowned_args(
    p: model::Program,
    modes: spec_fn(int) -> Mode,
    args: Seq<model::Expr>,
    callee: Seq<char>,
    what: Seq<char>,
    owner: int,
) -> Seq<(int, Report)>
    decreases args.len(),
{
    if args.len() == 0 {
        seq![]
    } else {
        let rest = unowned_args(p, modes, args.drop_last(), callee, what, owner);
        if modes(args.len() - 1) != Mode::Sink && affine(p, args.last().ty) {
            rest.push((owner, must_own(p, args.last(), callee, what)))
        } else {
            rest
        }
    }
}

/// The reports for one piece of started work. A bare task value owes nothing: its arguments moved
/// when it was built.
pub open spec fn unowned_site(
    p: model::Program,
    v: model::Vocabulary,
    modes: Seq<Seq<Mode>>,
    site: Started,
    owner: int,
) -> Seq<(int, Report)> {
    match site.task.kind {
        model::ExprKind::Call { callee, args } => unowned_args(
            p,
            |i: int| mode_at(modes, callee, i),
            args,
            fn_name(p, callee),
            site.what,
            owner,
        ),
        model::ExprKind::Builtin { builtin, args } => unowned_args(
            p,
            |i: int| builtin_mode_at(v, builtin, i),
            args,
            builtin_name(v, builtin),
            site.what,
            owner,
        ),
        _ => seq![],
    }
}

pub open spec fn unowned_sites(
    p: model::Program,
    v: model::Vocabulary,
    modes: Seq<Seq<Mode>>,
    sites: Seq<Started>,
    owner: int,
) -> Seq<(int, Report)>
    decreases sites.len(),
{
    if sites.len() == 0 {
        seq![]
    } else {
        unowned_sites(p, v, modes, sites.drop_last(), owner) + unowned_site(
            p,
            v,
            modes,
            sites.last(),
            owner,
        )
    }
}

/// The work started without owning its arguments, over the first `n` functions.
pub open spec fn unowned(
    p: model::Program,
    v: model::Vocabulary,
    modes: Seq<Seq<Mode>>,
    owners: Seq<usize>,
    n: nat,
) -> Seq<(int, Report)>
    decreases n,
{
    if n == 0 {
        seq![]
    } else {
        unowned(p, v, modes, owners, (n - 1) as nat) + if p.fns[n - 1].inert {
            seq![]
        } else {
            unowned_sites(p, v, modes, started(p.fns[n - 1].body), owners[n - 1] as int)
        }
    }
}

/// Report the owned arguments of one started call that land where they are only read.
fn check_started_args(
    program: &Program,
    affinity: &Affinity,
    args: &Vec<Expr>,
    modes: &Vec<Mode>,
    Ghost(mode): Ghost<spec_fn(int) -> Mode>,
    callee: &str,
    what: &str,
    owner: usize,
    found: &mut Vec<(usize, Diagnostic)>,
)
    requires
        affinity.describes(program@),
        modes.len() == args.len(),
        forall|i: int| 0 <= i < modes.len() ==> #[trigger] modes@[i] == mode(i),
    ensures
        owned(final(found)@) == owned(old(found)@) + unowned_args(
            program@,
            mode,
            exprs(args@),
            callee@,
            what@,
            owner as int,
        ),
{
    let ghost all = exprs(args@);
    let ghost before = owned(found@);
    let ghost p = program@;
    assert(before + seq![] =~= before);
    for i in 0..args.len()
        invariant
            p == program@,
            affinity.describes(p),
            all == exprs(args@),
            modes.len() == args.len(),
            forall|i: int| 0 <= i < modes.len() ==> #[trigger] modes@[i] == mode(i),
            owned(found@) == before + unowned_args(
                p,
                mode,
                all.take(i as int),
                callee@,
                what@,
                owner as int,
            ),
    {
        let arg = &args[i];
        let ghost held = owned(found@);
        let ghost so_far = unowned_args(
            p,
            mode,
            all.take(i as int),
            callee@,
            what@,
            owner as int,
        );
        proof {
            arg.look();
            assert(all.take(i + 1).drop_last() =~= all.take(i as int));
            assert(all.take(i + 1).last() == arg@);
            assert(modes@[i as int] == mode(i as int));
        }
        if modes[i] != Mode::Sink && affinity.holds(Ghost(p), &arg.ty) {
            let ty = program.ty_name(&arg.ty);
            let d = Diagnostic::new(
                arg.span,
                "work started with `".to_owned().concat(what).concat("` must own its ").concat(
                    ty.as_str(),
                ),
            ).label("`".to_owned().concat(callee).concat("` only reads this").as_str()).note(
                "the task runs after this line, so a parameter that reads would leave the ".to_owned().concat(
                    ty.as_str(),
                ).concat(" with two users and one owner").as_str(),
            ).note(
                "make `".to_owned().concat(callee).concat(
                    "` consume it — close it in the body, or declare the parameter `sink`",
                ).as_str(),
            );
            let ghost r = d@;
            assert(r == must_own(p, arg@, callee@, what@));
            found.push((owner, d));
            assert(owned(found@) =~= held.push((owner as int, r)));
            assert((before + so_far).push((owner as int, r)) =~= before + so_far.push(
                (owner as int, r),
            ));
        }
    }
    assert(all.take(args.len() as int) =~= all);
}

fn check_started(
    program: &Program,
    vocabulary: &Vocabulary,
    affinity: &Affinity,
    param_modes: &Vec<Vec<Mode>>,
    task: &Expr,
    what: &str,
    owner: usize,
    found: &mut Vec<(usize, Diagnostic)>,
)
    requires
        affinity.describes(program@),
    ensures
        owned(final(found)@) == owned(old(found)@) + unowned_site(
            program@,
            vocabulary@,
            rows(param_modes@),
            (Started { task: task@, what: what@ }),
            owner as int,
        ),
{
    let ghost m = rows(param_modes@);
    let ghost v = vocabulary@;
    proof {
        task.look();
    }
    assert(owned(found@) + seq![] =~= owned(found@));
    match &task.kind {
        ExprKind::Call { callee, args } => {
            let name = if callee.index() < program.fns.len() {
                program.fns[callee.index()].name.clone()
            } else {
                "_".to_owned()
            };
            let mut modes: Vec<Mode> = Vec::new();
            for i in 0..args.len()
                invariant
                    m == rows(param_modes@),
                    modes.len() == i,
                    forall|j: int| 0 <= j < i ==> #[trigger] modes@[j] == mode_at(m, *callee, j),
            {
                modes.push(mode_of(param_modes, *callee, i));
            }
            check_started_args(
                program,
                affinity,
                args,
                &modes,
                Ghost(|i: int| mode_at(m, *callee, i)),
                name.as_str(),
                what,
                owner,
                found,
            );
        },
        ExprKind::Builtin { builtin, args } => {
            let known = match builtin {
                Builtin::Host(entry) => (*entry as usize) < vocabulary.host.len(),
                _ => true,
            };
            let name = if known {
                vocabulary.builtin(*builtin).name.clone()
            } else {
                "_".to_owned()
            };
            let mut modes: Vec<Mode> = Vec::new();
            for i in 0..args.len()
                invariant
                    v == vocabulary@,
                    modes.len() == i,
                    forall|j: int|
                        0 <= j < i ==> #[trigger] modes@[j] == builtin_mode_at(v, *builtin, j),
            {
                modes.push(builtin_mode_of(vocabulary, *builtin, i));
            }
            check_started_args(
                program,
                affinity,
                args,
                &modes,
                Ghost(|i: int| builtin_mode_at(v, *builtin, i)),
                name.as_str(),
                what,
                owner,
                found,
            );
        },
        _ => {},
    }
}

/// The spawn rule: work started by `spawn` or `after` outlives the call that built it, so an
/// affine argument must land on a `Sink` parameter.
fn enforce_task_ownership(
    program: &Program,
    vocabulary: &Vocabulary,
    affinity: &Affinity,
    param_modes: &Vec<Vec<Mode>>,
    fn_owner: &Vec<usize>,
) -> (found: Vec<(usize, Diagnostic)>)
    requires
        affinity.describes(program@),
        fn_owner.len() == program.fns.len(),
    ensures
        owned(found@) == unowned(
            program@,
            vocabulary@,
            rows(param_modes@),
            fn_owner@,
            program@.fns.len(),
        ),
{
    let ghost p = program@;
    let ghost v = vocabulary@;
    let ghost m = rows(param_modes@);
    let mut found: Vec<(usize, Diagnostic)> = Vec::new();
    assert(owned(found@) =~= seq![]);
    for index in 0..program.fns.len()
        invariant
            p == program@,
            v == vocabulary@,
            m == rows(param_modes@),
            affinity.describes(p),
            fn_owner.len() == program.fns.len(),
            owned(found@) == unowned(p, v, m, fn_owner@, index as nat),
    {
        let def = &program.fns[index];
        let ghost before = owned(found@);
        let owner: usize = fn_owner[index];
        assert(before + seq![] =~= before);
        if !def.inert {
            let mut sites: Vec<(&Expr, &'static str)> = Vec::new();
            assert(sites_of(sites@) =~= seq![]);
            collect_started(&def.body, &mut sites);
            let ghost all = sites_of(sites@);
            assert(all =~= started(def@.body));
            for k in 0..sites.len()
                invariant
                    p == program@,
                    v == vocabulary@,
                    m == rows(param_modes@),
                    affinity.describes(p),
                    all == sites_of(sites@),
                    owned(found@) == before + unowned_sites(
                        p,
                        v,
                        m,
                        all.take(k as int),
                        owner as int,
                    ),
            {
                let (task, what) = sites[k];
                check_started(
                    program,
                    vocabulary,
                    affinity,
                    param_modes,
                    task,
                    what,
                    owner,
                    &mut found,
                );
                assert(all.take(k + 1).drop_last() =~= all.take(k as int));
                assert(owned(found@) =~= before + (unowned_sites(
                    p,
                    v,
                    m,
                    all.take(k as int),
                    owner as int,
                ) + unowned_site(
                    p,
                    v,
                    m,
                    Started { task: task@, what: what@ },
                    owner as int,
                )));
            }
            assert(all.take(sites.len() as int) =~= all);
        }
    }
    found
}

// ---------------------------------------------------------------- the pass

/// Settle every parameter's mode, and enforce what rides on settled modes. The table is padded to
/// each function's arity first.
pub fn infer_sinks(
    program: &Program,
    vocabulary: &Vocabulary,
    param_modes: &mut Vec<Vec<Mode>>,
    mode_pinned: &mut Vec<Vec<bool>>,
    fn_owner: &Vec<usize>,
    errors: &mut Vec<Vec<Diagnostic>>,
)
    requires
        old(param_modes).len() == program.fns.len(),
        old(mode_pinned).len() == program.fns.len(),
        fn_owner.len() == program.fns.len(),
    ensures
        pin_rows(final(mode_pinned)@) == padded_pins(program@, pin_rows(old(mode_pinned)@)),
        settles(
            program@,
            vocabulary@,
            pin_rows(final(mode_pinned)@),
            padded(program@, rows(old(param_modes)@)),
            rows(final(param_modes)@),
        ),
        filed(final(errors)@) == file_each(
            file_each(
                filed(old(errors)@),
                pins(
                    program@,
                    vocabulary@,
                    pin_rows(final(mode_pinned)@),
                    rows(final(param_modes)@),
                    fn_owner@,
                    program@.fns.len(),
                ),
            ),
            unowned(
                program@,
                vocabulary@,
                rows(final(param_modes)@),
                fn_owner@,
                program@.fns.len(),
            ),
        ),
{
    pad(program, param_modes, mode_pinned);
    let affinity = Affinity::of(program);
    infer(program, vocabulary, &affinity, mode_pinned, param_modes);
    let found = enforce_pins(
        program,
        vocabulary,
        &affinity,
        mode_pinned,
        param_modes,
        fn_owner,
    );
    report_each(errors, found);
    let found = enforce_task_ownership(program, vocabulary, &affinity, param_modes, fn_owner);
    report_each(errors, found);
}

} // verus!
