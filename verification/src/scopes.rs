//! Free names: where in a tree a name still means what it means outside it.
//!
//! One relation says which direct parts of an expression a name reaches without being bound on the
//! way. What the scan of a reactor's bodies finds, and so what a plan holds, is said over it alone.

use vstd::prelude::*;
use crate::ast;
use crate::scan::{
    bind_params, bind_pat, bind_pat_args, bind_pats, frame_holds, head_name, mentioned,
    mentioned_by_handler, mentions, scan_arm, scan_args, scan_arms, scan_block, scan_expr,
    scan_stmt, scan_stmts, told_the_same, written, Found,
};
use crate::span::Span;
use crate::state::{builtin_variant, Sort};

verus! {

// ---------------------------------------------------------------- names in scope

/// A pattern binds `n`. The bare constructor names match and never bind.
pub open spec fn binds_name(p: ast::Pat, n: Seq<char>) -> bool
    decreases p,
{
    match p.kind {
        ast::PatKind::Binding(name) => name.name@ == n && !builtin_variant(n),
        ast::PatKind::Construct { args, .. } => exists|k: int|
            0 <= k < args@.len() && binds_name((#[trigger] args@[k]).pat, n),
        ast::PatKind::Or(alts) => exists|k: int|
            0 <= k < alts@.len() && binds_name(#[trigger] alts@[k], n),
        _ => false,
    }
}

pub open spec fn any_binds(ps: Seq<ast::Pat>, n: Seq<char>) -> bool {
    exists|k: int| 0 <= k < ps.len() && binds_name(#[trigger] ps[k], n)
}

/// A name and nothing more.
pub open spec fn lone(e: ast::Expr) -> bool {
    e.kind is Path && e.kind->Path_0.rest@.len() == 0
}

/// Whether what is assigned is `n`, or a part of it.
pub open spec fn rooted(e: ast::Expr, n: Seq<char>) -> bool
    decreases e,
{
    match e.kind {
        ast::ExprKind::Path(path) => path.head.name@ == n,
        ast::ExprKind::Field { base, .. } => rooted(*base, n),
        ast::ExprKind::Index { base, .. } => rooted(*base, n),
        _ => false,
    }
}

/// A statement looks at `x`. What is assigned to by a lone name is not looked at.
pub open spec fn stmt_part(it: ast::Stmt, x: ast::Expr) -> bool {
    match it.kind {
        ast::StmtKind::Let { value, .. } => x == value,
        ast::StmtKind::Assign { target, value } => x == value || (x == target && !lone(target)),
        ast::StmtKind::Return(value) => value == Some(x),
        ast::StmtKind::After { task, .. } => x == task,
        ast::StmtKind::Expr(e) => x == e,
    }
}

pub open spec fn stmt_binds(it: ast::Stmt, n: Seq<char>) -> bool {
    it.kind is Let && it.kind->Let_name.name@ == n
}

pub open spec fn stmt_writes(it: ast::Stmt, n: Seq<char>) -> bool {
    it.kind is Assign && rooted(it.kind->Assign_target, n)
}

/// No statement before the one at `k` binds `n`.
pub open spec fn unbound_before(stmts: Seq<ast::Stmt>, n: Seq<char>, k: int) -> bool {
    forall|j: int| 0 <= j < k && j < stmts.len() ==> !stmt_binds(#[trigger] stmts[j], n)
}

/// A block looks at `x` where `n` is not bound yet.
pub open spec fn block_part(b: ast::Block, n: Seq<char>, x: ast::Expr) -> bool {
    exists|k: int|
        0 <= k < b.stmts@.len() && stmt_part(#[trigger] b.stmts@[k], x) && unbound_before(
            b.stmts@,
            n,
            k,
        )
}

/// A block assigns `n`, or a part of it, where it is not bound yet.
pub open spec fn block_writes(b: ast::Block, n: Seq<char>) -> bool {
    exists|k: int|
        0 <= k < b.stmts@.len() && stmt_writes(#[trigger] b.stmts@[k], n) && unbound_before(
            b.stmts@,
            n,
            k,
        )
}

pub open spec fn arm_part(arm: ast::Arm, n: Seq<char>, x: ast::Expr) -> bool {
    !binds_name(arm.pat, n) && (x == arm.body || arm.guard == Some(x))
}

pub open spec fn args_hold(args: Seq<ast::Arg>, x: ast::Expr) -> bool {
    exists|k: int| 0 <= k < args.len() && x == (#[trigger] args[k]).value
}

/// `x` is a direct part of `e` in which `n` means what it means around `e`.
pub open spec fn free_part(e: ast::Expr, n: Seq<char>, x: ast::Expr) -> bool {
    match e.kind {
        ast::ExprKind::Field { base, .. } => x == *base,
        ast::ExprKind::Unary { expr, .. } => x == *expr,
        ast::ExprKind::Await(expr) => x == *expr,
        ast::ExprKind::Spawn(expr) => x == *expr,
        ast::ExprKind::Try(expr) => x == *expr,
        ast::ExprKind::Binary { lhs, rhs, .. } => x == *lhs || x == *rhs,
        ast::ExprKind::Index { base, index } => x == *base || x == *index,
        ast::ExprKind::Call { callee, args, .. } => (x == *callee && !(callee.kind is Path))
            || args_hold(args@, x),
        ast::ExprKind::SpawnReactor { args, .. } => args_hold(args@, x),
        ast::ExprKind::Block(block) => block_part(block, n, x),
        ast::ExprKind::Scope(block) => block_part(block, n, x),
        ast::ExprKind::If { cond, then, els } => x == *cond || block_part(then, n, x) || els
            == Some(Box::new(x)),
        ast::ExprKind::While { cond, body } => x == *cond || block_part(body, n, x),
        ast::ExprKind::Loop { body } => block_part(body, n, x),
        ast::ExprKind::Break { value } => value == Some(Box::new(x)),
        ast::ExprKind::Match { scrutinee, arms } => x == *scrutinee || exists|k: int|
            0 <= k < arms@.len() && arm_part(#[trigger] arms@[k], n, x),
        ast::ExprKind::Lambda { params, body } => x == *body && !any_binds(params@, n),
        _ => false,
    }
}

/// `e` is the name `n`, or a path that starts with it.
pub open spec fn is_name(e: ast::Expr, n: Seq<char>) -> bool {
    e.kind is Path && e.kind->Path_0.head.name@ == n
}

/// `e` calls `n`.
pub open spec fn is_call(e: ast::Expr, n: Seq<char>) -> bool {
    e.kind is Call && lone(*e.kind->Call_callee) && is_name(*e.kind->Call_callee, n)
}

/// A statement of `e` itself assigns `n`, or a part of it.
pub open spec fn is_write(e: ast::Expr, n: Seq<char>) -> bool {
    match e.kind {
        ast::ExprKind::Block(block) => block_writes(block, n),
        ast::ExprKind::Scope(block) => block_writes(block, n),
        ast::ExprKind::If { then, .. } => block_writes(then, n),
        ast::ExprKind::While { body, .. } => block_writes(body, n),
        ast::ExprKind::Loop { body } => block_writes(body, n),
        _ => false,
    }
}

proof fn block_parts_are_smaller(b: ast::Block, n: Seq<char>, x: ast::Expr)
    requires
        block_part(b, n, x),
    ensures
        decreases_to!(b => x),
{
    let stmts = b.stmts@;
    let k = choose|k: int|
        0 <= k < stmts.len() && stmt_part(#[trigger] stmts[k], x) && unbound_before(stmts, n, k);
    assert(decreases_to!(b => b.stmts));
    assert(decreases_to!(b.stmts => b.stmts@));
    assert(decreases_to!(b.stmts@ => b.stmts@[k]));
    match stmts[k].kind {
        ast::StmtKind::Let { value, .. } => assert(decreases_to!(stmts[k] => value)),
        ast::StmtKind::Assign { target, value } => {
            assert(decreases_to!(stmts[k] => value));
            assert(decreases_to!(stmts[k] => target));
        },
        ast::StmtKind::Return(value) => assert(decreases_to!(stmts[k] => value->0)),
        ast::StmtKind::After { task, .. } => assert(decreases_to!(stmts[k] => task)),
        ast::StmtKind::Expr(y) => assert(decreases_to!(stmts[k] => y)),
    }
}

proof fn args_are_smaller(e: ast::Expr, args: Vec<ast::Arg>, x: ast::Expr)
    requires
        decreases_to!(e => args),
        args_hold(args@, x),
    ensures
        decreases_to!(e => x),
{
    let k = choose|k: int| 0 <= k < args@.len() && x == (#[trigger] args@[k]).value;
    assert(decreases_to!(args => args@));
    assert(decreases_to!(args@ => args@[k]));
    assert(decreases_to!(args@[k] => args@[k].value));
}

/// A part is smaller than the whole.
pub proof fn free_parts_are_smaller(e: ast::Expr, n: Seq<char>, x: ast::Expr)
    requires
        free_part(e, n, x),
    ensures
        decreases_to!(e => x),
{
    match e.kind {
        ast::ExprKind::Call { callee, args, .. } => {
            if args_hold(args@, x) {
                args_are_smaller(e, args, x);
            } else {
                assert(decreases_to!(e => *callee));
            }
        },
        ast::ExprKind::SpawnReactor { args, .. } => args_are_smaller(e, args, x),
        ast::ExprKind::Block(block) => block_parts_are_smaller(block, n, x),
        ast::ExprKind::Scope(block) => block_parts_are_smaller(block, n, x),
        ast::ExprKind::If { cond, then, els } => {
            if x == *cond {
                assert(decreases_to!(e => *cond));
            } else if block_part(then, n, x) {
                block_parts_are_smaller(then, n, x);
            } else {
                assert(decreases_to!(e => *els->0));
            }
        },
        ast::ExprKind::While { cond, body } => {
            if x == *cond {
                assert(decreases_to!(e => *cond));
            } else {
                block_parts_are_smaller(body, n, x);
            }
        },
        ast::ExprKind::Loop { body } => block_parts_are_smaller(body, n, x),
        ast::ExprKind::Break { value } => assert(decreases_to!(e => *value->0)),
        ast::ExprKind::Match { scrutinee, arms } => {
            if x == *scrutinee {
                assert(decreases_to!(e => *scrutinee));
            } else {
                let k = choose|k: int| 0 <= k < arms@.len() && arm_part(#[trigger] arms@[k], n, x);
                assert(decreases_to!(e => arms));
                assert(decreases_to!(arms => arms@));
                assert(decreases_to!(arms@ => arms@[k]));
                if x == arms@[k].body {
                    assert(decreases_to!(arms@[k] => arms@[k].body));
                } else {
                    assert(decreases_to!(arms@[k] => arms@[k].guard->0));
                }
            }
        },
        _ => {},
    }
}

/// `n` is read in `e` where it is free.
pub open spec fn free_reads(e: ast::Expr, n: Seq<char>) -> bool
    decreases e,
{
    ||| is_name(e, n)
    ||| exists|x: ast::Expr| #[trigger]
        free_part(e, n, x) && decreases_to!(e => x) && free_reads(x, n)
}

/// `n` is called in `e` where it is free.
pub open spec fn free_calls(e: ast::Expr, n: Seq<char>) -> bool
    decreases e,
{
    ||| is_call(e, n)
    ||| exists|x: ast::Expr| #[trigger]
        free_part(e, n, x) && decreases_to!(e => x) && free_calls(x, n)
}

/// `n`, or a part of it, is assigned in `e` where it is free.
pub open spec fn free_writes(e: ast::Expr, n: Seq<char>) -> bool
    decreases e,
{
    ||| is_write(e, n)
    ||| exists|x: ast::Expr| #[trigger]
        free_part(e, n, x) && decreases_to!(e => x) && free_writes(x, n)
}

// ---------------------------------------------------------------- counting them together

/// How a name is used.
pub struct Uses {
    pub reads: bool,
    pub calls: bool,
    pub writes: bool,
}

pub open spec fn unused() -> Uses {
    Uses { reads: false, calls: false, writes: false }
}

pub open spec fn either(a: Uses, b: Uses) -> Uses {
    Uses {
        reads: a.reads || b.reads,
        calls: a.calls || b.calls,
        writes: a.writes || b.writes,
    }
}

#[verifier::opaque]
pub open spec fn uses_of(e: ast::Expr, n: Seq<char>) -> Uses {
    Uses { reads: free_reads(e, n), calls: free_calls(e, n), writes: free_writes(e, n) }
}

pub open spec fn own_uses(e: ast::Expr, n: Seq<char>) -> Uses {
    Uses { reads: is_name(e, n), calls: is_call(e, n), writes: is_write(e, n) }
}

proof fn uses_unfold(e: ast::Expr, n: Seq<char>)
    ensures
        ({
            let u = uses_of(e, n);
            let o = own_uses(e, n);
            &&& u.reads <==> o.reads || exists|x: ast::Expr| #[trigger]
                free_part(e, n, x) && uses_of(x, n).reads
            &&& u.calls <==> o.calls || exists|x: ast::Expr| #[trigger]
                free_part(e, n, x) && uses_of(x, n).calls
            &&& u.writes <==> o.writes || exists|x: ast::Expr| #[trigger]
                free_part(e, n, x) && uses_of(x, n).writes
        }),
{
    reveal(uses_of);
    assert forall|x: ast::Expr| #[trigger] free_part(e, n, x) implies decreases_to!(e => x) by {
        free_parts_are_smaller(e, n, x);
    }
}

proof fn uses_of_none(e: ast::Expr, n: Seq<char>)
    requires
        forall|x: ast::Expr| !#[trigger] free_part(e, n, x),
    ensures
        uses_of(e, n) == own_uses(e, n),
{
    uses_unfold(e, n);
}

proof fn uses_of_one(e: ast::Expr, n: Seq<char>, a: ast::Expr)
    requires
        forall|x: ast::Expr| #[trigger] free_part(e, n, x) <==> x == a,
    ensures
        uses_of(e, n) == either(own_uses(e, n), uses_of(a, n)),
{
    uses_unfold(e, n);
    assert(free_part(e, n, a));
}

proof fn uses_of_two(e: ast::Expr, n: Seq<char>, a: ast::Expr, b: ast::Expr)
    requires
        forall|x: ast::Expr| #[trigger] free_part(e, n, x) <==> x == a || x == b,
    ensures
        uses_of(e, n) == either(own_uses(e, n), either(uses_of(a, n), uses_of(b, n))),
{
    uses_unfold(e, n);
    assert(free_part(e, n, a));
    assert(free_part(e, n, b));
}

pub open spec fn args_uses(args: Seq<ast::Arg>, n: Seq<char>) -> Uses {
    Uses {
        reads: exists|k: int| 0 <= k < args.len() && uses_of((#[trigger] args[k]).value, n).reads,
        calls: exists|k: int| 0 <= k < args.len() && uses_of((#[trigger] args[k]).value, n).calls,
        writes: exists|k: int|
            0 <= k < args.len() && uses_of((#[trigger] args[k]).value, n).writes,
    }
}

proof fn args_uses_more(args: Seq<ast::Arg>, n: Seq<char>)
    requires
        args.len() > 0,
    ensures
        args_uses(args, n) == either(
            args_uses(args.drop_last(), n),
            uses_of(args.last().value, n),
        ),
{
    let init = args.drop_last();
    let u = args_uses(args, n);
    let w = either(args_uses(init, n), uses_of(args.last().value, n));
    assert forall|k: int| 0 <= k < init.len() implies #[trigger] init[k] == args[k] by {}
    assert forall|k: int| 0 <= k < args.len() implies #[trigger] args[k] == if k < init.len() {
        init[k]
    } else {
        args.last()
    } by {}
    assert(args[args.len() - 1] == args.last());
    assert(u.reads == w.reads);
    assert(u.calls == w.calls);
    assert(u.writes == w.writes);
}

proof fn uses_of_args(e: ast::Expr, n: Seq<char>, args: Seq<ast::Arg>)
    requires
        forall|x: ast::Expr| #[trigger] free_part(e, n, x) <==> args_hold(args, x),
    ensures
        uses_of(e, n) == either(own_uses(e, n), args_uses(args, n)),
{
    uses_unfold(e, n);
    let u = uses_of(e, n);
    let w = either(own_uses(e, n), args_uses(args, n));
    assert forall|k: int| 0 <= k < args.len() implies free_part(
        e,
        n,
        (#[trigger] args[k]).value,
    ) by {
        assert(args_hold(args, args[k].value));
    }
    assert(u.reads == w.reads);
    assert(u.calls == w.calls);
    assert(u.writes == w.writes);
}

proof fn uses_of_call(e: ast::Expr, n: Seq<char>, callee: ast::Expr, args: Seq<ast::Arg>)
    requires
        forall|x: ast::Expr| #[trigger]
            free_part(e, n, x) <==> x == callee || args_hold(args, x),
    ensures
        uses_of(e, n) == either(own_uses(e, n), either(uses_of(callee, n), args_uses(args, n))),
{
    uses_unfold(e, n);
    let u = uses_of(e, n);
    let w = either(own_uses(e, n), either(uses_of(callee, n), args_uses(args, n)));
    assert(free_part(e, n, callee));
    assert forall|k: int| 0 <= k < args.len() implies free_part(
        e,
        n,
        (#[trigger] args[k]).value,
    ) by {
        assert(args_hold(args, args[k].value));
    }
    assert(u.reads == w.reads);
    assert(u.calls == w.calls);
    assert(u.writes == w.writes);
}

// ---------------------------------------------------------------- blocks

pub open spec fn maybe_uses(e: Option<Box<ast::Expr>>, n: Seq<char>) -> Uses {
    match e {
        Some(e) => uses_of(*e, n),
        None => unused(),
    }
}

pub open spec fn stmt_uses(it: ast::Stmt, n: Seq<char>) -> Uses {
    match it.kind {
        ast::StmtKind::Let { value, .. } => uses_of(value, n),
        ast::StmtKind::Assign { target, value } => either(
            uses_of(value, n),
            either(
                if lone(target) {
                    unused()
                } else {
                    uses_of(target, n)
                },
                Uses { writes: rooted(target, n), ..unused() },
            ),
        ),
        ast::StmtKind::Return(value) => match value {
            Some(value) => uses_of(value, n),
            None => unused(),
        },
        ast::StmtKind::After { task, .. } => uses_of(task, n),
        ast::StmtKind::Expr(e) => uses_of(e, n),
    }
}

proof fn uses_of_stmt(it: ast::Stmt, n: Seq<char>)
    ensures
        ({
            let u = stmt_uses(it, n);
            &&& u.reads <==> exists|x: ast::Expr| #[trigger] stmt_part(it, x) && uses_of(x, n).reads
            &&& u.calls <==> exists|x: ast::Expr| #[trigger] stmt_part(it, x) && uses_of(x, n).calls
            &&& u.writes <==> stmt_writes(it, n) || exists|x: ast::Expr| #[trigger]
                stmt_part(it, x) && uses_of(x, n).writes
        }),
{
    match it.kind {
        ast::StmtKind::Let { value, .. } => assert(stmt_part(it, value)),
        ast::StmtKind::Assign { target, value } => {
            assert(stmt_part(it, value));
            if !lone(target) {
                assert(stmt_part(it, target));
            }
        },
        ast::StmtKind::Return(value) => {
            if value is Some {
                assert(stmt_part(it, value->0));
            }
        },
        ast::StmtKind::After { task, .. } => assert(stmt_part(it, task)),
        ast::StmtKind::Expr(e) => assert(stmt_part(it, e)),
    }
}

/// How a list of statements uses a name, up to where it is bound.
pub open spec fn stmts_uses(stmts: Seq<ast::Stmt>, n: Seq<char>) -> Uses {
    Uses {
        reads: exists|k: int|
            0 <= k < stmts.len() && unbound_before(stmts, n, k) && stmt_uses(
                #[trigger] stmts[k],
                n,
            ).reads,
        calls: exists|k: int|
            0 <= k < stmts.len() && unbound_before(stmts, n, k) && stmt_uses(
                #[trigger] stmts[k],
                n,
            ).calls,
        writes: exists|k: int|
            0 <= k < stmts.len() && unbound_before(stmts, n, k) && stmt_uses(
                #[trigger] stmts[k],
                n,
            ).writes,
    }
}

proof fn stmts_uses_more(stmts: Seq<ast::Stmt>, n: Seq<char>)
    requires
        stmts.len() > 0,
    ensures
        stmts_uses(stmts, n) == either(
            stmts_uses(stmts.drop_last(), n),
            if unbound_before(stmts, n, stmts.len() - 1) {
                stmt_uses(stmts.last(), n)
            } else {
                unused()
            },
        ),
        unbound_before(stmts, n, stmts.len() - 1) == unbound_before(
            stmts.drop_last(),
            n,
            stmts.len() - 1,
        ),
        unbound_before(stmts, n, stmts.len() as int) == (unbound_before(stmts, n, stmts.len() - 1)
            && !stmt_binds(stmts.last(), n)),
{
    let init = stmts.drop_last();
    let last = stmts.len() - 1;
    assert forall|k: int| 0 <= k < init.len() implies #[trigger] init[k] == stmts[k] by {}
    assert forall|k: int| 0 <= k <= last implies #[trigger] unbound_before(stmts, n, k)
        == unbound_before(init, n, k) by {
        assert forall|j: int| 0 <= j < k && j < init.len() implies #[trigger] init[j]
            == stmts[j] by {}
        if unbound_before(stmts, n, k) {
            assert forall|j: int| 0 <= j < k && j < init.len() implies !stmt_binds(
                #[trigger] init[j],
                n,
            ) by {
                assert(!stmt_binds(stmts[j], n));
            }
        }
        if unbound_before(init, n, k) {
            assert forall|j: int| 0 <= j < k && j < stmts.len() implies !stmt_binds(
                #[trigger] stmts[j],
                n,
            ) by {
                assert(!stmt_binds(init[j], n));
            }
        }
    }
    assert(stmts[last] == stmts.last());
    if unbound_before(stmts, n, stmts.len() as int) {
        assert(!stmt_binds(stmts[last], n));
    }
    let u = stmts_uses(stmts, n);
    let w = either(
        stmts_uses(init, n),
        if unbound_before(stmts, n, last) {
            stmt_uses(stmts.last(), n)
        } else {
            unused()
        },
    );
    assert forall|k: int| 0 <= k < stmts.len() implies #[trigger] stmts[k] == if k < last {
        init[k]
    } else {
        stmts.last()
    } by {}
    assert(u.reads == w.reads);
    assert(u.calls == w.calls);
    assert(u.writes == w.writes);
}

/// What a block comes to, by its parts.
proof fn uses_of_block(b: ast::Block, n: Seq<char>)
    ensures
        ({
            let u = stmts_uses(b.stmts@, n);
            &&& u.reads <==> exists|x: ast::Expr| #[trigger]
                block_part(b, n, x) && uses_of(x, n).reads
            &&& u.calls <==> exists|x: ast::Expr| #[trigger]
                block_part(b, n, x) && uses_of(x, n).calls
            &&& u.writes <==> block_writes(b, n) || exists|x: ast::Expr| #[trigger]
                block_part(b, n, x) && uses_of(x, n).writes
        }),
{
    let stmts = b.stmts@;
    let u = stmts_uses(stmts, n);
    assert forall|k: int| 0 <= k < stmts.len() && unbound_before(stmts, n, k) implies ({
        let w = stmt_uses(#[trigger] stmts[k], n);
        &&& w.reads ==> exists|x: ast::Expr| #[trigger] block_part(b, n, x) && uses_of(x, n).reads
        &&& w.calls ==> exists|x: ast::Expr| #[trigger] block_part(b, n, x) && uses_of(x, n).calls
        &&& w.writes ==> block_writes(b, n) || exists|x: ast::Expr| #[trigger]
            block_part(b, n, x) && uses_of(x, n).writes
    }) by {
        uses_of_stmt(stmts[k], n);
        assert forall|x: ast::Expr| #[trigger] stmt_part(stmts[k], x) implies block_part(
            b,
            n,
            x,
        ) by {}
    }
    assert forall|x: ast::Expr| #[trigger] block_part(b, n, x) implies (uses_of(x, n).reads
        ==> u.reads) && (uses_of(x, n).calls ==> u.calls) && (uses_of(x, n).writes ==> u.writes) by {
        let k = choose|k: int|
            0 <= k < stmts.len() && stmt_part(#[trigger] stmts[k], x) && unbound_before(
                stmts,
                n,
                k,
            );
        uses_of_stmt(stmts[k], n);
    }
    if block_writes(b, n) {
        let k = choose|k: int|
            0 <= k < stmts.len() && stmt_writes(#[trigger] stmts[k], n) && unbound_before(
                stmts,
                n,
                k,
            );
        uses_of_stmt(stmts[k], n);
    }
}

proof fn uses_by_blocks(e: ast::Expr, n: Seq<char>)
    ensures
        match e.kind {
            ast::ExprKind::Block(b) => uses_of(e, n) == stmts_uses(b.stmts@, n),
            ast::ExprKind::Scope(b) => uses_of(e, n) == stmts_uses(b.stmts@, n),
            ast::ExprKind::Loop { body } => uses_of(e, n) == stmts_uses(body.stmts@, n),
            ast::ExprKind::While { cond, body } => uses_of(e, n) == either(
                uses_of(*cond, n),
                stmts_uses(body.stmts@, n),
            ),
            ast::ExprKind::If { cond, then, els } => uses_of(e, n) == either(
                either(uses_of(*cond, n), stmts_uses(then.stmts@, n)),
                maybe_uses(els, n),
            ),
            _ => true,
        },
{
    uses_unfold(e, n);
    let u = uses_of(e, n);
    match e.kind {
        ast::ExprKind::Block(b) => {
            uses_of_block(b, n);
            let w = stmts_uses(b.stmts@, n);
            assert forall|x: ast::Expr| #[trigger] block_part(b, n, x) implies free_part(
                e,
                n,
                x,
            ) by {}
            assert(u.reads == w.reads && u.calls == w.calls && u.writes == w.writes);
        },
        ast::ExprKind::Scope(b) => {
            uses_of_block(b, n);
            let w = stmts_uses(b.stmts@, n);
            assert forall|x: ast::Expr| #[trigger] block_part(b, n, x) implies free_part(
                e,
                n,
                x,
            ) by {}
            assert(u.reads == w.reads && u.calls == w.calls && u.writes == w.writes);
        },
        ast::ExprKind::Loop { body: b } => {
            uses_of_block(b, n);
            let w = stmts_uses(b.stmts@, n);
            assert forall|x: ast::Expr| #[trigger] block_part(b, n, x) implies free_part(
                e,
                n,
                x,
            ) by {}
            assert(u.reads == w.reads && u.calls == w.calls && u.writes == w.writes);
        },
        ast::ExprKind::While { cond, body: b } => {
            uses_of_block(b, n);
            let w = either(uses_of(*cond, n), stmts_uses(b.stmts@, n));
            assert(free_part(e, n, *cond));
            assert forall|x: ast::Expr| #[trigger] block_part(b, n, x) implies free_part(
                e,
                n,
                x,
            ) by {}
            assert(u.reads == w.reads);
            assert(u.calls == w.calls);
            assert(u.writes == w.writes);
        },
        ast::ExprKind::If { cond, then: b, els } => {
            uses_of_block(b, n);
            let w = either(
                either(uses_of(*cond, n), stmts_uses(b.stmts@, n)),
                maybe_uses(els, n),
            );
            assert(free_part(e, n, *cond));
            if els is Some {
                assert(els == Some(Box::new(*els->0)));
                assert(free_part(e, n, *els->0));
            }
            assert forall|x: ast::Expr| #[trigger] block_part(b, n, x) implies free_part(
                e,
                n,
                x,
            ) by {}
            assert(u.reads == w.reads);
            assert(u.calls == w.calls);
            assert(u.writes == w.writes);
        },
        _ => {},
    }
}

// ---------------------------------------------------------------- arms

pub open spec fn arm_uses(arm: ast::Arm, n: Seq<char>) -> Uses {
    if binds_name(arm.pat, n) {
        unused()
    } else {
        either(
            match arm.guard {
                Some(guard) => uses_of(guard, n),
                None => unused(),
            },
            uses_of(arm.body, n),
        )
    }
}

pub open spec fn arms_uses(arms: Seq<ast::Arm>, n: Seq<char>) -> Uses {
    Uses {
        reads: exists|k: int| 0 <= k < arms.len() && arm_uses(#[trigger] arms[k], n).reads,
        calls: exists|k: int| 0 <= k < arms.len() && arm_uses(#[trigger] arms[k], n).calls,
        writes: exists|k: int| 0 <= k < arms.len() && arm_uses(#[trigger] arms[k], n).writes,
    }
}

proof fn arms_uses_more(arms: Seq<ast::Arm>, n: Seq<char>)
    requires
        arms.len() > 0,
    ensures
        arms_uses(arms, n) == either(arms_uses(arms.drop_last(), n), arm_uses(arms.last(), n)),
{
    let init = arms.drop_last();
    let u = arms_uses(arms, n);
    let w = either(arms_uses(init, n), arm_uses(arms.last(), n));
    assert forall|k: int| 0 <= k < init.len() implies #[trigger] init[k] == arms[k] by {}
    assert forall|k: int| 0 <= k < arms.len() implies #[trigger] arms[k] == if k < init.len() {
        init[k]
    } else {
        arms.last()
    } by {}
    assert(arms[arms.len() - 1] == arms.last());
    assert(u.reads == w.reads);
    assert(u.calls == w.calls);
    assert(u.writes == w.writes);
}

proof fn uses_of_match(e: ast::Expr, n: Seq<char>)
    requires
        e.kind is Match,
    ensures
        uses_of(e, n) == either(
            uses_of(*e.kind->Match_scrutinee, n),
            arms_uses(e.kind->Match_arms@, n),
        ),
{
    uses_unfold(e, n);
    let top = *e.kind->Match_scrutinee;
    let arms = e.kind->Match_arms@;
    let u = uses_of(e, n);
    let w = either(uses_of(top, n), arms_uses(arms, n));
    assert(free_part(e, n, top));
    assert forall|k: int| 0 <= k < arms.len() implies (arm_uses(#[trigger] arms[k], n).reads
        ==> u.reads) && (arm_uses(arms[k], n).calls ==> u.calls) && (arm_uses(arms[k], n).writes
        ==> u.writes) by {
        if !binds_name(arms[k].pat, n) {
            assert(arm_part(arms[k], n, arms[k].body));
            assert(free_part(e, n, arms[k].body));
            if arms[k].guard is Some {
                assert(arm_part(arms[k], n, arms[k].guard->0));
                assert(free_part(e, n, arms[k].guard->0));
            }
        }
    }
    assert forall|x: ast::Expr| #[trigger] free_part(e, n, x) implies (uses_of(x, n).reads
        ==> w.reads) && (uses_of(x, n).calls ==> w.calls) && (uses_of(x, n).writes ==> w.writes) by {
        if x != top {
            let k = choose|k: int| 0 <= k < arms.len() && arm_part(#[trigger] arms[k], n, x);
            assert(arm_part(arms[k], n, x));
        }
    }
    assert(u.reads == w.reads);
    assert(u.calls == w.calls);
    assert(u.writes == w.writes);
}

// ---------------------------------------------------------------- what the scan finds

/// A name means a member here: one exists, and nothing in scope binds the name.
pub open spec fn meant(f: Found, m: Map<Seq<char>, Sort>, n: Seq<char>) -> bool {
    m.dom().contains(n) && !frame_holds(f.bound, n)
}

/// From `f` to `g`, exactly the uses `u` of `n` were found.
#[verifier::opaque]
pub open spec fn found(f: Found, g: Found, m: Map<Seq<char>, Sort>, n: Seq<char>, u: Uses) -> bool {
    &&& mentions(g.reads, n) <==> mentions(f.reads, n) || (meant(f, m, n) && u.reads)
    &&& mentions(g.calls, n) <==> mentions(f.calls, n) || (meant(f, m, n) && u.calls)
    &&& mentions(g.writes, n) <==> mentions(f.writes, n) || (meant(f, m, n) && u.writes)
}

/// The same frames, but for the innermost, in which `n` was bound if `b` says so.
#[verifier::opaque]
pub open spec fn widens(f: Found, g: Found, n: Seq<char>, b: bool) -> bool {
    &&& f.bound.len() > 0
    &&& g.bound.len() == f.bound.len()
    &&& g.bound.drop_last() == f.bound.drop_last()
    &&& frame_holds(g.bound, n) <==> frame_holds(f.bound, n) || b
}

pub proof fn mentions_more(list: Seq<(Seq<char>, Span)>, x: (Seq<char>, Span), n: Seq<char>)
    ensures
        mentions(list.push(x), n) <==> mentions(list, n) || x.0 == n,
{
    let more = list.push(x);
    assert(more[list.len() as int] == x);
    assert forall|i: int| 0 <= i < list.len() implies #[trigger] more[i] == list[i] by {}
    if mentions(list, n) {
        let i = choose|i: int| 0 <= i < list.len() && (#[trigger] list[i]).0 == n;
        assert(more[i].0 == n);
    }
}

proof fn found_nothing(f: Found, m: Map<Seq<char>, Sort>, n: Seq<char>)
    ensures
        found(f, f, m, n, unused()),
{
    reveal(found);
}

proof fn found_in_turn(
    f: Found,
    g: Found,
    h: Found,
    m: Map<Seq<char>, Sort>,
    n: Seq<char>,
    u: Uses,
    w: Uses,
)
    requires
        found(f, g, m, n, u),
        found(g, h, m, n, w),
        g.bound == f.bound,
    ensures
        found(f, h, m, n, either(u, w)),
{
    reveal(found);
}

proof fn reading_finds(f: Found, m: Map<Seq<char>, Sort>, name: Seq<char>, span: Span, n: Seq<char>)
    ensures
        found(f, f.read(m, name, span), m, n, (Uses { reads: name == n, ..unused() })),
        f.read(m, name, span).bound == f.bound,
{
    reveal(found);
    reveal(Found::read);
    reveal(Found::sees);
    mentions_more(f.reads, (name, span), n);
}

proof fn calling_finds(f: Found, m: Map<Seq<char>, Sort>, name: Seq<char>, span: Span, n: Seq<char>)
    ensures
        found(f, f.call(m, name, span), m, n, (Uses { calls: name == n, ..unused() })),
        f.call(m, name, span).bound == f.bound,
{
    reveal(found);
    reveal(Found::call);
    reveal(Found::sees);
    mentions_more(f.calls, (name, span), n);
}

proof fn rooted_at_head(e: ast::Expr, n: Seq<char>)
    ensures
        rooted(e, n) <==> head_name(e) is Some && head_name(e)->0.name@ == n,
    decreases e,
{
    match e.kind {
        ast::ExprKind::Field { base, .. } => rooted_at_head(*base, n),
        ast::ExprKind::Index { base, .. } => rooted_at_head(*base, n),
        _ => {},
    }
}

proof fn writing_finds(f: Found, m: Map<Seq<char>, Sort>, target: ast::Expr, n: Seq<char>)
    ensures
        found(f, written(f, m, target), m, n, (Uses { writes: rooted(target, n), ..unused() })),
        written(f, m, target).bound == f.bound,
{
    reveal(found);
    reveal(written);
    reveal(Found::write);
    reveal(Found::sees);
    rooted_at_head(target, n);
    match head_name(target) {
        Some(head) => mentions_more(f.writes, (head.name@, head.span), n),
        None => {},
    }
}

proof fn binding_widens(f: Found, name: Seq<char>, n: Seq<char>, m: Map<Seq<char>, Sort>)
    requires
        f.bound.len() > 0,
    ensures
        widens(f, f.bind(name), n, name == n),
        told_the_same(f, f.bind(name)),
{
    reveal(widens);
    reveal(Found::bind);
    let g = f.bind(name);
    let last = f.bound.len() - 1;
    assert(g.bound.drop_last() =~= f.bound.drop_last());
    assert(g.bound[last] == f.bound.last().push(name));
    assert(f.bound[last] == f.bound.last());
    assert(g.bound[last][f.bound.last().len() as int] == name);
    assert forall|i: int| 0 <= i < last implies #[trigger] g.bound[i] == f.bound[i] by {}
    if f.bound[last].contains(n) {
        let j = choose|j: int| 0 <= j < f.bound[last].len() && f.bound[last][j] == n;
        assert(g.bound[last][j] == n);
    }
    if frame_holds(f.bound, n) {
        let i = choose|i: int| 0 <= i < f.bound.len() && (#[trigger] f.bound[i]).contains(n);
        assert(g.bound[i].contains(n));
    }
    if name == n {
        assert(g.bound[last].contains(n));
    }
    if frame_holds(g.bound, n) {
        let i = choose|i: int| 0 <= i < g.bound.len() && (#[trigger] g.bound[i]).contains(n);
        if i < last {
            assert(f.bound[i].contains(n));
        } else if name != n {
            let j = choose|j: int| 0 <= j < g.bound[last].len() && g.bound[last][j] == n;
            assert(f.bound[last][j] == n);
            assert(f.bound[last].contains(n));
        }
    }
}

proof fn opening_binds_nothing(f: Found, n: Seq<char>)
    ensures
        f.open().bound.len() == f.bound.len() + 1,
        f.open().bound.drop_last() == f.bound,
        frame_holds(f.open().bound, n) == frame_holds(f.bound, n),
        told_the_same(f, f.open()),
{
    reveal(Found::open);
    let g = f.open();
    assert(g.bound.drop_last() =~= f.bound);
    assert forall|i: int| 0 <= i < f.bound.len() implies #[trigger] g.bound[i] == f.bound[i] by {}
    assert(g.bound[f.bound.len() as int].len() == 0);
    if frame_holds(f.bound, n) {
        let i = choose|i: int| 0 <= i < f.bound.len() && (#[trigger] f.bound[i]).contains(n);
        assert(g.bound[i].contains(n));
    }
}

proof fn pattern_widens(f: Found, p: ast::Pat, n: Seq<char>, m: Map<Seq<char>, Sort>)
    requires
        f.bound.len() > 0,
    ensures
        widens(f, bind_pat(f, p), n, binds_name(p, n)),
        told_the_same(f, bind_pat(f, p)),
    decreases p, 1nat,
{
    reveal(widens);
    match p.kind {
        ast::PatKind::Binding(name) => binding_widens(f, name.name@, n, m),
        ast::PatKind::Construct { args, .. } => {
            assert(decreases_to!(p => args));
            assert(decreases_to!(args => args@));
            pattern_args_widen(f, args@, n, m);
        },
        ast::PatKind::Or(alts) => {
            assert(decreases_to!(p => alts));
            assert(decreases_to!(alts => alts@));
            patterns_widen(f, alts@, n, m);
        },
        _ => {},
    }
}

proof fn pattern_args_widen(f: Found, args: Seq<ast::PatArg>, n: Seq<char>, m: Map<Seq<char>, Sort>)
    requires
        f.bound.len() > 0,
    ensures
        widens(
            f,
            bind_pat_args(f, args),
            n,
            exists|k: int| 0 <= k < args.len() && binds_name((#[trigger] args[k]).pat, n),
        ),
        told_the_same(f, bind_pat_args(f, args)),
    decreases args, 0nat,
{
    reveal(widens);
    if args.len() > 0 {
        let init = args.drop_last();
        let last = args.len() - 1;
        pattern_args_widen(f, init, n, m);
        assert(decreases_to!(args => args[last]));
        assert(decreases_to!(args[last] => args[last].pat));
        pattern_widens(bind_pat_args(f, init), args[last].pat, n, m);
        assert forall|k: int| 0 <= k < init.len() implies #[trigger] init[k] == args[k] by {}
        assert forall|k: int| 0 <= k < args.len() implies #[trigger] args[k] == if k < last {
            init[k]
        } else {
            args.last()
        } by {}
        if exists|k: int| 0 <= k < init.len() && binds_name((#[trigger] init[k]).pat, n) {
            let k = choose|k: int| 0 <= k < init.len() && binds_name((#[trigger] init[k]).pat, n);
            assert(binds_name(args[k].pat, n));
        }
    }
}

proof fn patterns_widen(f: Found, ps: Seq<ast::Pat>, n: Seq<char>, m: Map<Seq<char>, Sort>)
    requires
        f.bound.len() > 0,
    ensures
        widens(f, bind_pats(f, ps), n, any_binds(ps, n)),
        told_the_same(f, bind_pats(f, ps)),
    decreases ps, 0nat,
{
    reveal(widens);
    if ps.len() > 0 {
        let init = ps.drop_last();
        let last = ps.len() - 1;
        patterns_widen(f, init, n, m);
        assert(decreases_to!(ps => ps[last]));
        pattern_widens(bind_pats(f, init), ps[last], n, m);
        assert forall|k: int| 0 <= k < init.len() implies #[trigger] init[k] == ps[k] by {}
        assert forall|k: int| 0 <= k < ps.len() implies #[trigger] ps[k] == if k < last {
            init[k]
        } else {
            ps.last()
        } by {}
        if any_binds(init, n) {
            let k = choose|k: int| 0 <= k < init.len() && binds_name(#[trigger] init[k], n);
            assert(binds_name(ps[k], n));
        }
    }
}

/// A scan of `e` from `f` finds exactly what is free in it, and leaves the scope as it was.
proof fn scan_finds(f: Found, m: Map<Seq<char>, Sort>, e: ast::Expr, n: Seq<char>)
    ensures
        found(f, scan_expr(f, m, e), m, n, uses_of(e, n)),
        scan_expr(f, m, e).bound == f.bound,
    decreases e, 4nat,
{
    match e.kind {
        ast::ExprKind::Path(path) => {
            reading_finds(f, m, path.head.name@, path.head.span, n);
            uses_of_none(e, n);
            assert(own_uses(e, n) == (Uses { reads: path.head.name@ == n, ..unused() }));
        },
        ast::ExprKind::Field { base, .. } => {
            scan_finds(f, m, *base, n);
            uses_of_one(e, n, *base);
            assert(uses_of(e, n) == uses_of(*base, n));
        },
        ast::ExprKind::Unary { expr, .. } => {
            scan_finds(f, m, *expr, n);
            uses_of_one(e, n, *expr);
            assert(uses_of(e, n) == uses_of(*expr, n));
        },
        ast::ExprKind::Await(expr) => {
            scan_finds(f, m, *expr, n);
            uses_of_one(e, n, *expr);
            assert(uses_of(e, n) == uses_of(*expr, n));
        },
        ast::ExprKind::Spawn(expr) => {
            scan_finds(f, m, *expr, n);
            uses_of_one(e, n, *expr);
            assert(uses_of(e, n) == uses_of(*expr, n));
        },
        ast::ExprKind::Try(expr) => {
            scan_finds(f, m, *expr, n);
            uses_of_one(e, n, *expr);
            assert(uses_of(e, n) == uses_of(*expr, n));
        },
        ast::ExprKind::Binary { lhs, rhs, .. } => {
            let g = scan_expr(f, m, *lhs);
            scan_finds(f, m, *lhs, n);
            scan_finds(g, m, *rhs, n);
            found_in_turn(
                f,
                g,
                scan_expr(g, m, *rhs),
                m,
                n,
                uses_of(*lhs, n),
                uses_of(*rhs, n),
            );
            uses_of_two(e, n, *lhs, *rhs);
            assert(uses_of(e, n) == either(uses_of(*lhs, n), uses_of(*rhs, n)));
        },
        ast::ExprKind::Index { base, index } => {
            let g = scan_expr(f, m, *base);
            scan_finds(f, m, *base, n);
            scan_finds(g, m, *index, n);
            found_in_turn(
                f,
                g,
                scan_expr(g, m, *index),
                m,
                n,
                uses_of(*base, n),
                uses_of(*index, n),
            );
            uses_of_two(e, n, *base, *index);
            assert(uses_of(e, n) == either(uses_of(*base, n), uses_of(*index, n)));
        },
        ast::ExprKind::Call { callee, args, .. } => {
            assert(decreases_to!(e => args));
            assert(decreases_to!(args => args@));
            call_finds(f, m, e, n);
        },
        ast::ExprKind::SpawnReactor { args, .. } => {
            assert(decreases_to!(e => args));
            assert(decreases_to!(args => args@));
            scan_args_finds(f, m, args@, n);
            uses_of_args(e, n, args@);
            assert(uses_of(e, n) == args_uses(args@, n));
        },
        ast::ExprKind::Block(block) => {
            scan_block_finds(f, m, block, n);
            uses_by_blocks(e, n);
        },
        ast::ExprKind::Scope(block) => {
            scan_block_finds(f, m, block, n);
            uses_by_blocks(e, n);
        },
        ast::ExprKind::Loop { body } => {
            scan_block_finds(f, m, body, n);
            uses_by_blocks(e, n);
        },
        ast::ExprKind::If { cond, then, els } => {
            uses_by_blocks(e, n);
            let g = scan_expr(f, m, *cond);
            scan_finds(f, m, *cond, n);
            let h = scan_block(g, m, then);
            scan_block_finds(g, m, then, n);
            let u = uses_of(*cond, n);
            let w = stmts_uses(then.stmts@, n);
            found_in_turn(f, g, h, m, n, u, w);
            match els {
                Some(x) => {
                    scan_finds(h, m, *x, n);
                    let end = scan_expr(h, m, *x);
                    found_in_turn(f, h, end, m, n, either(u, w), uses_of(*x, n));
                },
                None => {
                    found_nothing(h, m, n);
                    found_in_turn(f, h, h, m, n, either(u, w), unused());
                },
            }
        },
        ast::ExprKind::While { cond, body } => {
            uses_by_blocks(e, n);
            let g = scan_expr(f, m, *cond);
            scan_finds(f, m, *cond, n);
            scan_block_finds(g, m, body, n);
            found_in_turn(
                f,
                g,
                scan_block(g, m, body),
                m,
                n,
                uses_of(*cond, n),
                stmts_uses(body.stmts@, n),
            );
        },
        ast::ExprKind::Break { value } => {
            match value {
                Some(x) => {
                    assert forall|y: ast::Expr| #[trigger] free_part(e, n, y) <==> y == *x by {
                        assert(value == Some(Box::new(y)) <==> y == *x);
                    }
                    scan_finds(f, m, *x, n);
                    uses_of_one(e, n, *x);
                    assert(uses_of(e, n) == uses_of(*x, n));
                },
                None => {
                    uses_of_none(e, n);
                    found_nothing(f, m, n);
                },
            }
        },
        ast::ExprKind::Match { scrutinee, arms } => {
            uses_of_match(e, n);
            let g = scan_expr(f, m, *scrutinee);
            scan_finds(f, m, *scrutinee, n);
            assert(decreases_to!(e => arms));
            assert(decreases_to!(arms => arms@));
            scan_arms_finds(g, m, arms@, n);
            found_in_turn(
                f,
                g,
                scan_arms(g, m, arms@),
                m,
                n,
                uses_of(*scrutinee, n),
                arms_uses(arms@, n),
            );
        },
        ast::ExprKind::Lambda { params, body } => lambda_finds(f, m, e, n),
        _ => {
            uses_of_none(e, n);
            found_nothing(f, m, n);
            assert(own_uses(e, n) == unused());
        },
    }
}

proof fn lambda_finds(f: Found, m: Map<Seq<char>, Sort>, e: ast::Expr, n: Seq<char>)
    requires
        e.kind is Lambda,
    ensures
        found(f, scan_expr(f, m, e), m, n, uses_of(e, n)),
        scan_expr(f, m, e).bound == f.bound,
    decreases e, 3nat,
{
    let params = e.kind->Lambda_params@;
    let body = *e.kind->Lambda_body;
    let o = f.open();
    opening_binds_nothing(f, n);
    let g = bind_pats(o, params);
    patterns_widen(o, params, n, m);
    scan_finds(g, m, body, n);
    let h = scan_expr(g, m, body);
    if any_binds(params, n) {
        uses_of_none(e, n);
    } else {
        uses_of_one(e, n, body);
    }
    closing_finds(f, o, g, h, m, n, any_binds(params, n), uses_of(body, n), uses_of(e, n));
}

/// A scope that was opened, filled and closed again.
proof fn closing_finds(
    f: Found,
    o: Found,
    g: Found,
    h: Found,
    m: Map<Seq<char>, Sort>,
    n: Seq<char>,
    b: bool,
    u: Uses,
    w: Uses,
)
    requires
        o.bound.len() > 0,
        o.bound.drop_last() == f.bound,
        frame_holds(o.bound, n) == frame_holds(f.bound, n),
        told_the_same(f, o),
        widens(o, g, n, b),
        told_the_same(o, g),
        found(g, h, m, n, u),
        h.bound == g.bound,
        !b ==> w == u,
        b ==> w == unused(),
    ensures
        found(f, h.close(), m, n, w),
        h.close().bound == f.bound,
{
    reveal(found);
    reveal(widens);
    reveal(Found::close);
}

proof fn call_finds(f: Found, m: Map<Seq<char>, Sort>, e: ast::Expr, n: Seq<char>)
    requires
        e.kind is Call,
        decreases_to!(e => e.kind->Call_args@),
    ensures
        found(f, scan_expr(f, m, e), m, n, uses_of(e, n)),
        scan_expr(f, m, e).bound == f.bound,
    decreases e, 3nat,
{
    let callee = *e.kind->Call_callee;
    let args = e.kind->Call_args@;
    let u = args_uses(args, n);
    match callee.kind {
        ast::ExprKind::Path(path) => {
            uses_of_args(e, n, args);
            let own = own_uses(e, n);
            let g = if path.rest@.len() == 0 {
                f.call(m, path.head.name@, path.head.span)
            } else {
                f
            };
            if path.rest@.len() == 0 {
                calling_finds(f, m, path.head.name@, path.head.span, n);
                assert(own == (Uses { calls: path.head.name@ == n, ..unused() }));
            } else {
                found_nothing(f, m, n);
                assert(own == unused());
            }
            scan_args_finds(g, m, args, n);
            found_in_turn(f, g, scan_args(g, m, args), m, n, own, u);
        },
        _ => {
            uses_of_call(e, n, callee, args);
            let g = scan_expr(f, m, callee);
            scan_finds(f, m, callee, n);
            scan_args_finds(g, m, args, n);
            found_in_turn(f, g, scan_args(g, m, args), m, n, uses_of(callee, n), u);
            assert(uses_of(e, n) == either(uses_of(callee, n), u));
        },
    }
}

proof fn scan_args_finds(f: Found, m: Map<Seq<char>, Sort>, args: Seq<ast::Arg>, n: Seq<char>)
    ensures
        found(f, scan_args(f, m, args), m, n, args_uses(args, n)),
        scan_args(f, m, args).bound == f.bound,
    decreases args, 3nat,
{
    if args.len() == 0 {
        found_nothing(f, m, n);
        assert(args_uses(args, n) == unused());
    } else {
        let init = args.drop_last();
        let g = scan_args(f, m, init);
        scan_args_finds(f, m, init, n);
        assert(decreases_to!(args => args.last()));
        assert(decreases_to!(args.last() => args.last().value));
        scan_finds(g, m, args.last().value, n);
        args_uses_more(args, n);
        found_in_turn(
            f,
            g,
            scan_args(f, m, args),
            m,
            n,
            args_uses(init, n),
            uses_of(args.last().value, n),
        );
    }
}

proof fn scan_arms_finds(f: Found, m: Map<Seq<char>, Sort>, arms: Seq<ast::Arm>, n: Seq<char>)
    ensures
        found(f, scan_arms(f, m, arms), m, n, arms_uses(arms, n)),
        scan_arms(f, m, arms).bound == f.bound,
    decreases arms, 3nat,
{
    if arms.len() == 0 {
        found_nothing(f, m, n);
        assert(arms_uses(arms, n) == unused());
    } else {
        let init = arms.drop_last();
        let g = scan_arms(f, m, init);
        scan_arms_finds(f, m, init, n);
        assert(decreases_to!(arms => arms.last()));
        scan_arm_finds(g, m, arms.last(), n);
        arms_uses_more(arms, n);
        found_in_turn(
            f,
            g,
            scan_arms(f, m, arms),
            m,
            n,
            arms_uses(init, n),
            arm_uses(arms.last(), n),
        );
    }
}

proof fn scan_arm_finds(f: Found, m: Map<Seq<char>, Sort>, arm: ast::Arm, n: Seq<char>)
    ensures
        found(f, scan_arm(f, m, arm), m, n, arm_uses(arm, n)),
        scan_arm(f, m, arm).bound == f.bound,
    decreases arm, 5nat,
{
    let o = f.open();
    opening_binds_nothing(f, n);
    let g = bind_pat(o, arm.pat);
    pattern_widens(o, arm.pat, n, m);
    let asked = match arm.guard {
        Some(guard) => uses_of(guard, n),
        None => unused(),
    };
    let g2 = match arm.guard {
        Some(guard) => scan_expr(g, m, guard),
        None => g,
    };
    if arm.guard is Some {
        assert(decreases_to!(arm => arm.guard->0));
        scan_finds(g, m, arm.guard->0, n);
    } else {
        found_nothing(g, m, n);
    }
    assert(decreases_to!(arm => arm.body));
    scan_finds(g2, m, arm.body, n);
    let h = scan_expr(g2, m, arm.body);
    let u = either(asked, uses_of(arm.body, n));
    found_in_turn(g, g2, h, m, n, asked, uses_of(arm.body, n));
    closing_finds(f, o, g, h, m, n, binds_name(arm.pat, n), u, arm_uses(arm, n));
}

proof fn scan_block_finds(f: Found, m: Map<Seq<char>, Sort>, block: ast::Block, n: Seq<char>)
    ensures
        found(f, scan_block(f, m, block), m, n, stmts_uses(block.stmts@, n)),
        scan_block(f, m, block).bound == f.bound,
    decreases block, 3nat,
{
    let o = f.open();
    opening_binds_nothing(f, n);
    assert(decreases_to!(block => block.stmts));
    assert(decreases_to!(block.stmts => block.stmts@));
    scan_stmts_find(o, m, block.stmts@, n);
    reveal(found);
    reveal(widens);
    reveal(Found::close);
}

proof fn scan_stmts_find(f: Found, m: Map<Seq<char>, Sort>, stmts: Seq<ast::Stmt>, n: Seq<char>)
    requires
        f.bound.len() > 0,
    ensures
        found(f, scan_stmts(f, m, stmts), m, n, stmts_uses(stmts, n)),
        widens(
            f,
            scan_stmts(f, m, stmts),
            n,
            !unbound_before(stmts, n, stmts.len() as int),
        ),
    decreases stmts, 3nat,
{
    if stmts.len() == 0 {
        found_nothing(f, m, n);
        assert(stmts_uses(stmts, n) == unused());
        reveal(widens);
    } else {
        let init = stmts.drop_last();
        let g = scan_stmts(f, m, init);
        scan_stmts_find(f, m, init, n);
        assert(g.bound.len() > 0) by {
            reveal(widens);
        }
        assert(decreases_to!(stmts => stmts.last()));
        scan_stmt_finds(g, m, stmts.last(), n);
        stmts_uses_more(stmts, n);
        reveal(widens);
        reveal(found);
    }
}

proof fn scan_stmt_finds(f: Found, m: Map<Seq<char>, Sort>, it: ast::Stmt, n: Seq<char>)
    requires
        f.bound.len() > 0,
    ensures
        found(f, scan_stmt(f, m, it), m, n, stmt_uses(it, n)),
        widens(f, scan_stmt(f, m, it), n, stmt_binds(it, n)),
    decreases it, 5nat,
{
    match it.kind {
        ast::StmtKind::Let { name, value, .. } => {
            assert(decreases_to!(it => value));
            scan_finds(f, m, value, n);
            let g = scan_expr(f, m, value);
            binding_widens(g, name.name@, n, m);
            reveal(found);
            reveal(widens);
        },
        ast::StmtKind::Assign { target, value } => {
            assert(decreases_to!(it => value));
            assert(decreases_to!(it => target));
            scan_finds(f, m, value, n);
            let g = scan_expr(f, m, value);
            let w = Uses { writes: rooted(target, n), ..unused() };
            if lone(target) {
                writing_finds(g, m, target, n);
                found_in_turn(f, g, written(g, m, target), m, n, uses_of(value, n), w);
                assert(stmt_uses(it, n) == either(uses_of(value, n), w));
            } else {
                let h = scan_expr(g, m, target);
                scan_finds(g, m, target, n);
                writing_finds(h, m, target, n);
                let u = uses_of(target, n);
                let end = written(h, m, target);
                found_in_turn(g, h, end, m, n, u, w);
                found_in_turn(f, g, end, m, n, uses_of(value, n), either(u, w));
            }
            reveal(widens);
        },
        ast::StmtKind::Return(value) => {
            if value is Some {
                assert(decreases_to!(it => value->0));
                scan_finds(f, m, value->0, n);
            } else {
                found_nothing(f, m, n);
            }
            reveal(widens);
        },
        ast::StmtKind::After { task, .. } => {
            assert(decreases_to!(it => task));
            scan_finds(f, m, task, n);
            reveal(widens);
        },
        ast::StmtKind::Expr(e) => {
            assert(decreases_to!(it => e));
            scan_finds(f, m, e, n);
            reveal(widens);
        },
    }
}

// ---------------------------------------------------------------- laws

/// The scan is complete and exact. What an expression mentions of a reactor's members is what
/// stands free in it: a member is among the reads, the calls or the writes exactly if some way down
/// through the parts, past no binder of its name, leads to where it is read, called or assigned.
pub proof fn scans_find_what_is_free(m: Map<Seq<char>, Sort>, e: ast::Expr, n: Seq<char>)
    requires
        m.dom().contains(n),
    ensures
        mentions(mentioned(m, e).reads, n) <==> free_reads(e, n),
        mentions(mentioned(m, e).calls, n) <==> free_calls(e, n),
        mentions(mentioned(m, e).writes, n) <==> free_writes(e, n),
{
    reveal(mentioned);
    scan_finds(Found::nothing(), m, e, n);
    reveal(found);
    reveal(uses_of);
    nothing_is_bound(n);
}

proof fn nothing_is_bound(n: Seq<char>)
    ensures
        !frame_holds(Found::nothing().bound, n),
        !mentions(Found::nothing().reads, n),
        !mentions(Found::nothing().calls, n),
        !mentions(Found::nothing().writes, n),
        Found::nothing().bound.len() > 0,
{
}

/// `n` is read, called or assigned in a block where it is free.
pub open spec fn block_reads(b: ast::Block, n: Seq<char>) -> bool {
    exists|x: ast::Expr| #[trigger] block_part(b, n, x) && free_reads(x, n)
}

pub open spec fn block_calls(b: ast::Block, n: Seq<char>) -> bool {
    exists|x: ast::Expr| #[trigger] block_part(b, n, x) && free_calls(x, n)
}

pub open spec fn block_assigns(b: ast::Block, n: Seq<char>) -> bool {
    block_writes(b, n) || exists|x: ast::Expr| #[trigger] block_part(b, n, x) && free_writes(x, n)
}

/// One of the names of a message.
pub open spec fn message_binds(params: Seq<ast::HandlerParam>, n: Seq<char>) -> bool {
    exists|k: int| 0 <= k < params.len() && (#[trigger] params[k]).name.name@ == n
}

proof fn params_widen(
    f: Found,
    params: Seq<ast::HandlerParam>,
    n: Seq<char>,
    m: Map<Seq<char>, Sort>,
)
    requires
        f.bound.len() > 0,
    ensures
        widens(f, bind_params(f, params), n, message_binds(params, n)),
        told_the_same(f, bind_params(f, params)),
    decreases params.len(),
{
    reveal(widens);
    if params.len() > 0 {
        let init = params.drop_last();
        let last = params.len() - 1;
        params_widen(f, init, n, m);
        binding_widens(bind_params(f, init), params.last().name.name@, n, m);
        assert(params[last] == params.last());
        if message_binds(init, n) {
            let k = choose|k: int| 0 <= k < init.len() && (#[trigger] init[k]).name.name@ == n;
            assert(params[k].name.name@ == n);
        }
        if message_binds(params, n) && params.last().name.name@ != n {
            let k = choose|k: int| 0 <= k < params.len() && (#[trigger] params[k]).name.name@ == n;
            assert(init[k].name.name@ == n);
        }
    }
}

/// The same of a handler: its message binds its names over the whole body.
pub proof fn handler_scans_find_what_is_free(
    m: Map<Seq<char>, Sort>,
    params: Seq<ast::HandlerParam>,
    body: ast::Block,
    n: Seq<char>,
)
    requires
        m.dom().contains(n),
    ensures
        mentions(mentioned_by_handler(m, params, body).reads, n) <==> !message_binds(params, n)
            && block_reads(body, n),
        mentions(mentioned_by_handler(m, params, body).calls, n) <==> !message_binds(params, n)
            && block_calls(body, n),
        mentions(mentioned_by_handler(m, params, body).writes, n) <==> !message_binds(params, n)
            && block_assigns(body, n),
{
    reveal(mentioned_by_handler);
    nothing_is_bound(n);
    let f = Found::nothing();
    let g = bind_params(f, params);
    params_widen(f, params, n, m);
    scan_block_finds(g, m, body, n);
    uses_of_block(body, n);
    reveal(found);
    reveal(widens);
    reveal(uses_of);
}

/// Of names that are no members, a scan finds nothing.
pub proof fn scans_mention_members(m: Map<Seq<char>, Sort>, e: ast::Expr, n: Seq<char>)
    ensures
        mentions(mentioned(m, e).reads, n) <==> m.dom().contains(n) && free_reads(e, n),
        mentions(mentioned(m, e).calls, n) <==> m.dom().contains(n) && free_calls(e, n),
        mentions(mentioned(m, e).writes, n) <==> m.dom().contains(n) && free_writes(e, n),
{
    if m.dom().contains(n) {
        scans_find_what_is_free(m, e, n);
    } else {
        reveal(mentioned);
        scan_finds(Found::nothing(), m, e, n);
        reveal(found);
        nothing_is_bound(n);
    }
}

pub proof fn handler_scans_mention_members(
    m: Map<Seq<char>, Sort>,
    params: Seq<ast::HandlerParam>,
    body: ast::Block,
    n: Seq<char>,
)
    ensures
        mentions(mentioned_by_handler(m, params, body).writes, n) <==> m.dom().contains(n)
            && !message_binds(params, n) && block_assigns(body, n),
{
    if m.dom().contains(n) {
        handler_scans_find_what_is_free(m, params, body, n);
    } else {
        reveal(mentioned_by_handler);
        nothing_is_bound(n);
        let f = Found::nothing();
        params_widen(f, params, n, m);
        scan_block_finds(bind_params(f, params), m, body, n);
        reveal(found);
    }
}

} // verus!
