//! Who comes to own what: how a value travels from a name to the place that keeps it.
//!
//! An expression hands each of its direct parts on in one of three ways: it reads it, it becomes
//! the owner of its value, or it is a `sink` position and revokes the name. What the ownership walk
//! and sink inference do is said here over that relation alone.

use vstd::prelude::*;
use crate::hir::{Builtin, FnId, LocalId, Mode};
use crate::model;
use crate::moves::{
    argument, arms_from, bind, bind_all, branch, builtin_args, builtin_mode_at, call_args, consume,
    endless_loop, enter_loop, escaped, first_moved_is_some, leave_loop, live, merged, mode_at,
    parts, place, rejoin, reread, stmt, stmts_from, value, values, while_loop, Env, Outcome, State,
};
use crate::span::Span;

verus! {

// ---------------------------------------------------------------- how parts are handed on

/// How an expression treats a part of it.
pub enum Role {
    /// It looks at the value and leaves it where it is.
    Read,
    /// The value is its own from there on.
    Own,
    /// The value is its own, and the name it came from is gone.
    Sink,
}

/// How an argument position of a mode treats its argument.
pub open spec fn role_of(mode: Mode) -> Role {
    if mode is Sink {
        Role::Sink
    } else {
        Role::Read
    }
}

/// Statement `it` hands `x` on as `q`. A bare name that is assigned to is not looked at.
pub open spec fn stmt_hands(it: model::Stmt, x: model::Expr, q: Role) -> bool {
    match it.kind {
        model::StmtKind::Let { value, .. } => x == value && q == Role::Own,
        model::StmtKind::Assign { place, value } => (x == value && q == Role::Own) || (x == place
            && q == Role::Read && !(place.kind is Local)),
        model::StmtKind::After { task, .. } => x == task && q == Role::Own,
        model::StmtKind::Expr(e) => x == e && q == Role::Own,
    }
}

/// A `match` arm owns its guard and its body.
pub open spec fn arm_hands(arm: model::Arm, x: model::Expr, q: Role) -> bool {
    q == Role::Own && (x == arm.body || arm.guard == Some(x))
}

/// Expression `e` hands its direct part `x` on as `q`.
pub open spec fn hands(
    modes: Seq<Seq<Mode>>,
    v: model::Vocabulary,
    e: model::Expr,
    x: model::Expr,
    q: Role,
) -> bool {
    match e.kind {
        model::ExprKind::Field { base, .. } => x == *base && q == Role::Read,
        model::ExprKind::ReactorInput { reactor, .. } => x == *reactor && q == Role::Read,
        model::ExprKind::ReactorExport { reactor, .. } => x == *reactor && q == Role::Read,
        model::ExprKind::Call { callee, args } => exists|k: int|
            0 <= k < args.len() && x == #[trigger] args[k] && q == role_of(
                mode_at(modes, callee, k),
            ),
        model::ExprKind::Builtin { builtin, args } => exists|k: int|
            0 <= k < args.len() && x == #[trigger] args[k] && q == role_of(
                builtin_mode_at(v, builtin, k),
            ),
        model::ExprKind::Construct { args, .. } => q == Role::Own && args.contains(x),
        model::ExprKind::SpawnReactor { args, .. } => q == Role::Own && args.contains(x),
        model::ExprKind::Unary { expr, .. } => x == *expr && q == Role::Own,
        model::ExprKind::Binary { lhs, rhs, .. } => (x == *lhs || x == *rhs) && q == Role::Own,
        model::ExprKind::ShortCircuit { lhs, rhs, .. } => (x == *lhs || x == *rhs) && q
            == Role::Own,
        model::ExprKind::Match { scrutinee, arms } => (x == *scrutinee && q == Role::Own) || exists|
            k: int,
        |
            0 <= k < arms.len() && arm_hands(#[trigger] arms[k], x, q),
        model::ExprKind::If { cond, then, els } => (x == *cond || x == *then || els == Some(
            Box::new(x),
        )) && q == Role::Own,
        model::ExprKind::Block { stmts, tail } => (tail == Some(Box::new(x)) && q == Role::Own)
            || exists|k: int| 0 <= k < stmts.len() && stmt_hands(#[trigger] stmts[k], x, q),
        model::ExprKind::Await { expr } => x == *expr && q == Role::Own,
        model::ExprKind::Spawn { expr } => x == *expr && q == Role::Own,
        model::ExprKind::Try { expr, .. } => x == *expr && q == Role::Own,
        model::ExprKind::Scope { body } => x == *body && q == Role::Own,
        model::ExprKind::Return { value } => value == Some(Box::new(x)) && q == Role::Own,
        model::ExprKind::Break { value } => value == Some(Box::new(x)) && q == Role::Own,
        model::ExprKind::While { cond, body } => (x == *cond || x == *body) && q == Role::Own,
        model::ExprKind::Loop { body } => x == *body && q == Role::Own,
        _ => false,
    }
}

/// What is handed on is smaller than what hands it on.
pub proof fn handed_parts_are_smaller(
    modes: Seq<Seq<Mode>>,
    v: model::Vocabulary,
    e: model::Expr,
    x: model::Expr,
    q: Role,
)
    requires
        hands(modes, v, e, x, q),
    ensures
        decreases_to!(e => x),
{
    match e.kind {
        model::ExprKind::Call { args, .. } => {
            let k = choose|k: int| 0 <= k < args.len() && x == #[trigger] args[k];
            assert(decreases_to!(args => args[k]));
        },
        model::ExprKind::Builtin { args, .. } => {
            let k = choose|k: int| 0 <= k < args.len() && x == #[trigger] args[k];
            assert(decreases_to!(args => args[k]));
        },
        model::ExprKind::Construct { args, .. } => {
            let k = choose|k: int| 0 <= k < args.len() && x == #[trigger] args[k];
            assert(decreases_to!(args => args[k]));
        },
        model::ExprKind::SpawnReactor { args, .. } => {
            let k = choose|k: int| 0 <= k < args.len() && x == #[trigger] args[k];
            assert(decreases_to!(args => args[k]));
        },
        model::ExprKind::Match { scrutinee, arms } => {
            if !(x == *scrutinee && q == Role::Own) {
                let k = choose|k: int| 0 <= k < arms.len() && arm_hands(#[trigger] arms[k], x, q);
                assert(decreases_to!(arms => arms[k]));
                if x == arms[k].body {
                    assert(decreases_to!(arms[k] => arms[k].body));
                } else {
                    assert(decreases_to!(arms[k] => arms[k].guard->0));
                }
            }
        },
        model::ExprKind::Block { stmts, tail } => {
            if !(tail == Some(Box::new(x)) && q == Role::Own) {
                let k = choose|k: int|
                    0 <= k < stmts.len() && stmt_hands(#[trigger] stmts[k], x, q);
                assert(decreases_to!(stmts => stmts[k]));
                match stmts[k].kind {
                    model::StmtKind::Let { value, .. } => {
                        assert(decreases_to!(stmts[k] => value));
                    },
                    model::StmtKind::Assign { place, value } => {
                        assert(decreases_to!(stmts[k] => value));
                        assert(decreases_to!(stmts[k] => place));
                    },
                    model::StmtKind::After { task, .. } => {
                        assert(decreases_to!(stmts[k] => task));
                    },
                    model::StmtKind::Expr(y) => {
                        assert(decreases_to!(stmts[k] => y));
                    },
                }
            } else {
                assert(decreases_to!(e => *tail->0));
            }
        },
        model::ExprKind::If { cond, then, els } => {
            if x == *cond {
            } else if x == *then {
            } else {
                assert(decreases_to!(e => *els->0));
            }
        },
        model::ExprKind::Return { value } => {
            assert(decreases_to!(e => *value->0));
        },
        model::ExprKind::Break { value } => {
            assert(decreases_to!(e => *value->0));
        },
        _ => {},
    }
}

/// In `e`, treated as `r`, the value of local `id` finds an owner: some way down through the parts
/// leads to the name, and there it is revoked, or owned where owning it takes it (`owned`).
pub open spec fn took(
    modes: Seq<Seq<Mode>>,
    v: model::Vocabulary,
    e: model::Expr,
    r: Role,
    id: LocalId,
    owned: bool,
) -> bool
    decreases e,
{
    ||| e.kind == model::ExprKind::Local(id) && (r == Role::Sink || (r == Role::Own && owned))
    ||| exists|x: model::Expr, q: Role| #[trigger]
        hands(modes, v, e, x, q) && decreases_to!(e => x) && took(modes, v, x, q, id, owned)
}

/// Local `id` is used somewhere in `e`.
pub open spec fn uses(
    modes: Seq<Seq<Mode>>,
    v: model::Vocabulary,
    e: model::Expr,
    id: LocalId,
) -> bool
    decreases e,
{
    ||| e.kind == model::ExprKind::Local(id)
    ||| exists|x: model::Expr, q: Role| #[trigger]
        hands(modes, v, e, x, q) && decreases_to!(e => x) && uses(modes, v, x, id)
}

/// A pattern binds local `id`.
pub open spec fn binds(p: model::Pat, id: LocalId) -> bool
    decreases p,
{
    match p.kind {
        model::PatKind::Bind(j) => j == id,
        model::PatKind::Variant { args, .. } => exists|k: int|
            0 <= k < args.len() && binds(#[trigger] args[k], id),
        model::PatKind::Struct { args, .. } => exists|k: int|
            0 <= k < args.len() && binds(#[trigger] args[k], id),
        model::PatKind::Or(alts) => exists|k: int|
            0 <= k < alts.len() && binds(#[trigger] alts[k], id),
        _ => false,
    }
}

/// A statement gives local `id` a new value.
pub open spec fn stmt_renews(it: model::Stmt, id: LocalId) -> bool {
    match it.kind {
        model::StmtKind::Let { local, .. } => local == id,
        model::StmtKind::Assign { place, .. } => place.kind == model::ExprKind::Local(id),
        _ => false,
    }
}

/// An expression itself gives local `id` a new value, not one of its parts.
pub open spec fn renews(e: model::Expr, id: LocalId) -> bool {
    match e.kind {
        model::ExprKind::Block { stmts, .. } => exists|k: int|
            0 <= k < stmts.len() && stmt_renews(#[trigger] stmts[k], id),
        model::ExprKind::Match { arms, .. } => exists|k: int|
            0 <= k < arms.len() && binds((#[trigger] arms[k]).pat, id),
        _ => false,
    }
}

/// Nothing in `e` gives local `id` a new value.
pub open spec fn keeps(
    modes: Seq<Seq<Mode>>,
    v: model::Vocabulary,
    e: model::Expr,
    id: LocalId,
) -> bool
    decreases e,
{
    &&& !renews(e, id)
    &&& forall|x: model::Expr, q: Role| #[trigger]
        hands(modes, v, e, x, q) && decreases_to!(e => x) ==> keeps(modes, v, x, id)
}

/// A loop, a jump, or a `match` that no arm can answer.
pub open spec fn turns_off(e: model::Expr) -> bool {
    match e.kind {
        model::ExprKind::While { .. } => true,
        model::ExprKind::Loop { .. } => true,
        model::ExprKind::Return { .. } => true,
        model::ExprKind::Break { .. } => true,
        model::ExprKind::Continue => true,
        model::ExprKind::Match { arms, .. } => arms.len() == 0,
        _ => false,
    }
}

/// Control passes through `e` from its start to its end.
pub open spec fn straight(modes: Seq<Seq<Mode>>, v: model::Vocabulary, e: model::Expr) -> bool
    decreases e,
{
    &&& !turns_off(e)
    &&& forall|x: model::Expr, q: Role| #[trigger]
        hands(modes, v, e, x, q) && decreases_to!(e => x) ==> straight(modes, v, x)
}

// ---------------------------------------------------------------- what a walk comes to

/// What the parts of a body are seen against: the modes of argument positions, and whether owning
/// the local in question takes it.
pub struct Ground {
    pub modes: Seq<Seq<Mode>>,
    pub vocabulary: model::Vocabulary,
    pub owned: bool,
}

/// What the ownership walk sees a local against.
pub open spec fn ground(env: Env, id: LocalId) -> Ground {
    Ground { modes: env.modes, vocabulary: env.vocabulary, owned: env.moves(id) }
}

/// What matters of an expression for one local.
pub struct Facts {
    pub uses: bool,
    pub takes: bool,
    pub keeps: bool,
    pub straight: bool,
}

pub open spec fn both(a: Facts, b: Facts) -> Facts {
    Facts {
        uses: a.uses || b.uses,
        takes: a.takes || b.takes,
        keeps: a.keeps && b.keeps,
        straight: a.straight && b.straight,
    }
}

pub open spec fn idle() -> Facts {
    Facts { uses: false, takes: false, keeps: true, straight: true }
}

#[verifier::opaque]
pub open spec fn facts(g: Ground, e: model::Expr, r: Role, id: LocalId) -> Facts {
    Facts {
        uses: uses(g.modes, g.vocabulary, e, id),
        takes: took(g.modes, g.vocabulary, e, r, id, g.owned),
        keeps: keeps(g.modes, g.vocabulary, e, id),
        straight: straight(g.modes, g.vocabulary, e),
    }
}

/// What an expression comes to itself, its parts left out.
pub open spec fn own_facts(g: Ground, e: model::Expr, r: Role, id: LocalId) -> Facts {
    Facts {
        uses: e.kind == model::ExprKind::Local(id),
        takes: e.kind == model::ExprKind::Local(id) && (r == Role::Sink || (r == Role::Own
            && g.owned)),
        keeps: !renews(e, id),
        straight: !turns_off(e),
    }
}

pub open spec fn gives(g: Ground, e: model::Expr, x: model::Expr, q: Role) -> bool {
    hands(g.modes, g.vocabulary, e, x, q)
}

proof fn facts_unfold(g: Ground, e: model::Expr, r: Role, id: LocalId)
    ensures
        ({
            let f = facts(g, e, r, id);
            let o = own_facts(g, e, r, id);
            &&& f.uses <==> o.uses || exists|x: model::Expr, q: Role| #[trigger]
                gives(g, e, x, q) && facts(g, x, q, id).uses
            &&& f.takes <==> o.takes || exists|x: model::Expr, q: Role| #[trigger]
                gives(g, e, x, q) && facts(g, x, q, id).takes
            &&& f.keeps <==> o.keeps && forall|x: model::Expr, q: Role| #[trigger]
                gives(g, e, x, q) ==> facts(g, x, q, id).keeps
            &&& f.straight <==> o.straight && forall|x: model::Expr, q: Role| #[trigger]
                gives(g, e, x, q) ==> facts(g, x, q, id).straight
        }),
{
    reveal(facts);
    assert forall|x: model::Expr, q: Role| #[trigger] gives(
        g,
        e,
        x,
        q,
    ) implies decreases_to!(e => x) by {
        handed_parts_are_smaller(g.modes, g.vocabulary, e, x, q);
    }
    assert forall|x: model::Expr, q: Role| #[trigger] hands(
        g.modes,
        g.vocabulary,
        e,
        x,
        q,
    ) implies gives(g, e, x, q) by {}
}

pub proof fn facts_of_none(g: Ground, e: model::Expr, r: Role, id: LocalId)
    requires
        forall|x: model::Expr, q: Role| !#[trigger] gives(g, e, x, q),
    ensures
        facts(g, e, r, id) == own_facts(g, e, r, id),
{
    facts_unfold(g, e, r, id);
}

pub proof fn facts_of_one(g: Ground, e: model::Expr, r: Role, id: LocalId, a: model::Expr, q: Role)
    requires
        forall|x: model::Expr, p: Role| #[trigger] gives(g, e, x, p) <==> x == a && p == q,
    ensures
        facts(g, e, r, id) == both(own_facts(g, e, r, id), facts(g, a, q, id)),
{
    facts_unfold(g, e, r, id);
    assert(gives(g, e, a, q));
}

pub proof fn facts_of_two(
    g: Ground,
    e: model::Expr,
    r: Role,
    id: LocalId,
    a: model::Expr,
    b: model::Expr,
)
    requires
        forall|x: model::Expr, p: Role| #[trigger]
            gives(g, e, x, p) <==> (x == a || x == b) && p == Role::Own,
    ensures
        facts(g, e, r, id) == both(
            own_facts(g, e, r, id),
            both(facts(g, a, Role::Own, id), facts(g, b, Role::Own, id)),
        ),
{
    facts_unfold(g, e, r, id);
    assert(gives(g, e, a, Role::Own));
    assert(gives(g, e, b, Role::Own));
}

pub proof fn facts_of_three(
    g: Ground,
    e: model::Expr,
    r: Role,
    id: LocalId,
    a: model::Expr,
    b: model::Expr,
    c: model::Expr,
)
    requires
        forall|x: model::Expr, p: Role| #[trigger]
            gives(g, e, x, p) <==> (x == a || x == b || x == c) && p == Role::Own,
    ensures
        facts(g, e, r, id) == both(
            own_facts(g, e, r, id),
            both(
                facts(g, a, Role::Own, id),
                both(facts(g, b, Role::Own, id), facts(g, c, Role::Own, id)),
            ),
        ),
{
    facts_unfold(g, e, r, id);
    assert(gives(g, e, a, Role::Own));
    assert(gives(g, e, b, Role::Own));
    assert(gives(g, e, c, Role::Own));
}

// ---------------------------------------------------------------- lists of facts

#[verifier::opaque]
pub open spec fn total(list: Seq<Facts>) -> Facts {
    Facts {
        uses: exists|k: int| 0 <= k < list.len() && (#[trigger] list[k]).uses,
        takes: exists|k: int| 0 <= k < list.len() && (#[trigger] list[k]).takes,
        keeps: forall|k: int| 0 <= k < list.len() ==> (#[trigger] list[k]).keeps,
        straight: forall|k: int| 0 <= k < list.len() ==> (#[trigger] list[k]).straight,
    }
}

pub proof fn total_of_none(list: Seq<Facts>)
    requires
        list.len() == 0,
    ensures
        total(list) == idle(),
{
    reveal(total);
}

pub proof fn total_of_more(list: Seq<Facts>, init: Seq<Facts>, last: Facts)
    requires
        list.len() == init.len() + 1,
        forall|k: int| 0 <= k < init.len() ==> #[trigger] list[k] == init[k],
        list[init.len() as int] == last,
    ensures
        total(list) == both(total(init), last),
{
    reveal(total);
    let n = init.len() as int;
    assert forall|k: int| 0 <= k < init.len() implies #[trigger] init[k] == list[k] by {}
    assert(list[n] == last);
    assert(total(list).uses == both(total(init), last).uses);
    assert(total(list).takes == both(total(init), last).takes);
    assert(total(list).keeps == both(total(init), last).keeps);
    assert(total(list).straight == both(total(init), last).straight);
}

pub open spec fn arg_facts(
    g: Ground,
    args: Seq<model::Expr>,
    role: spec_fn(int) -> Role,
    id: LocalId,
) -> Seq<Facts> {
    Seq::new(args.len(), |k: int| facts(g, args[k], role(k), id))
}

pub proof fn facts_of_args(
    g: Ground,
    e: model::Expr,
    r: Role,
    id: LocalId,
    args: Seq<model::Expr>,
    role: spec_fn(int) -> Role,
)
    requires
        forall|x: model::Expr, q: Role| #[trigger]
            gives(g, e, x, q) <==> exists|k: int|
                0 <= k < args.len() && x == #[trigger] args[k] && q == role(k),
    ensures
        facts(g, e, r, id) == both(
            own_facts(g, e, r, id),
            total(arg_facts(g, args, role, id)),
        ),
{
    reveal(total);
    facts_unfold(g, e, r, id);
    let list = arg_facts(g, args, role, id);
    assert forall|k: int| 0 <= k < list.len() implies gives(g, e, args[k], role(k))
        && #[trigger] list[k] == facts(g, args[k], role(k), id) by {}
    assert forall|x: model::Expr, q: Role| #[trigger] gives(g, e, x, q) implies exists|k: int|
        0 <= k < list.len() && #[trigger] list[k] == facts(g, x, q, id) by {
        let k = choose|k: int| 0 <= k < args.len() && x == #[trigger] args[k] && q == role(k);
        assert(list[k] == facts(g, x, q, id));
    }
    assert(forall|x: model::Expr, q: Role| #[trigger]
        gives(g, e, x, q) ==> total(list).keeps ==> facts(g, x, q, id).keeps);
}

pub open spec fn stmt_facts(g: Ground, it: model::Stmt, id: LocalId) -> Facts {
    let renewed = Facts { keeps: !stmt_renews(it, id), ..idle() };
    match it.kind {
        model::StmtKind::Let { value, .. } => both(facts(g, value, Role::Own, id), renewed),
        model::StmtKind::Assign { place, value } => both(
            facts(g, value, Role::Own, id),
            if place.kind is Local {
                renewed
            } else {
                facts(g, place, Role::Read, id)
            },
        ),
        model::StmtKind::After { task, .. } => facts(g, task, Role::Own, id),
        model::StmtKind::Expr(e) => facts(g, e, Role::Own, id),
    }
}

pub open spec fn stmts_facts(g: Ground, stmts: Seq<model::Stmt>, id: LocalId) -> Seq<Facts> {
    Seq::new(stmts.len(), |k: int| stmt_facts(g, stmts[k], id))
}

pub open spec fn maybe_facts(g: Ground, e: Option<Box<model::Expr>>, id: LocalId) -> Facts {
    match e {
        Some(e) => facts(g, *e, Role::Own, id),
        None => idle(),
    }
}

pub proof fn facts_of_stmt(g: Ground, it: model::Stmt, id: LocalId)
    ensures
        ({
            let f = stmt_facts(g, it, id);
            &&& f.uses <==> exists|x: model::Expr, q: Role| #[trigger]
                stmt_hands(it, x, q) && facts(g, x, q, id).uses
            &&& f.takes <==> exists|x: model::Expr, q: Role| #[trigger]
                stmt_hands(it, x, q) && facts(g, x, q, id).takes
            &&& f.keeps <==> !stmt_renews(it, id) && forall|x: model::Expr, q: Role| #[trigger]
                stmt_hands(it, x, q) ==> facts(g, x, q, id).keeps
            &&& f.straight <==> forall|x: model::Expr, q: Role| #[trigger]
                stmt_hands(it, x, q) ==> facts(g, x, q, id).straight
        }),
{
    match it.kind {
        model::StmtKind::Let { value, .. } => assert(stmt_hands(it, value, Role::Own)),
        model::StmtKind::Assign { place, value } => {
            assert(stmt_hands(it, value, Role::Own));
            if !(place.kind is Local) {
                assert(stmt_hands(it, place, Role::Read));
            }
        },
        model::StmtKind::After { task, .. } => assert(stmt_hands(it, task, Role::Own)),
        model::StmtKind::Expr(e) => assert(stmt_hands(it, e, Role::Own)),
    }
}

pub proof fn facts_of_block(g: Ground, e: model::Expr, r: Role, id: LocalId)
    requires
        e.kind is Block,
    ensures
        facts(g, e, r, id) == both(
            total(stmts_facts(g, e.kind->Block_stmts, id)),
            maybe_facts(g, e.kind->Block_tail, id),
        ),
{
    reveal(total);
    facts_unfold(g, e, r, id);
    let stmts = e.kind->Block_stmts;
    let tail = e.kind->Block_tail;
    let list = stmts_facts(g, stmts, id);
    let f = facts(g, e, r, id);
    let h = both(total(list), maybe_facts(g, tail, id));
    assert forall|k: int| 0 <= k < stmts.len() implies #[trigger] list[k] == stmt_facts(
        g,
        stmts[k],
        id,
    ) by {}
    if tail is Some {
        assert(tail == Some(Box::new(*tail->0)));
        assert(gives(g, e, *tail->0, Role::Own));
    }
    assert forall|k: int, x: model::Expr, q: Role| 0 <= k < stmts.len() && #[trigger] stmt_hands(
        stmts[k],
        x,
        q,
    ) implies gives(g, e, x, q) by {}
    assert forall|k: int| 0 <= k < stmts.len() implies (#[trigger] list[k].uses ==> f.uses) && (
    list[k].takes ==> f.takes) && (f.keeps ==> list[k].keeps) && (f.straight
        ==> list[k].straight) by {
        facts_of_stmt(g, stmts[k], id);
        assert(f.keeps ==> !stmt_renews(stmts[k], id));
    }
    assert forall|x: model::Expr, q: Role| #[trigger] gives(g, e, x, q) implies (facts(
        g,
        x,
        q,
        id,
    ).uses ==> h.uses) && (facts(g, x, q, id).takes ==> h.takes) && (h.keeps ==> facts(
        g,
        x,
        q,
        id,
    ).keeps) && (h.straight ==> facts(g, x, q, id).straight) by {
        if !(tail == Some(Box::new(x)) && q == Role::Own) {
            let k = choose|k: int| 0 <= k < stmts.len() && stmt_hands(#[trigger] stmts[k], x, q);
            facts_of_stmt(g, stmts[k], id);
            assert(list[k] == stmt_facts(g, stmts[k], id));
        }
    }
    if h.keeps && renews(e, id) {
        let k = choose|k: int| 0 <= k < stmts.len() && stmt_renews(#[trigger] stmts[k], id);
        facts_of_stmt(g, stmts[k], id);
        assert(list[k].keeps);
    }
    assert(f.uses == h.uses);
    assert(f.takes == h.takes);
    assert(f.keeps == h.keeps);
    assert(f.straight == h.straight);
}

pub open spec fn guard_facts(g: Ground, arm: model::Arm, id: LocalId) -> Facts {
    match arm.guard {
        Some(guard) => facts(g, guard, Role::Own, id),
        None => idle(),
    }
}

pub open spec fn arm_facts(g: Ground, arm: model::Arm, id: LocalId) -> Facts {
    both(
        Facts { keeps: !binds(arm.pat, id), ..idle() },
        both(guard_facts(g, arm, id), facts(g, arm.body, Role::Own, id)),
    )
}

pub open spec fn arms_facts(g: Ground, arms: Seq<model::Arm>, id: LocalId) -> Seq<Facts> {
    Seq::new(arms.len(), |k: int| arm_facts(g, arms[k], id))
}

pub proof fn facts_of_match(g: Ground, e: model::Expr, r: Role, id: LocalId)
    requires
        e.kind is Match,
    ensures
        ({
            let f = facts(g, e, r, id);
            let h = both(
                facts(g, *e.kind->Match_scrutinee, Role::Own, id),
                total(arms_facts(g, e.kind->Match_arms, id)),
            );
            &&& f.uses == h.uses
            &&& f.takes == h.takes
            &&& f.keeps == h.keeps
            &&& f.straight == (h.straight && e.kind->Match_arms.len() > 0)
        }),
{
    reveal(total);
    facts_unfold(g, e, r, id);
    let top = *e.kind->Match_scrutinee;
    let arms = e.kind->Match_arms;
    let list = arms_facts(g, arms, id);
    let f = facts(g, e, r, id);
    let h = both(facts(g, top, Role::Own, id), total(list));
    assert(gives(g, e, top, Role::Own));
    assert forall|k: int| 0 <= k < arms.len() implies (#[trigger] list[k].uses ==> f.uses) && (
    list[k].takes ==> f.takes) && (f.keeps ==> list[k].keeps) && (f.straight
        ==> list[k].straight) by {
        assert(list[k] == arm_facts(g, arms[k], id));
        assert(arm_hands(arms[k], arms[k].body, Role::Own));
        assert(gives(g, e, arms[k].body, Role::Own));
        if arms[k].guard is Some {
            assert(arm_hands(arms[k], arms[k].guard->0, Role::Own));
            assert(gives(g, e, arms[k].guard->0, Role::Own));
        }
        assert(f.keeps ==> !binds(arms[k].pat, id));
    }
    assert forall|x: model::Expr, q: Role| #[trigger] gives(g, e, x, q) implies (facts(
        g,
        x,
        q,
        id,
    ).uses ==> h.uses) && (facts(g, x, q, id).takes ==> h.takes) && (h.keeps ==> facts(
        g,
        x,
        q,
        id,
    ).keeps) && (h.straight ==> facts(g, x, q, id).straight) by {
        if !(x == top && q == Role::Own) {
            let k = choose|k: int| 0 <= k < arms.len() && arm_hands(#[trigger] arms[k], x, q);
            assert(list[k] == arm_facts(g, arms[k], id));
        }
    }
    if h.keeps && renews(e, id) {
        let k = choose|k: int| 0 <= k < arms.len() && binds((#[trigger] arms[k]).pat, id);
        assert(list[k] == arm_facts(g, arms[k], id));
    }
    assert(f.uses == h.uses);
    assert(f.takes == h.takes);
    assert(f.keeps == h.keeps);
}

// ---------------------------------------------------------------- the walk

/// An expression walked as its role says.
pub open spec fn walked(env: Env, s: State, e: model::Expr, r: Role) -> State {
    match r {
        Role::Read => place(env, s, e),
        Role::Own => value(env, s, e),
        Role::Sink => consume(env, s, e),
    }
}

/// The same loops are open, each over as many locals.
pub open spec fn same_frames(s: State, t: State) -> bool {
    &&& t.frames.len() == s.frames.len()
    &&& forall|k: int|
        0 <= k < s.frames.len() ==> (#[trigger] t.frames[k]).moved.len()
            == s.frames[k].moved.len()
}

/// How a walk from `s` to `t` over something with facts `f` treats local `id`.
#[verifier::opaque]
pub open spec fn treats(s: State, t: State, id: LocalId, f: Facts) -> bool {
    &&& t.moved.len() == s.moved.len()
    &&& same_frames(s, t)
    &&& t.errors.len() >= s.errors.len()
    &&& f.keeps && s.at(id) is Some ==> t.at(id) is Some
    &&& f.keeps && s.at(id) is Some && f.uses ==> t.errors.len() > s.errors.len()
    &&& f.straight ==> t.diverged == s.diverged && t.frames == s.frames
    &&& f.straight && f.keeps && id.0 < s.moved.len() ==> (t.at(id) is Some <==> s.at(id) is Some
        || f.takes)
}

proof fn treats_in_turn(s: State, t: State, u: State, id: LocalId, f: Facts, g: Facts)
    requires
        treats(s, t, id, f),
        treats(t, u, id, g),
    ensures
        treats(s, u, id, both(f, g)),
{
    reveal(treats);
}

proof fn treats_idly(s: State, id: LocalId)
    ensures
        treats(s, s, id, idle()),
{
    reveal(treats);
}

pub proof fn idle_adds_nothing(f: Facts)
    ensures
        both(idle(), f) == f,
        both(f, idle()) == f,
{
}

proof fn bind_treats(s: State, p: model::Pat, id: LocalId)
    ensures
        treats(s, bind(s, p), id, (Facts { keeps: !binds(p, id), ..idle() })),
        bind(s, p).errors == s.errors,
    decreases p, 1nat,
{
    reveal(treats);
    match p.kind {
        model::PatKind::Variant { args, .. } => bind_all_treats(s, args, id),
        model::PatKind::Struct { args, .. } => bind_all_treats(s, args, id),
        model::PatKind::Or(alts) => bind_all_treats(s, alts, id),
        _ => {},
    }
}

proof fn bind_all_treats(s: State, ps: Seq<model::Pat>, id: LocalId)
    ensures
        treats(
            s,
            bind_all(s, ps),
            id,
            (Facts {
                keeps: !exists|k: int| 0 <= k < ps.len() && binds(#[trigger] ps[k], id),
                ..idle()
            }),
        ),
        bind_all(s, ps).errors == s.errors,
    decreases ps, 0nat,
{
    reveal(treats);
    if ps.len() > 0 {
        let init = ps.drop_last();
        bind_all_treats(s, init, id);
        bind_treats(bind_all(s, init), ps.last(), id);
        if !exists|k: int| 0 <= k < ps.len() && binds(#[trigger] ps[k], id) {
            assert forall|k: int| 0 <= k < init.len() implies !binds(#[trigger] init[k], id) by {
                assert(init[k] == ps[k]);
            }
            assert(!binds(ps[ps.len() - 1], id));
        }
    }
}

pub proof fn plain_facts(g: Ground, e: model::Expr, r: Role, id: LocalId)
    requires
        !(e.kind is Local || e.kind is Block || e.kind is Match || turns_off(e)),
    ensures
        own_facts(g, e, r, id) == idle(),
{
}

proof fn walk_treats(env: Env, s: State, e: model::Expr, r: Role, id: LocalId)
    ensures
        treats(s, walked(env, s, e, r), id, facts(ground(env, id), e, r, id)),
    decreases e, 3nat,
{
    match e.kind {
        model::ExprKind::Local(j) => {
            reveal(treats);
            facts_of_none(ground(env, id), e, r, id);
        },
        model::ExprKind::Field { base, .. } => {
            facts_of_one(ground(env, id), e, r, id, *base, Role::Read);
            let s1 = if !(r is Read) && crate::types::affine(env.program, e.ty) {
                s.report(crate::moves::out_of_field(env, base.ty, e.kind->Field_index, e.span))
            } else {
                s
            };
            walk_treats(env, s1, *base, Role::Read, id);
            reveal(treats);
        },
        _ => parts_treat(env, s, e, r, id),
    }
}

proof fn parts_treat(env: Env, s: State, e: model::Expr, r: Role, id: LocalId)
    requires
        !(e.kind is Local),
        !(e.kind is Field),
    ensures
        treats(s, parts(env, s, e), id, facts(ground(env, id), e, r, id)),
    decreases e, 2nat,
{
    if !(e.kind is Block || e.kind is Match || turns_off(e)) {
        plain_facts(ground(env, id), e, r, id);
    }
    match e.kind {
        model::ExprKind::Unary { expr, .. } => {
            facts_of_one(ground(env, id), e, r, id, *expr, Role::Own);
            walk_treats(env, s, *expr, Role::Own, id);
            idle_adds_nothing(facts(ground(env, id), *expr, Role::Own, id));
        },
        model::ExprKind::Await { expr, .. } => {
            facts_of_one(ground(env, id), e, r, id, *expr, Role::Own);
            walk_treats(env, s, *expr, Role::Own, id);
            idle_adds_nothing(facts(ground(env, id), *expr, Role::Own, id));
        },
        model::ExprKind::Spawn { expr, .. } => {
            facts_of_one(ground(env, id), e, r, id, *expr, Role::Own);
            walk_treats(env, s, *expr, Role::Own, id);
            idle_adds_nothing(facts(ground(env, id), *expr, Role::Own, id));
        },
        model::ExprKind::Try { expr, .. } => {
            facts_of_one(ground(env, id), e, r, id, *expr, Role::Own);
            walk_treats(env, s, *expr, Role::Own, id);
            idle_adds_nothing(facts(ground(env, id), *expr, Role::Own, id));
        },
        model::ExprKind::Scope { body, .. } => {
            facts_of_one(ground(env, id), e, r, id, *body, Role::Own);
            walk_treats(env, s, *body, Role::Own, id);
            idle_adds_nothing(facts(ground(env, id), *body, Role::Own, id));
        },
        model::ExprKind::ReactorInput { reactor, .. } => {
            facts_of_one(ground(env, id), e, r, id, *reactor, Role::Read);
            walk_treats(env, s, *reactor, Role::Read, id);
            idle_adds_nothing(facts(ground(env, id), *reactor, Role::Read, id));
        },
        model::ExprKind::ReactorExport { reactor, .. } => {
            facts_of_one(ground(env, id), e, r, id, *reactor, Role::Read);
            walk_treats(env, s, *reactor, Role::Read, id);
            idle_adds_nothing(facts(ground(env, id), *reactor, Role::Read, id));
        },
        model::ExprKind::Binary { lhs, rhs, .. } => {
            facts_of_two(ground(env, id), e, r, id, *lhs, *rhs);
            let s1 = value(env, s, *lhs);
            walk_treats(env, s, *lhs, Role::Own, id);
            walk_treats(env, s1, *rhs, Role::Own, id);
            treats_in_turn(
                s,
                s1,
                value(env, s1, *rhs),
                id,
                facts(ground(env, id), *lhs, Role::Own, id),
                facts(ground(env, id), *rhs, Role::Own, id),
            );
            idle_adds_nothing(
                both(
                    facts(ground(env, id), *lhs, Role::Own, id),
                    facts(ground(env, id), *rhs, Role::Own, id),
                ),
            );
        },
        model::ExprKind::ShortCircuit { .. } => short_circuits_treat(env, s, e, r, id),
        model::ExprKind::Call { callee, args } => {
            let role = |k: int| role_of(mode_at(env.modes, callee, k));
            facts_of_args(ground(env, id), e, r, id, args, role);
            call_args_treat(env, s, callee, args, id);
            idle_adds_nothing(total(call_facts(ground(env, id), callee, args, id)));
            assert(
                arg_facts(
                    ground(env, id),
                    args,
                    role,
                    id,
                ) =~= call_facts(ground(env, id), callee, args, id)
            );
        },
        model::ExprKind::Builtin { builtin, args } => {
            let role = |k: int| role_of(builtin_mode_at(env.vocabulary, builtin, k));
            facts_of_args(ground(env, id), e, r, id, args, role);
            builtin_args_treat(env, s, builtin, args, id);
            idle_adds_nothing(total(builtin_facts(ground(env, id), builtin, args, id)));
            assert(
                arg_facts(
                    ground(env, id),
                    args,
                    role,
                    id,
                ) =~= builtin_facts(ground(env, id), builtin, args, id)
            );
        },
        model::ExprKind::Construct { args, .. } => {
            facts_of_args(ground(env, id), e, r, id, args, |k: int| Role::Own);
            values_treat(env, s, args, id);
            idle_adds_nothing(total(arg_facts(ground(env, id), args, |k: int| Role::Own, id)));
        },
        model::ExprKind::SpawnReactor { args, .. } => {
            facts_of_args(ground(env, id), e, r, id, args, |k: int| Role::Own);
            values_treat(env, s, args, id);
            idle_adds_nothing(total(arg_facts(ground(env, id), args, |k: int| Role::Own, id)));
        },
        model::ExprKind::Match { .. } => matches_treat(env, s, e, r, id),
        model::ExprKind::If { .. } => ifs_treat(env, s, e, r, id),
        model::ExprKind::Block { stmts, tail } => {
            facts_of_block(ground(env, id), e, r, id);
            stmts_treat(env, s, stmts, id);
            let s1 = stmts_from(env, s, stmts);
            match tail {
                Some(t) => {
                    walk_treats(env, s1, *t, Role::Own, id);
                    treats_in_turn(
                        s,
                        s1,
                        value(env, s1, *t),
                        id,
                        total(stmts_facts(ground(env, id), stmts, id)),
                        facts(ground(env, id), *t, Role::Own, id),
                    );
                },
                None => {
                    treats_idly(s1, id);
                    treats_in_turn(
                        s,
                        s1,
                        s1,
                        id,
                        total(stmts_facts(ground(env, id), stmts, id)),
                        idle(),
                    );
                },
            }
        },
        model::ExprKind::Return { .. } => jumps_treat(env, s, e, r, id),
        model::ExprKind::Break { .. } => jumps_treat(env, s, e, r, id),
        model::ExprKind::While { .. } => whiles_treat(env, s, e, r, id),
        model::ExprKind::Loop { .. } => loops_treat(env, s, e, r, id),
        _ => {
            facts_of_none(ground(env, id), e, r, id);
            reveal(treats);
        },
    }
}

proof fn short_circuits_treat(env: Env, s: State, e: model::Expr, r: Role, id: LocalId)
    requires
        e.kind is ShortCircuit,
    ensures
        treats(s, parts(env, s, e), id, facts(ground(env, id), e, r, id)),
    decreases e, 1nat,
{
    let lhs = *e.kind->ShortCircuit_lhs;
    let rhs = *e.kind->ShortCircuit_rhs;
    facts_of_two(ground(env, id), e, r, id, lhs, rhs);
    let s1 = value(env, s, lhs);
    walk_treats(env, s, lhs, Role::Own, id);
    let (end, taken) = branch(env, s1, rhs);
    walk_treats(env, State { diverged: false, ..s1 }, rhs, Role::Own, id);
    let missed = Outcome { moved: s1.moved, diverged: false };
    let outcomes = seq![taken, missed];
    let t = rejoin(end, s1.moved, outcomes);
    first_moved_is_some(outcomes, id.0 as int);
    assert(!outcomes[1].diverged && !outcomes[1].diverged);
    assert(outcomes[0] == taken);
    assert(treats(s1, t, id, facts(ground(env, id), rhs, Role::Own, id))) by {
        reveal(treats);
    }
    treats_in_turn(
        s,
        s1,
        t,
        id,
        facts(ground(env, id), lhs, Role::Own, id),
        facts(ground(env, id), rhs, Role::Own, id),
    );
}

proof fn ifs_treat(env: Env, s: State, e: model::Expr, r: Role, id: LocalId)
    requires
        e.kind is If,
    ensures
        treats(s, parts(env, s, e), id, facts(ground(env, id), e, r, id)),
    decreases e, 1nat,
{
    let cond = *e.kind->If_cond;
    let then = *e.kind->If_then;
    let els = e.kind->If_els;
    let s1 = value(env, s, cond);
    walk_treats(env, s, cond, Role::Own, id);
    let (s2, taken) = branch(env, s1, then);
    walk_treats(env, State { diverged: false, ..s1 }, then, Role::Own, id);
    let f = facts(ground(env, id), cond, Role::Own, id);
    let g = facts(ground(env, id), then, Role::Own, id);
    match els {
        Some(b) => {
            let x = *b;
            assert forall|y: model::Expr, p: Role| #[trigger] gives(
                ground(env, id),
                e,
                y,
                p,
            ) <==> (y == cond || y
                == then || y == x) && p == Role::Own by {
                assert(els == Some(Box::new(y)) <==> y == x);
            }
            facts_of_three(ground(env, id), e, r, id, cond, then, x);
            let from = State { moved: s1.moved, ..s2 };
            let (s3, missed) = branch(env, from, x);
            walk_treats(env, State { diverged: false, ..from }, x, Role::Own, id);
            let outcomes = seq![taken, missed];
            let t = rejoin(s3, s1.moved, outcomes);
            assert(outcomes[0] == taken && outcomes[1] == missed);
            first_moved_is_some(outcomes, id.0 as int);
            let h = facts(ground(env, id), x, Role::Own, id);
            assert(treats(s1, t, id, both(g, h))) by {
                reveal(treats);
            }
            treats_in_turn(s, s1, t, id, f, both(g, h));
        },
        None => {
            facts_of_two(ground(env, id), e, r, id, cond, then);
            let missed = Outcome { moved: s1.moved, diverged: false };
            let outcomes = seq![taken, missed];
            let t = rejoin(s2, s1.moved, outcomes);
            assert(outcomes[0] == taken && outcomes[1] == missed);
            assert(!outcomes[1].diverged);
            first_moved_is_some(outcomes, id.0 as int);
            assert(treats(s1, t, id, g)) by {
                reveal(treats);
            }
            treats_in_turn(s, s1, t, id, f, g);
        },
    }
}

proof fn jumps_treat(env: Env, s: State, e: model::Expr, r: Role, id: LocalId)
    requires
        e.kind is Return || e.kind is Break,
    ensures
        treats(s, parts(env, s, e), id, facts(ground(env, id), e, r, id)),
    decreases e, 1nat,
{
    let operand = if e.kind is Return {
        e.kind->Return_value
    } else {
        e.kind->Break_value
    };
    let own = own_facts(ground(env, id), e, r, id);
    let s1 = match operand {
        Some(x) => value(env, s, *x),
        None => s,
    };
    let f = maybe_facts(ground(env, id), operand, id);
    match operand {
        Some(x) => {
            assert forall|y: model::Expr, p: Role| #[trigger] gives(
                ground(env, id),
                e,
                y,
                p,
            ) <==> y == *x && p
                == Role::Own by {
                assert(operand == Some(Box::new(y)) <==> y == *x);
            }
            facts_of_one(ground(env, id), e, r, id, *x, Role::Own);
            walk_treats(env, s, *x, Role::Own, id);
        },
        None => {
            facts_of_none(ground(env, id), e, r, id);
            treats_idly(s, id);
        },
    }
    let t = parts(env, s, e);
    assert(treats(s, s1, id, f));
    assert(treats(s1, t, id, own)) by {
        reveal(treats);
    }
    treats_in_turn(s, s1, t, id, f, own);
    assert(both(f, own) =~= facts(ground(env, id), e, r, id));
}

proof fn loops_treat(env: Env, s: State, e: model::Expr, r: Role, id: LocalId)
    requires
        e.kind is Loop,
    ensures
        treats(s, parts(env, s, e), id, facts(ground(env, id), e, r, id)),
    decreases e, 1nat,
{
    let body = *e.kind->Loop_body;
    facts_of_one(ground(env, id), e, r, id, body, Role::Own);
    let s0 = enter_loop(s);
    walk_treats(env, State { diverged: false, ..s0 }, body, Role::Own, id);
    let (last, outcome) = branch(env, s0, body);
    assert(parts(env, s, e) == endless_loop(env, s, e));
    let t = parts(env, s, e);
    assert(!facts(ground(env, id), e, r, id).straight);
    assert(treats(s0, last, id, facts(ground(env, id), body, Role::Own, id))) by {
        reveal(treats);
    }
    assert(t.errors.len() >= last.errors.len());
    assert(t.moved == s.moved);
    reveal(treats);
}

proof fn whiles_treat(env: Env, s: State, e: model::Expr, r: Role, id: LocalId)
    requires
        e.kind is While,
    ensures
        treats(s, parts(env, s, e), id, facts(ground(env, id), e, r, id)),
    decreases e, 1nat,
{
    let cond = *e.kind->While_cond;
    let body = *e.kind->While_body;
    facts_of_two(ground(env, id), e, r, id, cond, body);
    let s0 = enter_loop(s);
    let inner = value(env, s0, cond);
    walk_treats(env, s0, cond, Role::Own, id);
    walk_treats(env, State { diverged: false, ..inner }, body, Role::Own, id);
    let (last, outcome) = branch(env, inner, body);
    assert(parts(env, s, e) == while_loop(env, s, e));
    let f = facts(ground(env, id), e, r, id);
    let t = parts(env, s, e);
    assert(!f.straight);
    assert(treats(s0, inner, id, facts(ground(env, id), cond, Role::Own, id)));
    assert(treats(inner, last, id, facts(ground(env, id), body, Role::Own, id))) by {
        reveal(treats);
    }
    treats_in_turn(
        s0,
        inner,
        last,
        id,
        facts(ground(env, id), cond, Role::Own, id),
        facts(ground(env, id), body, Role::Own, id),
    );
    assert(t.errors.len() >= last.errors.len());
    assert(t.moved == s.moved);
    reveal(treats);
}

proof fn matches_treat(env: Env, s: State, e: model::Expr, r: Role, id: LocalId)
    requires
        e.kind is Match,
    ensures
        treats(s, parts(env, s, e), id, facts(ground(env, id), e, r, id)),
    decreases e, 1nat,
{
    let top = *e.kind->Match_scrutinee;
    let arms = e.kind->Match_arms;
    facts_of_match(ground(env, id), e, r, id);
    let s1 = value(env, s, top);
    walk_treats(env, s, top, Role::Own, id);
    arms_treat(env, s1, reread(top), arms, id);
    let (end, entry, outcomes) = arms_from(env, s1, reread(top), arms);
    let t = rejoin(end, entry, outcomes);
    first_moved_is_some(outcomes, id.0 as int);
    let g = total(arms_facts(ground(env, id), arms, id));
    let h = Facts { straight: g.straight && arms.len() > 0, ..g };
    assert(treats(s1, t, id, h)) by {
        reveal(treats);
        if h.straight {
            assert(!outcomes[0].diverged);
        }
    }
    treats_in_turn(s, s1, t, id, facts(ground(env, id), top, Role::Own, id), h);
}

/// What the arms of a `match` come to, for one local.
pub open spec fn arms_treated(
    s: State,
    t: State,
    entry: Seq<Option<Span>>,
    outcomes: Seq<Outcome>,
    id: LocalId,
    f: Facts,
) -> bool {
    &&& t.moved.len() == s.moved.len()
    &&& entry.len() == s.moved.len()
    &&& forall|k: int|
        0 <= k < outcomes.len() ==> (#[trigger] outcomes[k]).moved.len() == s.moved.len()
    &&& same_frames(s, t)
    &&& t.errors.len() >= s.errors.len()
    &&& f.keeps && s.at(id) is Some ==> entry[id.0 as int] is Some
    &&& f.keeps && s.at(id) is Some && f.uses ==> t.errors.len() > s.errors.len()
    &&& f.straight ==> t.diverged == s.diverged && t.frames == s.frames && forall|k: int|
        0 <= k < outcomes.len() ==> !(#[trigger] outcomes[k]).diverged
    &&& f.straight && f.keeps && id.0 < s.moved.len() ==> {
        let some = entry[id.0 as int] is Some || exists|k: int|
            0 <= k < outcomes.len() && (#[trigger] outcomes[k]).moved[id.0 as int] is Some;
        some <==> s.at(id) is Some || f.takes
    }
}

proof fn arms_treat(
    env: Env,
    s: State,
    reread: Option<(LocalId, Span)>,
    arms: Seq<model::Arm>,
    id: LocalId,
)
    ensures
        ({
            let (t, entry, outcomes) = arms_from(env, s, reread, arms);
            &&& outcomes.len() == arms.len()
            &&& arms_treated(
                s,
                t,
                entry,
                outcomes,
                id,
                total(arms_facts(ground(env, id), arms, id)),
            )
        }),
    decreases arms, 5nat,
{
    let list = arms_facts(ground(env, id), arms, id);
    if arms.len() == 0 {
        total_of_none(list);
    } else {
        let arm = arms.last();
        let init = arms.drop_last();
        arms_treat(env, s, reread, init, id);
        total_of_more(
            list,
            arms_facts(ground(env, id), init, id),
            arm_facts(ground(env, id), arm, id),
        );
        let f0 = total(arms_facts(ground(env, id), init, id));
        let (s1, entry1, outs) = arms_from(env, s, reread, init);
        let from = State { moved: entry1, ..s1 };
        let s2 = bind(from, arm.pat);
        bind_treats(from, arm.pat, id);
        let fb = Facts { keeps: !binds(arm.pat, id), ..idle() };
        let fg = guard_facts(ground(env, id), arm, id);
        let fx = facts(ground(env, id), arm.body, Role::Own, id);
        let (s3, entry, gone) = match arm.guard {
            Some(guard) => {
                let (a, asked) = branch(env, s2, guard);
                let b = match reread {
                    Some((j, span)) => live(env, a, j, span),
                    None => a,
                };
                (b, b.moved, asked.diverged)
            },
            None => (s2, entry1, false),
        };
        if arm.guard is Some {
            assert(decreases_to!(arms => arm));
            assert(decreases_to!(arm => arm.guard->0));
            walk_treats(env, State { diverged: false, ..s2 }, arm.guard->0, Role::Own, id);
        }
        assert(decreases_to!(arms => arm));
        assert(decreases_to!(arm => arm.body));
        walk_treats(env, State { diverged: false, ..s3 }, arm.body, Role::Own, id);
        let (t, outcome) = branch(env, s3, arm.body);
        let last = Outcome { diverged: gone || outcome.diverged, ..outcome };
        let outcomes = outs.push(last);
        assert(arms_from(env, s, reread, arms) == (t, entry, outcomes));
        assert(outcomes[outs.len() as int] == last);
        assert forall|k: int| 0 <= k < outs.len() implies #[trigger] outcomes[k] == outs[k] by {}
        arms_add_up(
            s,
            s1,
            entry1,
            outs,
            from,
            s2,
            s3,
            entry,
            gone,
            t,
            outcome,
            arm,
            id,
            f0,
            fb,
            fg,
            fx,
        );
    }
}

/// One more arm after those before it.
proof fn arms_add_up(
    s: State,
    s1: State,
    entry1: Seq<Option<Span>>,
    outs: Seq<Outcome>,
    from: State,
    s2: State,
    s3: State,
    entry: Seq<Option<Span>>,
    gone: bool,
    t: State,
    outcome: Outcome,
    arm: model::Arm,
    id: LocalId,
    f0: Facts,
    fb: Facts,
    fg: Facts,
    fx: Facts,
)
    requires
        arms_treated(s, s1, entry1, outs, id, f0),
        from == (State { moved: entry1, ..s1 }),
        treats(from, s2, id, fb),
        s2.errors == from.errors,
        arm.guard is None ==> s3 == s2 && entry == entry1 && !gone && fg == idle(),
        arm.guard is Some ==> entry == s3.moved && s3.diverged == s2.diverged && exists|
            a: State,
            end: State,
        |
            #![trigger treats(State { diverged: false, ..s2 }, end, id, fg), a.errors]
            treats(State { diverged: false, ..s2 }, end, id, fg) && end.diverged == gone && a == (
            State { diverged: s2.diverged, ..end }) && s3.moved == a.moved && s3.frames == a.frames
                && s3.errors.len() >= a.errors.len(),
        exists|end: State| #[trigger]
            treats(State { diverged: false, ..s3 }, end, id, fx) && t == (State {
                diverged: s3.diverged,
                ..end
            }) && outcome == (Outcome { moved: end.moved, diverged: end.diverged }),
    ensures
        arms_treated(
            s,
            t,
            entry,
            outs.push(Outcome { diverged: gone || outcome.diverged, ..outcome }),
            id,
            both(f0, both(fb, both(fg, fx))),
        ),
{
    reveal(treats);
    let last = Outcome { diverged: gone || outcome.diverged, ..outcome };
    let outcomes = outs.push(last);
    let n = outs.len() as int;
    assert(outcomes[n] == last);
    assert forall|k: int| 0 <= k < outs.len() implies #[trigger] outs[k] == outcomes[k] by {}
}

proof fn values_treat(
    env: Env,
    s: State,
    args: Seq<model::Expr>,
    id: LocalId,
)
    ensures
        treats(
            s,
            values(env, s, args),
            id,
            total(arg_facts(ground(env, id), args, |k: int| Role::Own, id)),
        ),
    decreases args, 5nat,
{
    let list = arg_facts(ground(env, id), args, |k: int| Role::Own, id);
    if args.len() == 0 {
        total_of_none(list);
        treats_idly(s, id);
    } else {
        let init = args.drop_last();
        let s1 = values(env, s, init);
        let t = values(env, s, args);
        values_treat(env, s, init, id);
        let r = Role::Own;
        let last = facts(ground(env, id), args.last(), r, id);
        total_of_more(list, arg_facts(ground(env, id), init, |k: int| Role::Own, id), last);
        assert(decreases_to!(args => args.last()));
        walk_treats(env, s1, args.last(), r, id);
        assert(t == value(env, s1, args.last()));
        assert(t == walked(env, s1, args.last(), r));
        treats_in_turn(
            s,
            s1,
            t,
            id,
            total(arg_facts(ground(env, id), init, |k: int| Role::Own, id)),
            last,
        );
    }
}

pub open spec fn call_facts(
    g: Ground,
    callee: FnId,
    args: Seq<model::Expr>,
    id: LocalId,
) -> Seq<Facts> {
    arg_facts(g, args, |k: int| role_of(mode_at(g.modes, callee, k)), id)
}

proof fn call_args_treat(
    env: Env,
    s: State,
    callee: FnId,
    args: Seq<model::Expr>,
    id: LocalId,
)
    ensures
        treats(
            s,
            call_args(env, s, callee, args),
            id,
            total(call_facts(ground(env, id), callee, args, id)),
        ),
    decreases args, 5nat,
{
    let list = call_facts(ground(env, id), callee, args, id);
    if args.len() == 0 {
        total_of_none(list);
        treats_idly(s, id);
    } else {
        let init = args.drop_last();
        let s1 = call_args(env, s, callee, init);
        let t = call_args(env, s, callee, args);
        call_args_treat(env, s, callee, init, id);
        let r = role_of(mode_at(env.modes, callee, args.len() - 1));
        let last = facts(ground(env, id), args.last(), r, id);
        total_of_more(list, call_facts(ground(env, id), callee, init, id), last);
        assert(decreases_to!(args => args.last()));
        walk_treats(env, s1, args.last(), r, id);
        assert(t == argument(env, s1, mode_at(env.modes, callee, args.len() - 1), args.last()));
        assert(t == walked(env, s1, args.last(), r));
        treats_in_turn(s, s1, t, id, total(call_facts(ground(env, id), callee, init, id)), last);
    }
}

pub open spec fn builtin_facts(
    g: Ground,
    builtin: Builtin,
    args: Seq<model::Expr>,
    id: LocalId,
) -> Seq<Facts> {
    arg_facts(g, args, |k: int| role_of(builtin_mode_at(g.vocabulary, builtin, k)), id)
}

proof fn builtin_args_treat(
    env: Env,
    s: State,
    builtin: Builtin,
    args: Seq<model::Expr>,
    id: LocalId,
)
    ensures
        treats(
            s,
            builtin_args(env, s, builtin, args),
            id,
            total(builtin_facts(ground(env, id), builtin, args, id)),
        ),
    decreases args, 5nat,
{
    let list = builtin_facts(ground(env, id), builtin, args, id);
    if args.len() == 0 {
        total_of_none(list);
        treats_idly(s, id);
    } else {
        let init = args.drop_last();
        let s1 = builtin_args(env, s, builtin, init);
        let t = builtin_args(env, s, builtin, args);
        builtin_args_treat(env, s, builtin, init, id);
        let r = role_of(builtin_mode_at(env.vocabulary, builtin, args.len() - 1));
        let last = facts(ground(env, id), args.last(), r, id);
        total_of_more(list, builtin_facts(ground(env, id), builtin, init, id), last);
        assert(decreases_to!(args => args.last()));
        walk_treats(env, s1, args.last(), r, id);
        assert(
            t == argument(
                env,
                s1,
                builtin_mode_at(env.vocabulary, builtin, args.len() - 1),
                args.last(),
            )
        );
        assert(t == walked(env, s1, args.last(), r));
        treats_in_turn(
            s,
            s1,
            t,
            id,
            total(builtin_facts(ground(env, id), builtin, init, id)),
            last,
        );
    }
}

proof fn stmts_treat(env: Env, s: State, stmts: Seq<model::Stmt>, id: LocalId)
    ensures
        treats(s, stmts_from(env, s, stmts), id, total(stmts_facts(ground(env, id), stmts, id))),
    decreases stmts, 5nat,
{
    let list = stmts_facts(ground(env, id), stmts, id);
    if stmts.len() == 0 {
        total_of_none(list);
        treats_idly(s, id);
    } else {
        let init = stmts.drop_last();
        let last = stmt_facts(ground(env, id), stmts.last(), id);
        let s1 = stmts_from(env, s, init);
        stmts_treat(env, s, init, id);
        total_of_more(list, stmts_facts(ground(env, id), init, id), last);
        assert(decreases_to!(stmts => stmts.last()));
        stmt_treats(env, s1, stmts.last(), id);
        treats_in_turn(
            s,
            s1,
            stmts_from(env, s, stmts),
            id,
            total(stmts_facts(ground(env, id), init, id)),
            last,
        );
    }
}

proof fn stmt_treats(env: Env, s: State, it: model::Stmt, id: LocalId)
    ensures
        treats(s, stmt(env, s, it), id, stmt_facts(ground(env, id), it, id)),
    decreases it, 4nat,
{
    match it.kind {
        model::StmtKind::Let { local, value: v } => {
            assert(decreases_to!(it => v));
            walk_treats(env, s, v, Role::Own, id);
            reveal(treats);
        },
        model::StmtKind::Assign { place: target, value: v } => {
            assert(decreases_to!(it => v));
            assert(decreases_to!(it => target));
            let s1 = value(env, s, v);
            walk_treats(env, s, v, Role::Own, id);
            walk_treats(env, s1, target, Role::Read, id);
            reveal(treats);
        },
        model::StmtKind::After { task, .. } => {
            assert(decreases_to!(it => task));
            walk_treats(env, s, task, Role::Own, id);
        },
        model::StmtKind::Expr(e) => {
            assert(decreases_to!(it => e));
            walk_treats(env, s, e, Role::Own, id);
        },
    }
}

// ---------------------------------------------------------------- laws of ownership

/// Ownership moves where values are handed on, and nowhere else. After a walk through an
/// expression that control passes through, a name that nothing gave a new value is gone exactly
/// if it was gone before, or a way down through the parts led to it and found an owner there.
pub proof fn names_go_where_they_are_handed(
    env: Env,
    s: State,
    e: model::Expr,
    r: Role,
    id: LocalId,
)
    requires
        id.0 < s.moved.len(),
        straight(env.modes, env.vocabulary, e),
        keeps(env.modes, env.vocabulary, e, id),
    ensures
        walked(env, s, e, r).at(id) is Some <==> s.at(id) is Some || took(
            env.modes,
            env.vocabulary,
            e,
            r,
            id,
            env.moves(id),
        ),
        walked(env, s, e, r).diverged == s.diverged,
        walked(env, s, e, r).frames == s.frames,
{
    walk_treats(env, s, e, r, id);
    reveal(treats);
    reveal(facts);
}

/// What is gone stays gone until it is given a new value, whatever runs, and a use of it anywhere
/// in what runs is reported. No report is ever taken back.
pub proof fn lost_names_are_reported(env: Env, s: State, e: model::Expr, r: Role, id: LocalId)
    ensures
        walked(env, s, e, r).errors.len() >= s.errors.len(),
        s.at(id) is Some && keeps(env.modes, env.vocabulary, e, id) ==> walked(env, s, e, r).at(
            id,
        ) is Some,
        s.at(id) is Some && keeps(env.modes, env.vocabulary, e, id) && uses(
            env.modes,
            env.vocabulary,
            e,
            id,
        ) ==> walked(env, s, e, r).errors.len() > s.errors.len(),
{
    walk_treats(env, s, e, r, id);
    reveal(treats);
    reveal(facts);
}

/// A value has one owner: what one expression took cannot be used by the next.
pub proof fn what_is_taken_cannot_be_used(
    env: Env,
    s: State,
    first: model::Expr,
    second: model::Expr,
    id: LocalId,
)
    requires
        id.0 < s.moved.len(),
        straight(env.modes, env.vocabulary, first),
        keeps(env.modes, env.vocabulary, first, id),
        took(env.modes, env.vocabulary, first, Role::Own, id, env.moves(id)),
        keeps(env.modes, env.vocabulary, second, id),
        uses(env.modes, env.vocabulary, second, id),
    ensures
        value(env, value(env, s, first), second).errors.len() > s.errors.len(),
{
    names_go_where_they_are_handed(env, s, first, Role::Own, id);
    lost_names_are_reported(env, s, first, Role::Own, id);
    lost_names_are_reported(env, value(env, s, first), second, Role::Own, id);
}

/// A constructor owns its payload, wherever in it the name stands: afterwards an owned name is
/// gone, and a later use of it is reported.
pub proof fn constructors_own_their_payload(
    env: Env,
    s: State,
    e: model::Expr,
    k: int,
    id: LocalId,
    later: model::Expr,
)
    requires
        e.kind is Construct,
        0 <= k < e.kind->Construct_args.len(),
        e.kind->Construct_args[k].kind == model::ExprKind::Local(id),
        env.moves(id),
        id.0 < s.moved.len(),
        keeps(env.modes, env.vocabulary, e, id),
        keeps(env.modes, env.vocabulary, later, id),
        uses(env.modes, env.vocabulary, later, id),
    ensures
        value(env, s, e).at(id) is Some,
        value(env, value(env, s, e), later).errors.len() > s.errors.len(),
{
    let args = e.kind->Construct_args;
    let modes = env.modes;
    let v = env.vocabulary;
    assert forall|j: int| 0 <= j < args.len() implies keeps(modes, v, #[trigger] args[j], id) by {
        assert(hands(modes, v, e, args[j], Role::Own));
        handed_parts_are_smaller(modes, v, e, args[j], Role::Own);
    }
    payload_is_taken(env, s, args, k, id);
    lost_names_are_reported(env, s, e, Role::Own, id);
    lost_names_are_reported(env, value(env, s, e), later, Role::Own, id);
}

proof fn payload_is_taken(env: Env, s: State, args: Seq<model::Expr>, k: int, id: LocalId)
    requires
        0 <= k < args.len(),
        args[k].kind == model::ExprKind::Local(id),
        env.moves(id),
        id.0 < s.moved.len(),
        forall|j: int|
            0 <= j < args.len() ==> keeps(env.modes, env.vocabulary, #[trigger] args[j], id),
    ensures
        values(env, s, args).at(id) is Some,
    decreases args.len(),
{
    let init = args.drop_last();
    let s1 = values(env, s, init);
    values_treat(env, s, init, id);
    assert(s1.moved.len() == s.moved.len()) by {
        reveal(treats);
    }
    if k < init.len() {
        assert(init[k] == args[k]);
        assert forall|j: int| 0 <= j < init.len() implies keeps(
            env.modes,
            env.vocabulary,
            #[trigger] init[j],
            id,
        ) by {
            assert(init[j] == args[j]);
        }
        payload_is_taken(env, s, init, k, id);
        assert(keeps(env.modes, env.vocabulary, args[args.len() - 1], id));
        lost_names_are_reported(env, s1, args.last(), Role::Own, id);
    } else {
        assert(args.last() == args[k]);
    }
    assert(values(env, s, args) == value(env, s1, args.last()));
}

/// In a block, a name that one statement hands over is reported wherever a later statement uses
/// it, unless a statement between gives it a new value.
pub proof fn blocks_report_a_second_use(
    env: Env,
    s: State,
    stmts: Seq<model::Stmt>,
    i: int,
    j: int,
    id: LocalId,
)
    requires
        0 <= i < j < stmts.len(),
        id.0 < s.moved.len(),
        stmt_facts(ground(env, id), stmts[i], id).takes,
        stmt_facts(ground(env, id), stmts[i], id).straight,
        stmt_facts(ground(env, id), stmts[j], id).uses,
        forall|k: int|
            i <= k <= j ==> stmt_facts(ground(env, id), #[trigger] stmts[k], id).keeps,
    ensures
        stmts_from(env, s, stmts).errors.len() > s.errors.len(),
    decreases stmts.len(),
{
    let init = stmts.drop_last();
    let s1 = stmts_from(env, s, init);
    stmts_treat(env, s, init, id);
    stmt_treats(env, s1, stmts.last(), id);
    assert(s1.moved.len() == s.moved.len() && s1.errors.len() >= s.errors.len()) by {
        reveal(treats);
    }
    if j < init.len() {
        assert forall|k: int| i <= k <= j implies stmt_facts(
            ground(env, id),
            #[trigger] init[k],
            id,
        ).keeps by {
            assert(init[k] == stmts[k]);
        }
        assert(init[i] == stmts[i] && init[j] == stmts[j]);
        blocks_report_a_second_use(env, s, init, i, j, id);
    } else {
        gone_by_then(env, s, init, i, id);
        assert(stmt_facts(ground(env, id), stmts[j], id).keeps);
    }
    reveal(treats);
}

proof fn gone_by_then(env: Env, s: State, stmts: Seq<model::Stmt>, i: int, id: LocalId)
    requires
        0 <= i < stmts.len(),
        id.0 < s.moved.len(),
        stmt_facts(ground(env, id), stmts[i], id).takes,
        stmt_facts(ground(env, id), stmts[i], id).straight,
        forall|k: int|
            i <= k < stmts.len() ==> stmt_facts(ground(env, id), #[trigger] stmts[k], id).keeps,
    ensures
        stmts_from(env, s, stmts).at(id) is Some,
    decreases stmts.len(),
{
    let init = stmts.drop_last();
    let s1 = stmts_from(env, s, init);
    stmts_treat(env, s, init, id);
    stmt_treats(env, s1, stmts.last(), id);
    let n = stmts.len() - 1;
    assert(stmts.last() == stmts[n]);
    assert(s1.moved.len() == s.moved.len()) by {
        reveal(treats);
    }
    if i < init.len() {
        assert forall|k: int| i <= k < init.len() implies stmt_facts(
            ground(env, id),
            #[trigger] init[k],
            id,
        ).keeps by {
            assert(init[k] == stmts[k]);
        }
        gone_by_then(env, s, init, i, id);
    }
    assert(stmt_facts(ground(env, id), stmts[n], id).keeps);
    reveal(treats);
}

proof fn escaped_is_reported(
    env: Env,
    entry: Seq<Option<Span>>,
    declared: Seq<bool>,
    summary: Seq<Option<Span>>,
    n: nat,
    i: int,
)
    requires
        0 <= i < n,
        i < summary.len() && i < declared.len() && i < entry.len() && i < env.locals.len(),
        summary[i] is Some,
        declared[i],
        entry[i] is None,
    ensures
        escaped(env, entry, declared, summary, n).len() > 0,
    decreases n,
{
    if i < n - 1 {
        escaped_is_reported(env, entry, declared, summary, (n - 1) as nat, i);
    }
}

/// A loop runs more than once: one whose body hands over a name from outside it is reported.
pub proof fn loops_cannot_hand_over_what_is_outside(
    env: Env,
    s: State,
    e: model::Expr,
    body: model::Expr,
    id: LocalId,
)
    requires
        match e.kind {
            model::ExprKind::While { cond, body: b } => body == *cond || body == *b,
            model::ExprKind::Loop { body: b } => body == *b,
            _ => false,
        },
        straight(env.modes, env.vocabulary, body),
        keeps(env.modes, env.vocabulary, e, id),
        took(env.modes, env.vocabulary, body, Role::Own, id, env.moves(id)),
        id.0 < s.moved.len() && id.0 < s.declared.len() && id.0 < env.locals.len(),
        s.declared[id.0 as int],
        s.at(id) is None,
    ensures
        value(env, s, e).errors.len() > s.errors.len(),
{
    let modes = env.modes;
    let v = env.vocabulary;
    assert(hands(modes, v, e, body, Role::Own));
    handed_parts_are_smaller(modes, v, e, body, Role::Own);
    let s0 = enter_loop(s);
    let i = id.0 as int;
    match e.kind {
        model::ExprKind::While { cond, body: b } => {
            assert(hands(modes, v, e, *cond, Role::Own));
            handed_parts_are_smaller(modes, v, e, *cond, Role::Own);
            let inner = value(env, s0, *cond);
            walk_treats(env, s0, *cond, Role::Own, id);
            let from = State { diverged: false, ..inner };
            let end = value(env, from, *b);
            walk_treats(env, from, *b, Role::Own, id);
            let (last, outcome) = branch(env, inner, *b);
            reveal(treats);
            let first = last.frames.last().moved;
            let mid = merged(first, inner.moved);
            let summary = if outcome.diverged {
                mid
            } else {
                merged(mid, outcome.moved)
            };
            if body == *cond {
                names_go_where_they_are_handed(env, s0, *cond, Role::Own, id);
                assert(inner.at(id) is Some);
            } else {
                names_go_where_they_are_handed(env, from, *b, Role::Own, id);
                assert(outcome.moved[i] is Some);
            }
            assert(summary[i] is Some);
            escaped_is_reported(env, s.moved, s.declared, summary, summary.len(), i);
            assert(value(env, s, e) == parts(env, s, e));
            assert(parts(env, s, e) == while_loop(env, s, e));
            assert(last.errors.len() >= s.errors.len());
            let over = leave_loop(env, s, last, Some(inner.moved), outcome);
            assert(while_loop(env, s, e).errors == over.errors);
            assert(over.errors == last.errors + escaped(
                env,
                s.moved,
                s.declared,
                summary,
                summary.len(),
            ));
        },
        model::ExprKind::Loop { body: b } => {
            let from = State { diverged: false, ..s0 };
            walk_treats(env, from, *b, Role::Own, id);
            names_go_where_they_are_handed(env, from, *b, Role::Own, id);
            let (last, outcome) = branch(env, s0, *b);
            reveal(treats);
            let summary = merged(last.frames.last().moved, outcome.moved);
            assert(summary[i] is Some);
            escaped_is_reported(env, s.moved, s.declared, summary, summary.len(), i);
            assert(value(env, s, e) == parts(env, s, e));
            assert(parts(env, s, e) == endless_loop(env, s, e));
            assert(last.errors.len() >= s.errors.len());
            let over = leave_loop(env, s, last, None, outcome);
            assert(endless_loop(env, s, e).errors == over.errors);
            assert(over.errors == last.errors + escaped(
                env,
                s.moved,
                s.declared,
                summary,
                summary.len(),
            ));
        },
        _ => {},
    }
}

} // verus!
