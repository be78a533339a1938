//! The names of a reactor's members that an expression mentions, honouring binders.
//!
//! The scan looks at the shape of the source alone. It gives the dependency edges before any body
//! is typed, so that the bodies can be typed in dependency order.

use vstd::prelude::*;
use vstd::string::*;
use crate::ast;
use crate::binding::is_builtin_variant;
use crate::span::{texts, Span};
use crate::state::{builtin_variant, Sort};
use crate::table::Table;
use crate::text::same;

verus! {

/// What was found so far. `bound` holds the names enclosing `let`s and patterns bind.
pub struct Found {
    pub bound: Seq<Seq<Seq<char>>>,
    pub reads: Seq<(Seq<char>, Span)>,
    pub writes: Seq<(Seq<char>, Span)>,
    pub calls: Seq<(Seq<char>, Span)>,
}

pub open spec fn mentions(list: Seq<(Seq<char>, Span)>, name: Seq<char>) -> bool {
    exists|i: int| 0 <= i < list.len() && (#[trigger] list[i]).0 == name
}

pub open spec fn frame_holds(bound: Seq<Seq<Seq<char>>>, name: Seq<char>) -> bool {
    exists|i: int| 0 <= i < bound.len() && (#[trigger] bound[i]).contains(name)
}

impl Found {
    pub open spec fn nothing() -> Found {
        Found { bound: seq![seq![]], reads: seq![], writes: seq![], calls: seq![] }
    }

    /// Whether a name, here, is a member: one exists, and nothing in scope shadows it.
    #[verifier::opaque]
    pub open spec fn sees(self, m: Map<Seq<char>, Sort>, name: Seq<char>) -> bool {
        !frame_holds(self.bound, name) && m.dom().contains(name)
    }

    #[verifier::opaque]
    pub open spec fn bind(self, name: Seq<char>) -> Found {
        Found {
            bound: if self.bound.len() == 0 {
                self.bound
            } else {
                self.bound.drop_last().push(self.bound.last().push(name))
            },
            ..self
        }
    }

    #[verifier::opaque]
    pub open spec fn open(self) -> Found {
        Found { bound: self.bound.push(seq![]), ..self }
    }

    #[verifier::opaque]
    pub open spec fn close(self) -> Found {
        Found {
            bound: if self.bound.len() == 0 {
                self.bound
            } else {
                self.bound.drop_last()
            },
            ..self
        }
    }

    /// A read of a member, noted once.
    #[verifier::opaque]
    pub open spec fn read(self, m: Map<Seq<char>, Sort>, name: Seq<char>, span: Span) -> Found {
        if self.sees(m, name) && !mentions(self.reads, name) {
            Found { reads: self.reads.push((name, span)), ..self }
        } else {
            self
        }
    }

    /// A call of a member, noted once.
    #[verifier::opaque]
    pub open spec fn call(self, m: Map<Seq<char>, Sort>, name: Seq<char>, span: Span) -> Found {
        if self.sees(m, name) && !mentions(self.calls, name) {
            Found { calls: self.calls.push((name, span)), ..self }
        } else {
            self
        }
    }

    #[verifier::opaque]
    pub open spec fn write(self, m: Map<Seq<char>, Sort>, name: Seq<char>, span: Span) -> Found {
        if self.sees(m, name) {
            Found { writes: self.writes.push((name, span)), ..self }
        } else {
            self
        }
    }
}

// ---------------------------------------------------------------- patterns

/// The names a pattern binds. The bare constructor names match and never bind.
pub open spec fn bind_pat(f: Found, pat: ast::Pat) -> Found
    decreases pat,
{
    match pat.kind {
        ast::PatKind::Binding(name) => if builtin_variant(name.name@) {
            f
        } else {
            f.bind(name.name@)
        },
        ast::PatKind::Construct { args, .. } => bind_pat_args(f, args@),
        ast::PatKind::Or(alts) => bind_pats(f, alts@),
        _ => f,
    }
}

pub open spec fn bind_pat_args(f: Found, args: Seq<ast::PatArg>) -> Found
    decreases args,
{
    if args.len() == 0 {
        f
    } else {
        bind_pat(bind_pat_args(f, args.drop_last()), args.last().pat)
    }
}

pub open spec fn bind_pats(f: Found, pats: Seq<ast::Pat>) -> Found
    decreases pats,
{
    if pats.len() == 0 {
        f
    } else {
        bind_pat(bind_pats(f, pats.drop_last()), pats.last())
    }
}

// ---------------------------------------------------------------- expressions

/// The head of a projection: `a` in `a.b.c`.
pub open spec fn head_name(e: ast::Expr) -> Option<ast::Ident>
    decreases e,
{
    match e.kind {
        ast::ExprKind::Path(path) => Some(path.head),
        ast::ExprKind::Field { base, .. } => head_name(*base),
        ast::ExprKind::Index { base, .. } => head_name(*base),
        _ => None,
    }
}

pub open spec fn scan_expr(f: Found, m: Map<Seq<char>, Sort>, e: ast::Expr) -> Found
    decreases e, 4nat,
{
    match e.kind {
        ast::ExprKind::Path(path) => f.read(m, path.head.name@, path.head.span),
        ast::ExprKind::Field { base, .. } => scan_expr(f, m, *base),
        ast::ExprKind::Call { callee, args, .. } => {
            let f1 = match callee.kind {
                ast::ExprKind::Path(path) => if path.rest@.len() == 0 {
                    f.call(m, path.head.name@, path.head.span)
                } else {
                    f
                },
                _ => scan_expr(f, m, *callee),
            };
            scan_args(f1, m, args@)
        },
        ast::ExprKind::SpawnReactor { args, .. } => scan_args(f, m, args@),
        ast::ExprKind::Unary { expr, .. } => scan_expr(f, m, *expr),
        ast::ExprKind::Await(expr) => scan_expr(f, m, *expr),
        ast::ExprKind::Spawn(expr) => scan_expr(f, m, *expr),
        ast::ExprKind::Try(expr) => scan_expr(f, m, *expr),
        ast::ExprKind::Binary { lhs, rhs, .. } => scan_expr(scan_expr(f, m, *lhs), m, *rhs),
        ast::ExprKind::Index { base, index } => scan_expr(scan_expr(f, m, *base), m, *index),
        ast::ExprKind::Block(block) => scan_block(f, m, block),
        ast::ExprKind::Scope(block) => scan_block(f, m, block),
        ast::ExprKind::If { cond, then, els } => {
            let f1 = scan_block(scan_expr(f, m, *cond), m, then);
            match els {
                Some(els) => scan_expr(f1, m, *els),
                None => f1,
            }
        },
        ast::ExprKind::While { cond, body } => scan_block(scan_expr(f, m, *cond), m, body),
        ast::ExprKind::Loop { body } => scan_block(f, m, body),
        ast::ExprKind::Break { value } => match value {
            Some(value) => scan_expr(f, m, *value),
            None => f,
        },
        ast::ExprKind::Match { scrutinee, arms } => scan_arms(
            scan_expr(f, m, *scrutinee),
            m,
            arms@,
        ),
        ast::ExprKind::Lambda { params, body } => scan_expr(
            bind_pats(f.open(), params@),
            m,
            *body,
        ).close(),
        _ => f,
    }
}

pub open spec fn scan_args(f: Found, m: Map<Seq<char>, Sort>, args: Seq<ast::Arg>) -> Found
    decreases args, 3nat,
{
    if args.len() == 0 {
        f
    } else {
        scan_expr(scan_args(f, m, args.drop_last()), m, args.last().value)
    }
}

pub open spec fn scan_arms(f: Found, m: Map<Seq<char>, Sort>, arms: Seq<ast::Arm>) -> Found
    decreases arms, 3nat,
{
    if arms.len() == 0 {
        f
    } else {
        scan_arm(scan_arms(f, m, arms.drop_last()), m, arms.last())
    }
}

pub open spec fn scan_arm(f: Found, m: Map<Seq<char>, Sort>, arm: ast::Arm) -> Found
    decreases arm, 5nat,
{
    let f1 = bind_pat(f.open(), arm.pat);
    let f2 = match arm.guard {
        Some(guard) => scan_expr(f1, m, guard),
        None => f1,
    };
    scan_expr(f2, m, arm.body).close()
}

pub open spec fn scan_block(f: Found, m: Map<Seq<char>, Sort>, block: ast::Block) -> Found
    decreases block, 3nat,
{
    scan_stmts(f.open(), m, block.stmts@).close()
}

pub open spec fn scan_stmts(f: Found, m: Map<Seq<char>, Sort>, stmts: Seq<ast::Stmt>) -> Found
    decreases stmts, 3nat,
{
    if stmts.len() == 0 {
        f
    } else {
        scan_stmt(scan_stmts(f, m, stmts.drop_last()), m, stmts.last())
    }
}

/// A binding is not in scope in its own value. A bare name assigned is a write and not a read; a
/// projection assigned is both.
pub open spec fn scan_stmt(f: Found, m: Map<Seq<char>, Sort>, stmt: ast::Stmt) -> Found
    decreases stmt, 5nat,
{
    match stmt.kind {
        ast::StmtKind::Let { name, value, .. } => scan_expr(f, m, value).bind(name.name@),
        ast::StmtKind::Assign { target, value } => {
            let f1 = scan_expr(f, m, value);
            if bare_name(target) {
                written(f1, m, target)
            } else {
                written(scan_expr(f1, m, target), m, target)
            }
        },
        ast::StmtKind::Return(value) => match value {
            Some(value) => scan_expr(f, m, value),
            None => f,
        },
        ast::StmtKind::After { task, .. } => scan_expr(f, m, task),
        ast::StmtKind::Expr(e) => scan_expr(f, m, e),
    }
}

pub open spec fn bare_name(e: ast::Expr) -> bool {
    match e.kind {
        ast::ExprKind::Path(path) => path.rest@.len() == 0,
        _ => false,
    }
}

/// The member an assignment target is rooted at is written.
#[verifier::opaque]
pub open spec fn written(f: Found, m: Map<Seq<char>, Sort>, target: ast::Expr) -> Found {
    match head_name(target) {
        Some(head) => f.write(m, head.name@, head.span),
        None => f,
    }
}

/// What an expression mentions.
#[verifier::opaque]
pub open spec fn mentioned(m: Map<Seq<char>, Sort>, e: ast::Expr) -> Found {
    scan_expr(Found::nothing(), m, e)
}

pub open spec fn bind_params(f: Found, params: Seq<ast::HandlerParam>) -> Found
    decreases params.len(),
{
    if params.len() == 0 {
        f
    } else {
        bind_params(f, params.drop_last()).bind(params.last().name.name@)
    }
}

/// What a handler mentions; its message shadows a member of the same name.
#[verifier::opaque]
pub open spec fn mentioned_by_handler(
    m: Map<Seq<char>, Sort>,
    params: Seq<ast::HandlerParam>,
    body: ast::Block,
) -> Found {
    scan_block(bind_params(Found::nothing(), params), m, body)
}

// ---------------------------------------------------------------- what a scan tells

/// Members alone, and each once.
pub open spec fn once(list: Seq<(Seq<char>, Span)>, m: Map<Seq<char>, Sort>) -> bool {
    &&& forall|i: int| 0 <= i < list.len() ==> m.dom().contains((#[trigger] list[i]).0)
    &&& forall|i: int, j: int|
        0 <= i < j < list.len() ==> (#[trigger] list[i]).0 != (#[trigger] list[j]).0
}

/// The reads and the calls are of members, each member once, and the writes are to members.
#[verifier::opaque]
pub open spec fn tells_once(f: Found, m: Map<Seq<char>, Sort>) -> bool {
    &&& once(f.reads, m)
    &&& once(f.calls, m)
    &&& forall|i: int| 0 <= i < f.writes.len() ==> m.dom().contains((#[trigger] f.writes[i]).0)
}

pub open spec fn told_the_same(a: Found, b: Found) -> bool {
    a.reads == b.reads && a.calls == b.calls && a.writes == b.writes
}

broadcast proof fn bind_tells_nothing(f: Found, name: Seq<char>)
    ensures
        told_the_same(f, #[trigger] f.bind(name)),
{
    reveal(Found::bind);
}

broadcast proof fn open_tells_nothing(f: Found)
    ensures
        told_the_same(f, #[trigger] f.open()),
{
    reveal(Found::open);
}

broadcast proof fn close_tells_nothing(f: Found)
    ensures
        told_the_same(f, #[trigger] f.close()),
{
    reveal(Found::close);
}

broadcast proof fn the_same_tells_once(a: Found, b: Found, m: Map<Seq<char>, Sort>)
    requires
        #[trigger] tells_once(a, m),
        told_the_same(a, b),
    ensures
        #[trigger] tells_once(b, m),
{
    reveal(tells_once);
}

broadcast proof fn read_tells_once(f: Found, m: Map<Seq<char>, Sort>, name: Seq<char>, span: Span)
    requires
        tells_once(f, m),
    ensures
        tells_once(#[trigger] f.read(m, name, span), m),
{
    reveal(Found::read);
    reveal(Found::sees);
    reveal(tells_once);
}

broadcast proof fn call_tells_once(f: Found, m: Map<Seq<char>, Sort>, name: Seq<char>, span: Span)
    requires
        tells_once(f, m),
    ensures
        tells_once(#[trigger] f.call(m, name, span), m),
{
    reveal(Found::call);
    reveal(Found::sees);
    reveal(tells_once);
}

broadcast proof fn write_tells_once(f: Found, m: Map<Seq<char>, Sort>, name: Seq<char>, span: Span)
    requires
        tells_once(f, m),
    ensures
        tells_once(#[trigger] f.write(m, name, span), m),
{
    reveal(Found::write);
    reveal(Found::sees);
    reveal(tells_once);
}

proof fn bind_params_tells_nothing(f: Found, params: Seq<ast::HandlerParam>)
    ensures
        told_the_same(f, bind_params(f, params)),
    decreases params.len(),
{
    broadcast use bind_tells_nothing;

    if params.len() > 0 {
        bind_params_tells_nothing(f, params.drop_last());
    }
}

proof fn bind_pats_tells_nothing(f: Found, pats: Seq<ast::Pat>)
    ensures
        told_the_same(f, bind_pats(f, pats)),
    decreases pats,
{
    broadcast use bind_tells_nothing;

    if pats.len() > 0 {
        bind_pats_tells_nothing(f, pats.drop_last());
        bind_pat_tells_nothing(bind_pats(f, pats.drop_last()), pats.last());
    }
}

proof fn bind_pat_args_tells_nothing(f: Found, args: Seq<ast::PatArg>)
    ensures
        told_the_same(f, bind_pat_args(f, args)),
    decreases args,
{
    broadcast use bind_tells_nothing;

    if args.len() > 0 {
        bind_pat_args_tells_nothing(f, args.drop_last());
        bind_pat_tells_nothing(bind_pat_args(f, args.drop_last()), args.last().pat);
    }
}

proof fn bind_pat_tells_nothing(f: Found, pat: ast::Pat)
    ensures
        told_the_same(f, bind_pat(f, pat)),
    decreases pat,
{
    broadcast use bind_tells_nothing;

    match pat.kind {
        ast::PatKind::Binding(name) => {},
        ast::PatKind::Construct { args, .. } => {
            bind_pat_args_tells_nothing(f, args@);
        },
        ast::PatKind::Or(alts) => {
            bind_pats_tells_nothing(f, alts@);
        },
        _ => {},
    }
}

proof fn written_tells_once(f: Found, m: Map<Seq<char>, Sort>, target: ast::Expr)
    requires
        tells_once(f, m),
    ensures
        tells_once(written(f, m, target), m),
{
    broadcast use {
        bind_tells_nothing,
        open_tells_nothing,
        close_tells_nothing,
        read_tells_once,
        call_tells_once,
        write_tells_once,
        the_same_tells_once,
    };

    reveal(written);
}

proof fn scan_stmt_tells_once(f: Found, m: Map<Seq<char>, Sort>, stmt: ast::Stmt)
    requires
        tells_once(f, m),
    ensures
        tells_once(scan_stmt(f, m, stmt), m),
    decreases stmt, 5nat,
{
    broadcast use {
        bind_tells_nothing,
        open_tells_nothing,
        close_tells_nothing,
        read_tells_once,
        call_tells_once,
        write_tells_once,
        the_same_tells_once,
    };

    match stmt.kind {
        ast::StmtKind::Let { name, value, .. } => {
            scan_expr_tells_once(f, m, value);
        },
        ast::StmtKind::Assign { target, value } => {
            scan_expr_tells_once(f, m, value);
            let f1 = scan_expr(f, m, value);
            if bare_name(target) {
                written_tells_once(f1, m, target);
            } else {
                scan_expr_tells_once(f1, m, target);
                written_tells_once(scan_expr(f1, m, target), m, target);
            }
        },
        ast::StmtKind::Return(value) => {
            match value {
                Some(value) => {
                    scan_expr_tells_once(f, m, value);
                },
                _ => {},
            }
        },
        ast::StmtKind::After { task, .. } => {
            scan_expr_tells_once(f, m, task);
        },
        ast::StmtKind::Expr(e) => {
            scan_expr_tells_once(f, m, e);
        },
    }
}

proof fn scan_stmts_tells_once(
    f: Found,
    m: Map<Seq<char>, Sort>,
    stmts: Seq<ast::Stmt>,
)
    requires
        tells_once(f, m),
    ensures
        tells_once(scan_stmts(f, m, stmts), m),
    decreases stmts, 3nat,
{
    broadcast use {
        bind_tells_nothing,
        open_tells_nothing,
        close_tells_nothing,
        read_tells_once,
        call_tells_once,
        write_tells_once,
        the_same_tells_once,
    };

    if stmts.len() > 0 {
        scan_stmts_tells_once(f, m, stmts.drop_last());
        scan_stmt_tells_once(scan_stmts(f, m, stmts.drop_last()), m, stmts.last());
    }
}

proof fn scan_block_tells_once(f: Found, m: Map<Seq<char>, Sort>, block: ast::Block)
    requires
        tells_once(f, m),
    ensures
        tells_once(scan_block(f, m, block), m),
    decreases block, 3nat,
{
    broadcast use {
        bind_tells_nothing,
        open_tells_nothing,
        close_tells_nothing,
        read_tells_once,
        call_tells_once,
        write_tells_once,
        the_same_tells_once,
    };

    scan_stmts_tells_once(f.open(), m, block.stmts@);
}

proof fn scan_arm_tells_once(f: Found, m: Map<Seq<char>, Sort>, arm: ast::Arm)
    requires
        tells_once(f, m),
    ensures
        tells_once(scan_arm(f, m, arm), m),
    decreases arm, 5nat,
{
    broadcast use {
        bind_tells_nothing,
        open_tells_nothing,
        close_tells_nothing,
        read_tells_once,
        call_tells_once,
        write_tells_once,
        the_same_tells_once,
    };

    bind_pat_tells_nothing(f.open(), arm.pat);
    let f1 = bind_pat(f.open(), arm.pat);
    match arm.guard {
        Some(guard) => {
            scan_expr_tells_once(f1, m, guard);
        },
        _ => {},
    }
    let f2 = match arm.guard {
        Some(guard) => scan_expr(f1, m, guard),
        None => f1,
    };
    scan_expr_tells_once(f2, m, arm.body);
}

proof fn scan_arms_tells_once(f: Found, m: Map<Seq<char>, Sort>, arms: Seq<ast::Arm>)
    requires
        tells_once(f, m),
    ensures
        tells_once(scan_arms(f, m, arms), m),
    decreases arms, 3nat,
{
    broadcast use {
        bind_tells_nothing,
        open_tells_nothing,
        close_tells_nothing,
        read_tells_once,
        call_tells_once,
        write_tells_once,
        the_same_tells_once,
    };

    if arms.len() > 0 {
        scan_arms_tells_once(f, m, arms.drop_last());
        scan_arm_tells_once(scan_arms(f, m, arms.drop_last()), m, arms.last());
    }
}

proof fn scan_args_tells_once(f: Found, m: Map<Seq<char>, Sort>, args: Seq<ast::Arg>)
    requires
        tells_once(f, m),
    ensures
        tells_once(scan_args(f, m, args), m),
    decreases args, 3nat,
{
    broadcast use {
        bind_tells_nothing,
        open_tells_nothing,
        close_tells_nothing,
        read_tells_once,
        call_tells_once,
        write_tells_once,
        the_same_tells_once,
    };

    if args.len() > 0 {
        scan_args_tells_once(f, m, args.drop_last());
        scan_expr_tells_once(scan_args(f, m, args.drop_last()), m, args.last().value);
    }
}

proof fn scan_expr_tells_once(f: Found, m: Map<Seq<char>, Sort>, e: ast::Expr)
    requires
        tells_once(f, m),
    ensures
        tells_once(scan_expr(f, m, e), m),
    decreases e, 4nat,
{
    broadcast use {
        bind_tells_nothing,
        open_tells_nothing,
        close_tells_nothing,
        read_tells_once,
        call_tells_once,
        write_tells_once,
        the_same_tells_once,
    };

    match e.kind {
        ast::ExprKind::Path(path) => {},
        ast::ExprKind::Field { base, .. } => {
            scan_expr_tells_once(f, m, *base);
        },
        ast::ExprKind::Call { callee, args, .. } => {
            match callee.kind {
                ast::ExprKind::Path(path) => {},
                _ => {
                    scan_expr_tells_once(f, m, *callee);
                },
            }
            let f1 = match callee.kind {
                ast::ExprKind::Path(path) => if path.rest@.len() == 0 {
                    f.call(m, path.head.name@, path.head.span)
                } else {
                    f
                },
                _ => scan_expr(f, m, *callee),
            };
            scan_args_tells_once(f1, m, args@);
        },
        ast::ExprKind::SpawnReactor { args, .. } => {
            scan_args_tells_once(f, m, args@);
        },
        ast::ExprKind::Unary { expr, .. } => {
            scan_expr_tells_once(f, m, *expr);
        },
        ast::ExprKind::Await(expr) => {
            scan_expr_tells_once(f, m, *expr);
        },
        ast::ExprKind::Spawn(expr) => {
            scan_expr_tells_once(f, m, *expr);
        },
        ast::ExprKind::Try(expr) => {
            scan_expr_tells_once(f, m, *expr);
        },
        ast::ExprKind::Binary { lhs, rhs, .. } => {
            scan_expr_tells_once(f, m, *lhs);
            scan_expr_tells_once(scan_expr(f, m, *lhs), m, *rhs);
        },
        ast::ExprKind::Index { base, index } => {
            scan_expr_tells_once(f, m, *base);
            scan_expr_tells_once(scan_expr(f, m, *base), m, *index);
        },
        ast::ExprKind::Block(block) => {
            scan_block_tells_once(f, m, block);
        },
        ast::ExprKind::Scope(block) => {
            scan_block_tells_once(f, m, block);
        },
        ast::ExprKind::If { cond, then, els } => {
            scan_expr_tells_once(f, m, *cond);
            scan_block_tells_once(scan_expr(f, m, *cond), m, then);
            let f1 = scan_block(scan_expr(f, m, *cond), m, then);
            match els {
                Some(els) => {
                    scan_expr_tells_once(f1, m, *els);
                },
                _ => {},
            }
        },
        ast::ExprKind::While { cond, body } => {
            scan_expr_tells_once(f, m, *cond);
            scan_block_tells_once(scan_expr(f, m, *cond), m, body);
        },
        ast::ExprKind::Loop { body } => {
            scan_block_tells_once(f, m, body);
        },
        ast::ExprKind::Break { value } => {
            match value {
                Some(value) => {
                    scan_expr_tells_once(f, m, *value);
                },
                _ => {},
            }
        },
        ast::ExprKind::Match { scrutinee, arms } => {
            scan_expr_tells_once(f, m, *scrutinee);
            scan_arms_tells_once(scan_expr(f, m, *scrutinee), m, arms@);
        },
        ast::ExprKind::Lambda { params, body } => {
            bind_pats_tells_nothing(f.open(), params@);
            scan_expr_tells_once(bind_pats(f.open(), params@), m, *body);
        },
        _ => {},
    }
}

/// What an expression is found to mention are members of the reactor: each is read at most once and
/// called at most once in what is told.
pub proof fn scans_tell_members_once(m: Map<Seq<char>, Sort>, e: ast::Expr)
    ensures
        tells_once(mentioned(m, e), m),
{
    reveal(mentioned);
    reveal(tells_once);
    scan_expr_tells_once(Found::nothing(), m, e);
}

// ---------------------------------------------------------------- carrying it out

/// The executable side of [`Found`].
pub struct Scan {
    pub bound: Vec<Vec<String>>,
    pub reads: Vec<(String, Span)>,
    pub writes: Vec<(String, Span)>,
    pub calls: Vec<(String, Span)>,
}

pub open spec fn frames(s: Seq<Vec<String>>) -> Seq<Seq<Seq<char>>> {
    Seq::new(s.len(), |i: int| texts(s[i]@))
}

pub open spec fn sites(s: Seq<(String, Span)>) -> Seq<(Seq<char>, Span)> {
    Seq::new(s.len(), |i: int| (s[i].0@, s[i].1))
}

fn is_mentioned(list: &Vec<(String, Span)>, name: &str) -> (r: bool)
    ensures
        r == mentions(sites(list@), name@),
{
    for i in 0..list.len()
        invariant
            forall|j: int| 0 <= j < i ==> (#[trigger] sites(list@)[j]).0 != name@,
    {
        assert(sites(list@)[i as int].0 == list@[i as int].0@);
        if same(list[i].0.as_str(), name) {
            return true;
        }
    }
    false
}

impl Scan {
    #[verifier::opaque]
    pub open spec fn view(&self) -> Found {
        Found {
            bound: frames(self.bound@),
            reads: sites(self.reads@),
            writes: sites(self.writes@),
            calls: sites(self.calls@),
        }
    }

    pub fn new() -> (r: Scan)
        ensures
            r@ == Found::nothing(),
    {
        proof {
            reveal(Scan::view);
        }
        let frame: Vec<String> = Vec::new();
        assert(texts(frame@) =~= seq![]);
        let mut bound: Vec<Vec<String>> = Vec::new();
        bound.push(frame);
        assert(frames(bound@) =~= seq![seq![]]);
        let r = Scan { bound, reads: Vec::new(), writes: Vec::new(), calls: Vec::new() };
        assert(sites(r.reads@) =~= seq![]);
        assert(sites(r.writes@) =~= seq![]);
        assert(sites(r.calls@) =~= seq![]);
        r
    }

    fn sees(&self, m: &Table<Sort>, name: &str) -> (r: bool)
        ensures
            r == self@.sees(m@, name@),
    {
        proof {
            reveal(Scan::view);
            reveal(Found::sees);
        }
        for i in 0..self.bound.len()
            invariant
                self@.bound == frames(self.bound@),
                forall|j: int| 0 <= j < i ==> !(#[trigger] frames(self.bound@)[j]).contains(name@),
        {
            assert(frames(self.bound@)[i as int] == texts(self.bound@[i as int]@));
            if crate::copies::holds(&self.bound[i], name) {
                proof {
                    reveal(Found::sees);
                }
                return false;
            }
        }
        m.contains(name)
    }

    fn bind(&mut self, name: &str)
        ensures
            final(self)@ == old(self)@.bind(name@),
    {
        proof {
            reveal(Scan::view);
            reveal(Found::bind);
        }
        let n: usize = self.bound.len();
        if n > 0 {
            self.bound[n - 1].push(name.to_owned());
            assert(texts(self.bound@[n - 1]@) =~= texts(old(self).bound@[n - 1]@).push(name@));
            assert(frames(self.bound@) =~= frames(old(self).bound@).drop_last().push(
                frames(old(self).bound@).last().push(name@),
            ));
        }
    }

    fn open(&mut self)
        ensures
            final(self)@ == old(self)@.open(),
    {
        proof {
            reveal(Scan::view);
            reveal(Found::open);
        }
        let frame: Vec<String> = Vec::new();
        assert(texts(frame@) =~= seq![]);
        self.bound.push(frame);
        assert(frames(self.bound@) =~= frames(old(self).bound@).push(seq![]));
    }

    fn close(&mut self)
        ensures
            final(self)@ == old(self)@.close(),
    {
        proof {
            reveal(Scan::view);
            reveal(Found::close);
        }
        if self.bound.len() > 0 {
            let _ = self.bound.pop();
            assert(frames(self.bound@) =~= frames(old(self).bound@).drop_last());
        }
    }

    fn read(&mut self, m: &Table<Sort>, name: &str, span: Span)
        ensures
            final(self)@ == old(self)@.read(m@, name@, span),
    {
        proof {
            reveal(Scan::view);
            reveal(Found::read);
        }
        if self.sees(m, name) && !is_mentioned(&self.reads, name) {
            self.reads.push((name.to_owned(), span));
            assert(sites(self.reads@) =~= sites(old(self).reads@).push((name@, span)));
        }
    }

    fn call(&mut self, m: &Table<Sort>, name: &str, span: Span)
        ensures
            final(self)@ == old(self)@.call(m@, name@, span),
    {
        proof {
            reveal(Scan::view);
            reveal(Found::call);
        }
        if self.sees(m, name) && !is_mentioned(&self.calls, name) {
            self.calls.push((name.to_owned(), span));
            assert(sites(self.calls@) =~= sites(old(self).calls@).push((name@, span)));
        }
    }

    fn write(&mut self, m: &Table<Sort>, name: &str, span: Span)
        ensures
            final(self)@ == old(self)@.write(m@, name@, span),
    {
        proof {
            reveal(Scan::view);
            reveal(Found::write);
        }
        if self.sees(m, name) {
            self.writes.push((name.to_owned(), span));
            assert(sites(self.writes@) =~= sites(old(self).writes@).push((name@, span)));
        }
    }

    fn bind_pat(&mut self, pat: &ast::Pat)
        ensures
            final(self)@ == bind_pat(old(self)@, *pat),
        decreases pat,
    {
        match &pat.kind {
            ast::PatKind::Binding(name) => {
                if !is_builtin_variant(name.name.as_str()) {
                    self.bind(name.name.as_str());
                }
            },
            ast::PatKind::Construct { args, .. } => self.bind_pat_args(args),
            ast::PatKind::Or(alts) => self.bind_pats(alts),
            _ => {},
        }
    }

    fn bind_pat_args(&mut self, args: &Vec<ast::PatArg>)
        ensures
            final(self)@ == bind_pat_args(old(self)@, args@),
        decreases args,
    {
        let ghost start = self@;
        let ghost all = args@;
        assert(all.take(0) =~= seq![]);
        for i in 0..args.len()
            invariant
                all == args@,
                self@ == bind_pat_args(start, all.take(i as int)),
        {
            assert(all.take(i + 1).drop_last() =~= all.take(i as int));
            self.bind_pat(&args[i].pat);
        }
        assert(all.take(args.len() as int) =~= all);
    }

    fn bind_pats(&mut self, pats: &Vec<ast::Pat>)
        ensures
            final(self)@ == bind_pats(old(self)@, pats@),
        decreases pats,
    {
        let ghost start = self@;
        let ghost all = pats@;
        assert(all.take(0) =~= seq![]);
        for i in 0..pats.len()
            invariant
                all == pats@,
                self@ == bind_pats(start, all.take(i as int)),
        {
            assert(all.take(i + 1).drop_last() =~= all.take(i as int));
            self.bind_pat(&pats[i]);
        }
        assert(all.take(pats.len() as int) =~= all);
    }

    fn expr(&mut self, m: &Table<Sort>, e: &ast::Expr)
        ensures
            final(self)@ == scan_expr(old(self)@, m@, *e),
        decreases e, 4nat,
    {
        match &e.kind {
            ast::ExprKind::Path(path) => {
                self.read(m, path.head.name.as_str(), path.head.span);
            },
            ast::ExprKind::Field { base, .. } => self.expr(m, base),
            ast::ExprKind::Call { callee, args, .. } => {
                match &callee.kind {
                    ast::ExprKind::Path(path) => {
                        if path.rest.len() == 0 {
                            self.call(m, path.head.name.as_str(), path.head.span);
                        }
                    },
                    _ => self.expr(m, callee),
                }
                self.args(m, args);
            },
            ast::ExprKind::SpawnReactor { args, .. } => self.args(m, args),
            ast::ExprKind::Unary { expr, .. } => self.expr(m, expr),
            ast::ExprKind::Await(expr) => self.expr(m, expr),
            ast::ExprKind::Spawn(expr) => self.expr(m, expr),
            ast::ExprKind::Try(expr) => self.expr(m, expr),
            ast::ExprKind::Binary { lhs, rhs, .. } => {
                self.expr(m, lhs);
                self.expr(m, rhs);
            },
            ast::ExprKind::Index { base, index } => {
                self.expr(m, base);
                self.expr(m, index);
            },
            ast::ExprKind::Block(block) => self.block(m, block),
            ast::ExprKind::Scope(block) => self.block(m, block),
            ast::ExprKind::If { cond, then, els } => {
                self.expr(m, cond);
                self.block(m, then);
                if let Some(els) = els {
                    self.expr(m, els);
                }
            },
            ast::ExprKind::While { cond, body } => {
                self.expr(m, cond);
                self.block(m, body);
            },
            ast::ExprKind::Loop { body } => self.block(m, body),
            ast::ExprKind::Break { value } => {
                if let Some(value) = value {
                    self.expr(m, value);
                }
            },
            ast::ExprKind::Match { scrutinee, arms } => {
                self.expr(m, scrutinee);
                self.arms(m, arms);
            },
            ast::ExprKind::Lambda { params, body } => {
                self.open();
                self.bind_pats(params);
                self.expr(m, body);
                self.close();
            },
            _ => {},
        }
    }

    fn args(&mut self, m: &Table<Sort>, args: &Vec<ast::Arg>)
        ensures
            final(self)@ == scan_args(old(self)@, m@, args@),
        decreases args, 3nat,
    {
        let ghost start = self@;
        let ghost all = args@;
        assert(all.take(0) =~= seq![]);
        for i in 0..args.len()
            invariant
                all == args@,
                self@ == scan_args(start, m@, all.take(i as int)),
        {
            assert(all.take(i + 1).drop_last() =~= all.take(i as int));
            self.expr(m, &args[i].value);
        }
        assert(all.take(args.len() as int) =~= all);
    }

    fn arms(&mut self, m: &Table<Sort>, arms: &Vec<ast::Arm>)
        ensures
            final(self)@ == scan_arms(old(self)@, m@, arms@),
        decreases arms, 3nat,
    {
        let ghost start = self@;
        let ghost all = arms@;
        assert(all.take(0) =~= seq![]);
        for i in 0..arms.len()
            invariant
                all == arms@,
                self@ == scan_arms(start, m@, all.take(i as int)),
        {
            assert(all.take(i + 1).drop_last() =~= all.take(i as int));
            self.arm(m, &arms[i]);
        }
        assert(all.take(arms.len() as int) =~= all);
    }

    fn arm(&mut self, m: &Table<Sort>, arm: &ast::Arm)
        ensures
            final(self)@ == scan_arm(old(self)@, m@, *arm),
        decreases arm, 5nat,
    {
        self.open();
        self.bind_pat(&arm.pat);
        if let Some(guard) = &arm.guard {
            self.expr(m, guard);
        }
        self.expr(m, &arm.body);
        self.close();
    }

    fn block(&mut self, m: &Table<Sort>, block: &ast::Block)
        ensures
            final(self)@ == scan_block(old(self)@, m@, *block),
        decreases block, 3nat,
    {
        self.open();
        self.stmts(m, &block.stmts);
        self.close();
    }

    fn stmts(&mut self, m: &Table<Sort>, stmts: &Vec<ast::Stmt>)
        ensures
            final(self)@ == scan_stmts(old(self)@, m@, stmts@),
        decreases stmts, 3nat,
    {
        let ghost start = self@;
        let ghost all = stmts@;
        assert(all.take(0) =~= seq![]);
        for i in 0..stmts.len()
            invariant
                all == stmts@,
                self@ == scan_stmts(start, m@, all.take(i as int)),
        {
            assert(all.take(i + 1).drop_last() =~= all.take(i as int));
            self.stmt(m, &stmts[i]);
        }
        assert(all.take(stmts.len() as int) =~= all);
    }

    fn stmt(&mut self, m: &Table<Sort>, stmt: &ast::Stmt)
        ensures
            final(self)@ == scan_stmt(old(self)@, m@, *stmt),
        decreases stmt, 5nat,
    {
        match &stmt.kind {
            ast::StmtKind::Let { name, value, .. } => {
                self.expr(m, value);
                self.bind(name.name.as_str());
            },
            ast::StmtKind::Assign { target, value } => {
                self.expr(m, value);
                let bare = match &target.kind {
                    ast::ExprKind::Path(path) => path.rest.len() == 0,
                    _ => false,
                };
                if !bare {
                    self.expr(m, target);
                }
                self.written(m, target);
            },
            ast::StmtKind::Return(value) => {
                if let Some(value) = value {
                    self.expr(m, value);
                }
            },
            ast::StmtKind::After { task, .. } => self.expr(m, task),
            ast::StmtKind::Expr(e) => self.expr(m, e),
        }
    }

    fn written(&mut self, m: &Table<Sort>, target: &ast::Expr)
        ensures
            final(self)@ == written(old(self)@, m@, *target),
    {
        proof {
            reveal(written);
        }
        if let Some(head) = head_of(target) {
            self.write(m, head.name.as_str(), head.span);
        }
    }
}

fn head_of(e: &ast::Expr) -> (r: Option<&ast::Ident>)
    ensures
        match head_name(*e) {
            Some(head) => r matches Some(got) && *got == head,
            None => r is None,
        },
    decreases e,
{
    match &e.kind {
        ast::ExprKind::Path(path) => Some(&path.head),
        ast::ExprKind::Field { base, .. } => head_of(base),
        ast::ExprKind::Index { base, .. } => head_of(base),
        _ => None,
    }
}

/// What an expression mentions of a reactor's members.
pub fn scan(m: &Table<Sort>, e: &ast::Expr) -> (r: Scan)
    ensures
        r@ == mentioned(m@, *e),
{
    proof {
        reveal(mentioned);
    }
    let mut s = Scan::new();
    s.expr(m, e);
    s
}

/// What a handler mentions of a reactor's members.
pub fn scan_handler(
    m: &Table<Sort>,
    params: &Vec<ast::HandlerParam>,
    body: &ast::Block,
) -> (r: Scan)
    ensures
        r@ == mentioned_by_handler(m@, params@, *body),
{
    proof {
        reveal(mentioned_by_handler);
    }
    let mut s = Scan::new();
    let ghost start = s@;
    let ghost all = params@;
    assert(all.take(0) =~= seq![]);
    for i in 0..params.len()
        invariant
            all == params@,
            s@ == bind_params(start, all.take(i as int)),
    {
        assert(all.take(i + 1).drop_last() =~= all.take(i as int));
        s.bind(params[i].name.name.as_str());
    }
    assert(all.take(params.len() as int) =~= all);
    s.block(m, body);
    s
}

} // verus!
