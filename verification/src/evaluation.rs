//! What operators compute, said of the tree that comes in and of the program that goes out.
//!
//! Two evaluators stand side by side: one for operators as they are written, one for the typed
//! operators of the program. That typing changes what an expression is called and never what it
//! computes is the law between them.

use vstd::prelude::*;
use crate::ast;
use crate::binding::expect;
use crate::expr::{
    check_block, check_expr, check_if, check_kind, check_stmts, check_tail, expression,
};
use crate::hir::{BinOp, LocalId, UnOp};
use crate::model;
use crate::parts::{deep, deep_below, deep_here, runs_with};
use crate::path::check_path;
use crate::span::Span;
use crate::state::{lookup_frame, State};
use crate::steps::{binary_meaning, binary_of, else_expected, if_else_of, unary_meaning, unary_of};

verus! {

/// A value of one of the types that operators work on. A floating-point number is its bits.
pub enum Val {
    Int(int),
    Bool(bool),
    Text(Seq<char>),
    Float(u64),
}

/// What the operators that are not spelled out here compute, whatever that is: the arithmetic of
/// floating point, and the order of texts and of floating-point numbers.
pub type Host = spec_fn(ast::BinOp, Val, Val) -> Val;

/// Arithmetic gives a number, a comparison a truth value.
pub open spec fn sane(host: Host) -> bool {
    forall|op: ast::BinOp, a: u64, b: u64|
        (#[trigger] host(op, Val::Float(a), Val::Float(b))) is Float <==> arithmetic(op)
}

pub open spec fn arithmetic(op: ast::BinOp) -> bool {
    op == ast::BinOp::Add || op == ast::BinOp::Sub || op == ast::BinOp::Mul || op == ast::BinOp::Div
        || op == ast::BinOp::Rem
}

pub open spec fn comparison(op: ast::BinOp) -> bool {
    op == ast::BinOp::Eq || op == ast::BinOp::Ne || op == ast::BinOp::Lt || op == ast::BinOp::Le
        || op == ast::BinOp::Gt || op == ast::BinOp::Ge
}

/// What a value of a truth-valued host operation is.
pub open spec fn truth(v: Val) -> Val {
    Val::Bool(v == Val::Bool(true))
}

// ---------------------------------------------------------------- as written

/// A written operator on two values. Nothing, where it does not apply or divides by zero.
pub open spec fn said_of(host: Host, op: ast::BinOp, a: Val, b: Val) -> Option<Val> {
    match (a, b) {
        (Val::Int(x), Val::Int(y)) => match op {
            ast::BinOp::Add => Some(Val::Int(x + y)),
            ast::BinOp::Sub => Some(Val::Int(x - y)),
            ast::BinOp::Mul => Some(Val::Int(x * y)),
            ast::BinOp::Div => if y == 0 {
                None
            } else {
                Some(Val::Int(x / y))
            },
            ast::BinOp::Rem => if y == 0 {
                None
            } else {
                Some(Val::Int(x % y))
            },
            ast::BinOp::Eq => Some(Val::Bool(x == y)),
            ast::BinOp::Ne => Some(Val::Bool(x != y)),
            ast::BinOp::Lt => Some(Val::Bool(x < y)),
            ast::BinOp::Le => Some(Val::Bool(x <= y)),
            ast::BinOp::Gt => Some(Val::Bool(x > y)),
            ast::BinOp::Ge => Some(Val::Bool(x >= y)),
            _ => None,
        },
        (Val::Bool(x), Val::Bool(y)) => match op {
            ast::BinOp::Eq => Some(Val::Bool(x == y)),
            ast::BinOp::Ne => Some(Val::Bool(x != y)),
            _ => None,
        },
        (Val::Text(x), Val::Text(y)) => match op {
            ast::BinOp::Add => Some(Val::Text(x + y)),
            ast::BinOp::Eq => Some(Val::Bool(x == y)),
            ast::BinOp::Ne => Some(Val::Bool(x != y)),
            _ => if comparison(op) {
                Some(truth(host(op, a, b)))
            } else {
                None
            },
        },
        (Val::Float(x), Val::Float(y)) => if arithmetic(op) {
            Some(host(op, a, b))
        } else if comparison(op) {
            Some(truth(host(op, a, b)))
        } else {
            None
        },
        _ => None,
    }
}

/// The value of an expression as it is written, where names stand for values.
pub open spec fn said(host: Host, look: spec_fn(Seq<char>) -> Option<Val>, e: ast::Expr) -> Option<
    Val,
>
    decreases e,
{
    match e.kind {
        ast::ExprKind::Int(v) => Some(Val::Int(v as int)),
        ast::ExprKind::Bool(v) => Some(Val::Bool(v)),
        ast::ExprKind::Str(v) => Some(Val::Text(v@)),
        ast::ExprKind::Float(v) => Some(Val::Float(v)),
        ast::ExprKind::Path(path) => look(path.head.name@),
        ast::ExprKind::Unary { op, expr } => match (op, said(host, look, *expr)) {
            (ast::UnOp::Neg, Some(Val::Int(x))) => Some(Val::Int(-x)),
            (ast::UnOp::Not, Some(Val::Bool(x))) => Some(Val::Bool(!x)),
            _ => None,
        },
        ast::ExprKind::Binary { op, lhs, rhs } => match (op, said(host, look, *lhs)) {
            (ast::BinOp::And, Some(Val::Bool(x))) => if x {
                said(host, look, *rhs)
            } else {
                Some(Val::Bool(false))
            },
            (ast::BinOp::Or, Some(Val::Bool(x))) => if x {
                Some(Val::Bool(true))
            } else {
                said(host, look, *rhs)
            },
            (_, Some(a)) => match said(host, look, *rhs) {
                Some(b) => said_of(host, op, a, b),
                None => None,
            },
            _ => None,
        },
        ast::ExprKind::If { cond, then, els } => match said(host, look, *cond) {
            Some(Val::Bool(c)) => if c {
                if then.stmts@.len() == 1 {
                    match then.stmts@[0].kind {
                        ast::StmtKind::Expr(t) => said(host, look, t),
                        _ => None,
                    }
                } else {
                    None
                }
            } else {
                match els {
                    Some(x) => said(host, look, *x),
                    None => None,
                }
            },
            _ => None,
        },
        ast::ExprKind::Block(block) => if block.stmts@.len() == 1 {
            match block.stmts@[0].kind {
                ast::StmtKind::Expr(t) => said(host, look, t),
                _ => None,
            }
        } else {
            None
        },
        _ => None,
    }
}

// ---------------------------------------------------------------- as typed

/// A typed operator on two values.
pub open spec fn done_of(host: Host, op: BinOp, a: Val, b: Val) -> Option<Val> {
    match (op, a, b) {
        (BinOp::AddInt, Val::Int(x), Val::Int(y)) => Some(Val::Int(x + y)),
        (BinOp::SubInt, Val::Int(x), Val::Int(y)) => Some(Val::Int(x - y)),
        (BinOp::MulInt, Val::Int(x), Val::Int(y)) => Some(Val::Int(x * y)),
        (BinOp::DivInt, Val::Int(x), Val::Int(y)) => if y == 0 {
            None
        } else {
            Some(Val::Int(x / y))
        },
        (BinOp::RemInt, Val::Int(x), Val::Int(y)) => if y == 0 {
            None
        } else {
            Some(Val::Int(x % y))
        },
        (BinOp::AddFloat, Val::Float(_), Val::Float(_)) => Some(host(ast::BinOp::Add, a, b)),
        (BinOp::SubFloat, Val::Float(_), Val::Float(_)) => Some(host(ast::BinOp::Sub, a, b)),
        (BinOp::MulFloat, Val::Float(_), Val::Float(_)) => Some(host(ast::BinOp::Mul, a, b)),
        (BinOp::DivFloat, Val::Float(_), Val::Float(_)) => Some(host(ast::BinOp::Div, a, b)),
        (BinOp::RemFloat, Val::Float(_), Val::Float(_)) => Some(host(ast::BinOp::Rem, a, b)),
        (BinOp::Concat, Val::Text(x), Val::Text(y)) => Some(Val::Text(x + y)),
        (BinOp::Eq, Val::Float(_), Val::Float(_)) => Some(truth(host(ast::BinOp::Eq, a, b))),
        (BinOp::Ne, Val::Float(_), Val::Float(_)) => Some(truth(host(ast::BinOp::Ne, a, b))),
        (BinOp::Eq, _, _) => if same_sort(a, b) {
            Some(Val::Bool(a == b))
        } else {
            None
        },
        (BinOp::Ne, _, _) => if same_sort(a, b) {
            Some(Val::Bool(a != b))
        } else {
            None
        },
        (BinOp::Lt, Val::Int(x), Val::Int(y)) => Some(Val::Bool(x < y)),
        (BinOp::Le, Val::Int(x), Val::Int(y)) => Some(Val::Bool(x <= y)),
        (BinOp::Gt, Val::Int(x), Val::Int(y)) => Some(Val::Bool(x > y)),
        (BinOp::Ge, Val::Int(x), Val::Int(y)) => Some(Val::Bool(x >= y)),
        (BinOp::Lt, _, _) => ranked(host, ast::BinOp::Lt, a, b),
        (BinOp::Le, _, _) => ranked(host, ast::BinOp::Le, a, b),
        (BinOp::Gt, _, _) => ranked(host, ast::BinOp::Gt, a, b),
        (BinOp::Ge, _, _) => ranked(host, ast::BinOp::Ge, a, b),
        _ => None,
    }
}

pub open spec fn same_sort(a: Val, b: Val) -> bool {
    (a is Int && b is Int) || (a is Bool && b is Bool) || (a is Text && b is Text) || (a is Float
        && b is Float)
}

/// The order of two texts or two floating-point numbers.
pub open spec fn ranked(host: Host, op: ast::BinOp, a: Val, b: Val) -> Option<Val> {
    if same_sort(a, b) && (a is Text || a is Float) {
        Some(truth(host(op, a, b)))
    } else {
        None
    }
}

/// The value of a typed expression, where locals hold values.
pub open spec fn done(host: Host, held: spec_fn(LocalId) -> Option<Val>, e: model::Expr) -> Option<
    Val,
>
    decreases e,
{
    match e.kind {
        model::ExprKind::Int(v) => Some(Val::Int(v as int)),
        model::ExprKind::Bool(v) => Some(Val::Bool(v)),
        model::ExprKind::Str(v) => Some(Val::Text(v)),
        model::ExprKind::Float(v) => Some(Val::Float(v)),
        model::ExprKind::Local(id) => held(id),
        model::ExprKind::Unary { op, expr } => match (op, done(host, held, *expr)) {
            (UnOp::Neg, Some(Val::Int(x))) => Some(Val::Int(-x)),
            (UnOp::Not, Some(Val::Bool(x))) => Some(Val::Bool(!x)),
            _ => None,
        },
        model::ExprKind::Binary { op, lhs, rhs } => match (
            done(host, held, *lhs),
            done(host, held, *rhs),
        ) {
            (Some(a), Some(b)) => done_of(host, op, a, b),
            _ => None,
        },
        model::ExprKind::ShortCircuit { and, lhs, rhs } => match done(host, held, *lhs) {
            Some(Val::Bool(x)) => if x == and {
                done(host, held, *rhs)
            } else {
                Some(Val::Bool(x))
            },
            _ => None,
        },
        model::ExprKind::If { cond, then, els } => match done(host, held, *cond) {
            Some(Val::Bool(c)) => if c {
                done(host, held, *then)
            } else {
                match els {
                    Some(x) => done(host, held, *x),
                    None => None,
                }
            },
            _ => None,
        },
        model::ExprKind::Block { stmts, tail } => if stmts.len() == 0 {
            match tail {
                Some(t) => done(host, held, *t),
                None => None,
            }
        } else {
            None
        },
        _ => None,
    }
}

// ---------------------------------------------------------------- operators mean what they say

pub open spec fn scalar(ty: model::Ty) -> bool {
    ty is I64 || ty is Bool || ty is Str || ty is F64
}

pub open spec fn of_type(v: Val, ty: model::Ty) -> bool {
    match v {
        Val::Int(_) => ty is I64,
        Val::Bool(_) => ty is Bool,
        Val::Text(_) => ty is Str,
        Val::Float(_) => ty is F64,
    }
}

/// The operator the program is given for a written one computes what the written one does, at every
/// type and on all operands of that type, and its result is of the type it is given.
pub proof fn operators_compute_what_was_written(
    s: State,
    host: Host,
    op: ast::BinOp,
    ty: model::Ty,
    a: Val,
    b: Val,
)
    requires
        sane(host),
        of_type(a, ty),
        of_type(b, ty),
    ensures
        match binary_meaning(s, op, ty) {
            Some((typed, result)) => done_of(host, typed, a, b) == said_of(host, op, a, b) && (
            done_of(host, typed, a, b) matches Some(v) ==> of_type(v, result)),
            None => said_of(host, op, a, b) is None,
        },
{
    reveal(binary_meaning);
    match (a, b) {
        (Val::Float(x), Val::Float(y)) => {
            assert(host(op, Val::Float(x), Val::Float(y)) is Float <==> arithmetic(op));
        },
        _ => {},
    }
}

/// Of two different written operators, no type is given the same typed one.
pub proof fn operators_stay_apart(s: State, a: ast::BinOp, b: ast::BinOp, ty: model::Ty)
    requires
        a != b,
        binary_meaning(s, a, ty) is Some,
        binary_meaning(s, b, ty) is Some,
    ensures
        (binary_meaning(s, a, ty)->0).0 != (binary_meaning(s, b, ty)->0).0,
{
    reveal(binary_meaning);
}

/// The written operator a typed one stands for.
pub open spec fn stands_for(op: BinOp) -> ast::BinOp {
    match op {
        BinOp::AddInt => ast::BinOp::Add,
        BinOp::AddFloat => ast::BinOp::Add,
        BinOp::Concat => ast::BinOp::Add,
        BinOp::SubInt => ast::BinOp::Sub,
        BinOp::SubFloat => ast::BinOp::Sub,
        BinOp::MulInt => ast::BinOp::Mul,
        BinOp::MulFloat => ast::BinOp::Mul,
        BinOp::DivInt => ast::BinOp::Div,
        BinOp::DivFloat => ast::BinOp::Div,
        BinOp::RemInt => ast::BinOp::Rem,
        BinOp::RemFloat => ast::BinOp::Rem,
        BinOp::Eq => ast::BinOp::Eq,
        BinOp::Ne => ast::BinOp::Ne,
        BinOp::Lt => ast::BinOp::Lt,
        BinOp::Le => ast::BinOp::Le,
        BinOp::Gt => ast::BinOp::Gt,
        BinOp::Ge => ast::BinOp::Ge,
    }
}

/// Whether operands of a type are what a typed operator works on.
pub open spec fn works_on(op: BinOp, ty: model::Ty) -> bool {
    match op {
        BinOp::AddInt | BinOp::SubInt | BinOp::MulInt | BinOp::DivInt | BinOp::RemInt => ty is I64,
        BinOp::AddFloat | BinOp::SubFloat | BinOp::MulFloat | BinOp::DivFloat | BinOp::RemFloat =>
            ty is F64,
        BinOp::Concat => ty is Str || ty is Bytes,
        BinOp::Eq | BinOp::Ne => scalar(ty) || ty is Bytes || ty is Param,
        BinOp::Lt | BinOp::Le | BinOp::Gt | BinOp::Ge => ty is I64 || ty is F64 || ty is Str || ty
            is Bytes,
    }
}

/// Of every type, not of scalars alone: the typed operator stands for the one that was written and
/// works on the type it is given, a comparison gives a truth value and arithmetic its operands'
/// type. Where the type is not a parameter, an operator that some typed one stands for on that
/// type is never refused.
pub proof fn operators_are_of_their_own_kind(s: State, op: ast::BinOp, ty: model::Ty)
    ensures
        binary_meaning(s, op, ty) matches Some((typed, result)) ==> stands_for(typed) == op
            && works_on(typed, ty) && result == if comparison(op) {
            model::Ty::Bool
        } else {
            ty
        },
        !(ty is Param) ==> (binary_meaning(s, op, ty) is Some <==> exists|typed: BinOp| #[trigger]
            works_on(typed, ty) && stands_for(typed) == op),
{
    reveal(binary_meaning);
    assert forall|typed: BinOp| #[trigger] works_on(typed, ty) && stands_for(typed) == op && !(
    ty is Param) implies binary_meaning(s, op, ty) is Some by {}
    match binary_meaning(s, op, ty) {
        Some((typed, _)) => {
            assert(works_on(typed, ty));
        },
        None => {},
    }
}

/// Negation is of numbers and gives their type; what is not true is a truth value.
pub proof fn unary_operators_are_of_their_own_kind(op: ast::UnOp, ty: model::Ty)
    ensures
        unary_meaning(op, ty) matches Some((typed, result)) ==> result == ty && (typed == UnOp::Neg
            <==> op == ast::UnOp::Neg) && (typed == UnOp::Not <==> op == ast::UnOp::Not),
        unary_meaning(op, ty) is Some <==> (op == ast::UnOp::Neg && (ty is I64 || ty is F64)) || (op
            == ast::UnOp::Not && ty is Bool),
{
}

// ---------------------------------------------------------------- whole expressions

/// Literals, locals of scalar types, operators and choices between them.
pub open spec fn simple(s: State, e: ast::Expr) -> bool
    decreases e,
{
    match e.kind {
        ast::ExprKind::Int(_) => true,
        ast::ExprKind::Bool(_) => true,
        ast::ExprKind::Str(_) => true,
        ast::ExprKind::Float(_) => true,
        ast::ExprKind::Path(path) => path.rest@.len() == 0 && (s.lookup_local(
            path.head.name@,
        ) matches Some(id) && scalar(s.local_ty(id))),
        ast::ExprKind::Unary { op, expr } => (op == ast::UnOp::Neg || op == ast::UnOp::Not)
            && simple(s, *expr),
        ast::ExprKind::Binary { lhs, rhs, .. } => simple(s, *lhs) && simple(s, *rhs),
        ast::ExprKind::If { cond, then, els } => simple(s, *cond) && then.stmts@.len() == 1 && (
        then.stmts@[0].kind matches ast::StmtKind::Expr(t) && simple(s, t)) && (els matches Some(
            x,
        ) && simple(s, *x)),
        ast::ExprKind::Block(block) => block.stmts@.len() == 1 && (
        block.stmts@[0].kind matches ast::StmtKind::Expr(t) && simple(s, t)),
        _ => false,
    }
}

/// Nothing in an expression stands for a mistake.
pub open spec fn sound(e: model::Expr) -> bool {
    forall|x: model::Expr| #[trigger] deep(x, e) ==> !(x.kind is Error)
}

/// Names stand for what their locals hold, and locals hold what their types say.
pub open spec fn agree(
    s: State,
    look: spec_fn(Seq<char>) -> Option<Val>,
    held: spec_fn(LocalId) -> Option<Val>,
) -> bool {
    &&& forall|name: Seq<char>|
        #![trigger look(name)]
        s.lookup_local(name) matches Some(id) ==> look(name) == held(id)
    &&& forall|id: LocalId|
        #![trigger held(id)]
        held(id) matches Some(v) ==> of_type(v, s.local_ty(id))
}

pub open spec fn settled_wish(expected: Option<model::Ty>) -> bool {
    expected matches Some(t) ==> scalar(t)
}

proof fn names_stay(s: State)
    ensures
        forall|name: Seq<char>| #[trigger]
            s.open_scope().lookup_local(name) == s.lookup_local(name),
        forall|id: LocalId| #[trigger] s.open_scope().local_ty(id) == s.local_ty(id),
        s.open_scope().close_scope() == s,
{
    reveal(State::open_scope);
    reveal(State::close_scope);
    reveal(State::lookup_local);
    reveal(State::local_ty);
    let o = s.open_scope();
    assert(o.scopes.drop_last() =~= s.scopes);
    assert(o.scopes.last() =~= seq![]);
    assert forall|name: Seq<char>| #[trigger] o.lookup_local(name) == s.lookup_local(name) by {
        assert(lookup_frame(o.scopes.last(), name) is None);
    }
}

proof fn simple_inside(s: State, e: ast::Expr)
    requires
        simple(s, e),
    ensures
        simple(s.open_scope(), e),
    decreases e,
{
    names_stay(s);
    match e.kind {
        ast::ExprKind::Unary { expr, .. } => simple_inside(s, *expr),
        ast::ExprKind::Binary { lhs, rhs, .. } => {
            simple_inside(s, *lhs);
            simple_inside(s, *rhs);
        },
        ast::ExprKind::If { cond, then, els } => {
            simple_inside(s, *cond);
            match then.stmts@[0].kind {
                ast::StmtKind::Expr(t) => simple_inside(s, t),
                _ => {},
            }
            simple_inside(s, *els->0);
        },
        ast::ExprKind::Block(block) => match block.stmts@[0].kind {
            ast::StmtKind::Expr(t) => simple_inside(s, t),
            _ => {},
        },
        _ => {},
    }
}

proof fn sound_part(x: model::Expr, e: model::Expr)
    requires
        sound(e),
        runs_with(x, e),
    ensures
        sound(x),
        !(x.kind is Error),
{
    deep_here(x);
    assert forall|y: model::Expr| #[trigger] deep(y, x) implies !(y.kind is Error) by {
        deep_below(y, x, e);
    }
}

proof fn kept_by_expect(s: State, x: model::Expr, expected: Option<model::Ty>, span: Span)
    requires
        !(expect(s, x, expected, span).1.kind is Error),
    ensures
        expect(s, x, expected, span) == (s, x),
        scalar(x.ty) && settled_wish(expected) ==> (expected matches Some(t) ==> x.ty == t),
{
    reveal(expect);
}

/// What the law below says of one checked expression.
pub open spec fn computed(
    s: State,
    host: Host,
    look: spec_fn(Seq<char>) -> Option<Val>,
    held: spec_fn(LocalId) -> Option<Val>,
    e: ast::Expr,
    got: (State, model::Expr),
) -> bool {
    &&& got.0 == s
    &&& scalar(got.1.ty)
    &&& done(host, held, got.1) == said(host, look, e)
    &&& done(host, held, got.1) matches Some(v) ==> of_type(v, got.1.ty)
}

proof fn unary_is_sound(s: State, e: ast::Expr, expected: Option<model::Ty>)
    requires
        e.kind is Unary,
        e.kind->Unary_op == ast::UnOp::Neg || e.kind->Unary_op == ast::UnOp::Not,
        sound(check_kind(s, e, expected).1),
    ensures
        sound(check_expr(s, *e.kind->Unary_expr, None).1),
{
    reveal(unary_of);
    let got = check_kind(s, e, expected);
    let inner = check_expr(s, *e.kind->Unary_expr, None);
    deep_here(got.1);
    assert(got == unary_of(inner.0, e.kind->Unary_op, inner.1, e.span));
    assert(runs_with(inner.1, got.1));
    sound_part(inner.1, got.1);
}

proof fn unary_computes(
    s: State,
    host: Host,
    look: spec_fn(Seq<char>) -> Option<Val>,
    held: spec_fn(LocalId) -> Option<Val>,
    e: ast::Expr,
    expected: Option<model::Ty>,
)
    requires
        e.kind is Unary,
        e.kind->Unary_op == ast::UnOp::Neg || e.kind->Unary_op == ast::UnOp::Not,
        !(check_kind(s, e, expected).1.kind is Error),
        computed(
            s,
            host,
            look,
            held,
            *e.kind->Unary_expr,
            check_expr(s, *e.kind->Unary_expr, None),
        ),
    ensures
        computed(s, host, look, held, e, check_kind(s, e, expected)),
{
    reveal(unary_of);
}

proof fn both_compute(
    s: State,
    host: Host,
    look: spec_fn(Seq<char>) -> Option<Val>,
    held: spec_fn(LocalId) -> Option<Val>,
    e: ast::Expr,
    expected: Option<model::Ty>,
)
    requires
        e.kind is Binary,
        e.kind->Binary_op == ast::BinOp::And || e.kind->Binary_op == ast::BinOp::Or,
        ({
            let l = check_expr(s, *e.kind->Binary_lhs, Some(model::Ty::Bool));
            let r = check_expr(l.0, *e.kind->Binary_rhs, Some(model::Ty::Bool));
            &&& computed(s, host, look, held, *e.kind->Binary_lhs, l)
            &&& computed(s, host, look, held, *e.kind->Binary_rhs, r)
            &&& l.1.ty is Bool
            &&& r.1.ty is Bool
        }),
    ensures
        computed(s, host, look, held, e, check_kind(s, e, expected)),
{
}

proof fn binary_is_sound(s: State, e: ast::Expr, expected: Option<model::Ty>)
    requires
        e.kind is Binary,
        e.kind->Binary_op != ast::BinOp::And && e.kind->Binary_op != ast::BinOp::Or,
        sound(check_kind(s, e, expected).1),
    ensures
        ({
            let l = check_expr(s, *e.kind->Binary_lhs, None);
            let r = check_expr(l.0, *e.kind->Binary_rhs, Some(l.1.ty));
            sound(l.1) && sound(r.1)
        }),
{
    reveal(binary_of);
    let got = check_kind(s, e, expected);
    let l = check_expr(s, *e.kind->Binary_lhs, None);
    let r = check_expr(l.0, *e.kind->Binary_rhs, Some(l.1.ty));
    deep_here(got.1);
    assert(got == binary_of(r.0, e.kind->Binary_op, l.1, r.1, e.span));
    assert(runs_with(l.1, got.1));
    assert(runs_with(r.1, got.1));
    sound_part(l.1, got.1);
    sound_part(r.1, got.1);
}

proof fn binary_computes(
    s: State,
    host: Host,
    look: spec_fn(Seq<char>) -> Option<Val>,
    held: spec_fn(LocalId) -> Option<Val>,
    e: ast::Expr,
    expected: Option<model::Ty>,
)
    requires
        sane(host),
        e.kind is Binary,
        e.kind->Binary_op != ast::BinOp::And && e.kind->Binary_op != ast::BinOp::Or,
        !(check_kind(s, e, expected).1.kind is Error),
        ({
            let l = check_expr(s, *e.kind->Binary_lhs, None);
            let r = check_expr(l.0, *e.kind->Binary_rhs, Some(l.1.ty));
            &&& computed(s, host, look, held, *e.kind->Binary_lhs, l)
            &&& computed(s, host, look, held, *e.kind->Binary_rhs, r)
            &&& l.1.ty == r.1.ty
        }),
    ensures
        computed(s, host, look, held, e, check_kind(s, e, expected)),
{
    let op = e.kind->Binary_op;
    let got = check_kind(s, e, expected);
    let l = check_expr(s, *e.kind->Binary_lhs, None);
    let r = check_expr(l.0, *e.kind->Binary_rhs, Some(l.1.ty));
    assert(got == binary_of(s, op, l.1, r.1, e.span));
    match (said(host, look, *e.kind->Binary_lhs), said(host, look, *e.kind->Binary_rhs)) {
        (Some(a), Some(b)) => {
            operators_compute_what_was_written(s, host, op, l.1.ty, a, b);
        },
        _ => {},
    }
    assert(scalar(got.1.ty)) by {
        reveal(binary_of);
        reveal(binary_meaning);
    }
    reveal(binary_of);
}

proof fn if_is_sound(s: State, e: ast::Expr, expected: Option<model::Ty>)
    requires
        e.kind is If,
        e.kind->If_els is Some,
        sound(check_kind(s, e, expected).1),
    ensures
        ({
            let c = check_expr(s, *e.kind->If_cond, Some(model::Ty::Bool));
            let t = check_block(c.0, e.kind->If_then, expected, e.kind->If_then.span);
            let x = check_expr(t.0, *e.kind->If_els->0, else_expected(expected, t.1.ty));
            sound(c.1) && sound(t.1) && sound(x.1)
        }),
{
    reveal(if_else_of);
    let got = check_kind(s, e, expected);
    let c = check_expr(s, *e.kind->If_cond, Some(model::Ty::Bool));
    let t = check_block(c.0, e.kind->If_then, expected, e.kind->If_then.span);
    let x = check_expr(t.0, *e.kind->If_els->0, else_expected(expected, t.1.ty));
    assert(got.1 == if_else_of(c.1, t.1, x.1, e.span));
    assert(runs_with(c.1, got.1));
    assert(runs_with(t.1, got.1));
    assert(runs_with(x.1, got.1));
    sound_part(c.1, got.1);
    sound_part(t.1, got.1);
    sound_part(x.1, got.1);
}

proof fn if_computes(
    s: State,
    host: Host,
    look: spec_fn(Seq<char>) -> Option<Val>,
    held: spec_fn(LocalId) -> Option<Val>,
    e: ast::Expr,
    expected: Option<model::Ty>,
)
    requires
        e.kind is If,
        e.kind->If_els is Some,
        e.kind->If_then.stmts@.len() == 1,
        e.kind->If_then.stmts@[0].kind is Expr,
        ({
            let c = check_expr(s, *e.kind->If_cond, Some(model::Ty::Bool));
            let t = check_block(c.0, e.kind->If_then, expected, e.kind->If_then.span);
            let x = check_expr(t.0, *e.kind->If_els->0, else_expected(expected, t.1.ty));
            &&& computed(s, host, look, held, *e.kind->If_cond, c)
            &&& computed(s, host, look, held, e.kind->If_then.stmts@[0].kind->Expr_0, t)
            &&& computed(s, host, look, held, *e.kind->If_els->0, x)
            &&& t.1.ty == x.1.ty
        }),
    ensures
        computed(s, host, look, held, e, check_kind(s, e, expected)),
{
    reveal(if_else_of);
    let got = check_kind(s, e, expected);
    let c = check_expr(s, *e.kind->If_cond, Some(model::Ty::Bool));
    let t = check_block(c.0, e.kind->If_then, expected, e.kind->If_then.span);
    let x = check_expr(t.0, *e.kind->If_els->0, else_expected(expected, t.1.ty));
    assert(got == check_if(s, e, expected));
    assert(got.1 == if_else_of(c.1, t.1, x.1, e.span));
}

proof fn block_computes(
    s: State,
    host: Host,
    look: spec_fn(Seq<char>) -> Option<Val>,
    held: spec_fn(LocalId) -> Option<Val>,
    block: ast::Block,
    expected: Option<model::Ty>,
    span: Span,
)
    requires
        sane(host),
        agree(s, look, held),
        block.stmts@.len() == 1,
        block.stmts@[0].kind is Expr,
        simple(s, block.stmts@[0].kind->Expr_0),
        settled_wish(expected),
        sound(check_block(s, block, expected, span).1),
    ensures
        computed(
            s,
            host,
            look,
            held,
            block.stmts@[0].kind->Expr_0,
            check_block(s, block, expected, span),
        ),
        expected matches Some(t) ==> check_block(s, block, expected, span).1.ty == t,
    decreases block, 1nat,
{
    let all = block.stmts@;
    let t = all[0].kind->Expr_0;
    let (s1, x) = check_block(s, block, expected, span);
    let o = s.open_scope();
    assert(all.last() == all[0]);
    assert(all.drop_last().len() == 0);
    assert(check_stmts(o, all.drop_last()).done =~= seq![]);
    let tail = check_expr(o, t, expected);
    assert(check_tail(o, all.last(), expected) == tail);
    assert(x.kind == (model::ExprKind::Block { stmts: seq![], tail: Some(Box::new(tail.1)) }));
    names_stay(s);
    simple_inside(s, t);
    sound_part(tail.1, x);
    assert(agree(o, look, held)) by {
        assert forall|name: Seq<char>| #![trigger look(name)] o.lookup_local(
            name,
        ) is Some implies look(name) == held(o.lookup_local(name)->0) by {
            assert(s.lookup_local(name) == o.lookup_local(name));
        }
        assert forall|id: LocalId| #![trigger held(id)] held(id) is Some implies of_type(
            held(id)->0,
            o.local_ty(id),
        ) by {
            assert(s.local_ty(id) == o.local_ty(id));
        }
    }
    assert(decreases_to!(block => t));
    expressions_compute(o, host, look, held, t, expected);
}

proof fn operators_compute(
    s: State,
    host: Host,
    look: spec_fn(Seq<char>) -> Option<Val>,
    held: spec_fn(LocalId) -> Option<Val>,
    e: ast::Expr,
    expected: Option<model::Ty>,
)
    requires
        sane(host),
        agree(s, look, held),
        simple(s, e),
        settled_wish(expected),
        e.kind is Unary || e.kind is Binary,
        sound(check_kind(s, e, expected).1),
    ensures
        computed(s, host, look, held, e, check_kind(s, e, expected)),
    decreases e, 1nat,
{
    let got = check_kind(s, e, expected);
    deep_here(got.1);
    match e.kind {
        ast::ExprKind::Unary { expr, .. } => {
            unary_is_sound(s, e, expected);
            expressions_compute(s, host, look, held, *expr, None);
            unary_computes(s, host, look, held, e, expected);
        },
        ast::ExprKind::Binary { op, lhs, rhs } => {
            if op == ast::BinOp::And || op == ast::BinOp::Or {
                let l = check_expr(s, *lhs, Some(model::Ty::Bool));
                let r = check_expr(l.0, *rhs, Some(model::Ty::Bool));
                assert(runs_with(l.1, got.1));
                assert(runs_with(r.1, got.1));
                sound_part(l.1, got.1);
                expressions_compute(s, host, look, held, *lhs, Some(model::Ty::Bool));
                sound_part(r.1, got.1);
                expressions_compute(s, host, look, held, *rhs, Some(model::Ty::Bool));
                both_compute(s, host, look, held, e, expected);
            } else {
                let l = check_expr(s, *lhs, None);
                binary_is_sound(s, e, expected);
                expressions_compute(s, host, look, held, *lhs, None);
                expressions_compute(s, host, look, held, *rhs, Some(l.1.ty));
                binary_computes(s, host, look, held, e, expected);
            }
        },
        _ => {},
    }
}

proof fn choices_compute(
    s: State,
    host: Host,
    look: spec_fn(Seq<char>) -> Option<Val>,
    held: spec_fn(LocalId) -> Option<Val>,
    e: ast::Expr,
    expected: Option<model::Ty>,
)
    requires
        sane(host),
        agree(s, look, held),
        simple(s, e),
        settled_wish(expected),
        e.kind is If,
        sound(check_kind(s, e, expected).1),
    ensures
        computed(s, host, look, held, e, check_kind(s, e, expected)),
    decreases e, 1nat,
{
    let got = check_kind(s, e, expected);
    deep_here(got.1);
    match e.kind {
        ast::ExprKind::If { cond, then, els } => {
            let c = check_expr(s, *cond, Some(model::Ty::Bool));
            let t = check_block(c.0, then, expected, then.span);
            if_is_sound(s, e, expected);
            reveal(else_expected);
            expressions_compute(s, host, look, held, *cond, Some(model::Ty::Bool));
            block_computes(s, host, look, held, then, expected, then.span);
            expressions_compute(s, host, look, held, *els->0, else_expected(expected, t.1.ty));
            if_computes(s, host, look, held, e, expected);
        },
        _ => {},
    }
}

proof fn expressions_compute(
    s: State,
    host: Host,
    look: spec_fn(Seq<char>) -> Option<Val>,
    held: spec_fn(LocalId) -> Option<Val>,
    e: ast::Expr,
    expected: Option<model::Ty>,
)
    requires
        sane(host),
        agree(s, look, held),
        simple(s, e),
        settled_wish(expected),
        sound(check_expr(s, e, expected).1),
    ensures
        computed(s, host, look, held, e, check_expr(s, e, expected)),
        expected matches Some(t) ==> check_expr(s, e, expected).1.ty == t,
    decreases e, 2nat,
{
    let got = check_kind(s, e, expected);
    let end = check_expr(s, e, expected);
    deep_here(end.1);
    kept_by_expect(got.0, got.1, expected, e.span);
    assert(end == got);
    match e.kind {
        ast::ExprKind::Path(path) => {
            reveal(check_path);
            let id = s.lookup_local(path.head.name@)->0;
            assert(got.1.kind == model::ExprKind::Local(id));
            assert(look(path.head.name@) == held(id));
        },
        ast::ExprKind::Unary { .. } => operators_compute(s, host, look, held, e, expected),
        ast::ExprKind::Binary { .. } => operators_compute(s, host, look, held, e, expected),
        ast::ExprKind::If { .. } => choices_compute(s, host, look, held, e, expected),
        ast::ExprKind::Block(block) => {
            block_computes(s, host, look, held, block, expected, e.span);
        },
        _ => {},
    }
}

/// Typing an expression keeps its value. Of every expression made of literals, locals, operators
/// and choices, where no mistake is found, the typed expression computes what the written one
/// does, for all values of the locals; it is of the type it is given, and checking it changes
/// nothing else.
pub proof fn typing_keeps_the_value(
    s: State,
    host: Host,
    look: spec_fn(Seq<char>) -> Option<Val>,
    held: spec_fn(LocalId) -> Option<Val>,
    e: ast::Expr,
    expected: Option<model::Ty>,
)
    requires
        sane(host),
        agree(s, look, held),
        simple(s, e),
        settled_wish(expected),
        sound(expression(s, e, expected).1),
    ensures
        expression(s, e, expected).0 == s,
        done(host, held, expression(s, e, expected).1) == said(host, look, e),
        said(host, look, e) matches Some(v) ==> of_type(v, expression(s, e, expected).1.ty),
        expected matches Some(t) ==> expression(s, e, expected).1.ty == t,
{
    reveal(expression);
    expressions_compute(s, host, look, held, e, expected);
}

} // verus!
