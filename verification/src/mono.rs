//! Concrete copies of generic functions.
//!
//! A template was checked once. A copy of it is a substitution, not another check: its body is the
//! template's with the arguments in place of the parameters, and what it calls is settled at those
//! arguments too, which may ask for further copies.

use vstd::prelude::*;
use vstd::string::*;
use crate::checker::{error_expr, failed, fns_made, make, stubs_made, Checker, FnMade, StubMade};
use crate::generics::INSTANCE_CEILING;
use crate::hir::{
    arms_of, boxed, exprs, fns_of, locals_of, pats, stmts_of, tys, Arm, Builtin, Ctor, EnumId, Expr,
    ExprKind, FnId, LocalDef, Pat, PatKind, Stmt, StmtKind, StructId, Ty,
};
use crate::instances::{request_fn_instance, stub_ids, substitute, substitute_all};
use crate::model;
use crate::reports;
use crate::say;
use crate::span::Span;
use crate::state::{Fill, FnInstance, State};
use crate::types::affine;

verus! {

/// The arguments a copy is made at, the place that asked for it, and how deep the asking goes.
pub struct Given {
    pub args: Seq<model::Ty>,
    pub at: Span,
    pub depth: usize,
}

pub open spec fn deeper(depth: usize) -> usize {
    if depth < usize::MAX {
        (depth + 1) as usize
    } else {
        depth
    }
}

/// What a callee is at the arguments: an impl's function for a stub, a copy for a template.
#[verifier::opaque]
pub open spec fn mono_callee(s: State, g: Given, callee: FnId) -> (State, FnId) {
    match s.stub(callee) {
        Some(stub) => {
            let r = substitute(s, stub.receiver, g.args, g.at);
            match r.0.impl_method(stub.trait_id, stub.method, r.1) {
                Some(id) => (r.0, id),
                None => (r.0, callee),
            }
        },
        None => match s.fn_base(callee) {
            None => (s, callee),
            Some(base) => {
                let r = substitute_all(s, base.1, g.args, g.at);
                request_fn_instance(r.0, base.0, r.1, g.at, deeper(g.depth))
            },
        },
    }
}

#[verifier::opaque]
pub open spec fn mono_struct(s: State, g: Given, id: StructId) -> (State, StructId) {
    let r = substitute(s, model::Ty::Struct(id), g.args, g.at);
    match r.1 {
        model::Ty::Struct(instance) => (r.0, instance),
        _ => (r.0, id),
    }
}

#[verifier::opaque]
pub open spec fn mono_enum(s: State, g: Given, id: EnumId) -> (State, EnumId) {
    let r = substitute(s, model::Ty::Enum(id), g.args, g.at);
    match r.1 {
        model::Ty::Enum(instance) => (r.0, instance),
        _ => (r.0, id),
    }
}

#[verifier::opaque]
pub open spec fn mono_ctor(s: State, g: Given, ctor: Ctor) -> (State, Ctor) {
    match ctor {
        Ctor::Struct(id) => (mono_struct(s, g, id).0, Ctor::Struct(mono_struct(s, g, id).1)),
        Ctor::Variant(id, variant) => (
            mono_enum(s, g, id).0,
            Ctor::Variant(mono_enum(s, g, id).1, variant),
        ),
    }
}

/// A type parameter owns nothing, but its argument may: what `shared` and `slots_new` are made of
/// is asked again, and reported where the copy was asked for.
#[verifier::opaque]
pub open spec fn asked_again(
    s: State,
    g: Given,
    builtin: Builtin,
    args: Seq<model::Expr>,
    ty: model::Ty,
) -> State {
    let s1 = if builtin == Builtin::Shared && args.len() > 0 && affine(s.program, args[0].ty) {
        s.push(reports::shared_affine(g.at, s.ty_name(args[0].ty)))
    } else {
        s
    };
    match ty {
        model::Ty::Slots(element) => if builtin == Builtin::SlotsNew && affine(
            s1.program,
            *element,
        ) {
            s1.push(reports::slots_affine(g.at, s1.ty_name(*element)))
        } else {
            s1
        },
        _ => s1,
    }
}

// ---------------------------------------------------------------- patterns

pub open spec fn mono_pat(s: State, g: Given, pat: model::Pat) -> (State, model::Pat)
    decreases pat, 1nat,
{
    let r = mono_pat_kind(s, g, pat);
    (r.0, model::Pat { kind: r.1, span: pat.span })
}

pub open spec fn mono_pat_kind(s: State, g: Given, pat: model::Pat) -> (State, model::PatKind)
    decreases pat, 0nat,
{
    match pat.kind {
        model::PatKind::Variant { enum_id, variant, args } => {
            let e = mono_enum(s, g, enum_id);
            let r = mono_pats(e.0, g, args);
            (r.0, model::PatKind::Variant { enum_id: e.1, variant, args: r.1 })
        },
        model::PatKind::Struct { strukt, args } => {
            let e = mono_struct(s, g, strukt);
            let r = mono_pats(e.0, g, args);
            (r.0, model::PatKind::Struct { strukt: e.1, args: r.1 })
        },
        model::PatKind::Or(alts) => {
            let r = mono_pats(s, g, alts);
            (r.0, model::PatKind::Or(r.1))
        },
        _ => (s, pat.kind),
    }
}

pub open spec fn mono_pats(s: State, g: Given, list: Seq<model::Pat>) -> (State, Seq<model::Pat>)
    decreases list, 2nat,
{
    if list.len() == 0 {
        (s, seq![])
    } else {
        let front = mono_pats(s, g, list.drop_last());
        let one = mono_pat(front.0, g, list.last());
        (one.0, front.1.push(one.1))
    }
}

// ---------------------------------------------------------------- bodies

/// An expression at the arguments.
pub open spec fn mono_expr(s: State, g: Given, e: model::Expr) -> (State, model::Expr)
    decreases e, 4nat,
{
    let t = substitute(s, e.ty, g.args, g.at);
    let k = mono_kind(t.0, g, e, t.1);
    (k.0, model::Expr { kind: k.1, ty: t.1, span: e.span })
}

pub open spec fn mono_kind(s: State, g: Given, e: model::Expr, ty: model::Ty) -> (
    State,
    model::ExprKind,
)
    decreases e, 3nat,
{
    match e.kind {
        model::ExprKind::Field { .. } => mono_one(s, g, e),
        model::ExprKind::Unary { .. } => mono_one(s, g, e),
        model::ExprKind::Await { .. } => mono_one(s, g, e),
        model::ExprKind::Scope { .. } => mono_one(s, g, e),
        model::ExprKind::Spawn { .. } => mono_one(s, g, e),
        model::ExprKind::ReactorInput { .. } => mono_one(s, g, e),
        model::ExprKind::ReactorExport { .. } => mono_one(s, g, e),
        model::ExprKind::Try { .. } => mono_one(s, g, e),
        model::ExprKind::Loop { .. } => mono_one(s, g, e),
        model::ExprKind::Binary { .. } => mono_two(s, g, e),
        model::ExprKind::ShortCircuit { .. } => mono_two(s, g, e),
        model::ExprKind::While { .. } => mono_two(s, g, e),
        model::ExprKind::Call { .. } => mono_call(s, g, e, ty),
        model::ExprKind::Builtin { .. } => mono_call(s, g, e, ty),
        model::ExprKind::Construct { .. } => mono_call(s, g, e, ty),
        model::ExprKind::SpawnReactor { .. } => mono_call(s, g, e, ty),
        model::ExprKind::Match { .. } => mono_branch(s, g, e),
        model::ExprKind::If { .. } => mono_branch(s, g, e),
        model::ExprKind::Block { .. } => mono_branch(s, g, e),
        model::ExprKind::Return { .. } => mono_branch(s, g, e),
        model::ExprKind::Break { .. } => mono_branch(s, g, e),
        _ => (s, e.kind),
    }
}

pub open spec fn mono_one(s: State, g: Given, e: model::Expr) -> (State, model::ExprKind)
    decreases e, 2nat,
{
    match e.kind {
        model::ExprKind::Field { base, index } => {
            let r = mono_expr(s, g, *base);
            (r.0, model::ExprKind::Field { base: Box::new(r.1), index })
        },
        model::ExprKind::Unary { op, expr } => {
            let r = mono_expr(s, g, *expr);
            (r.0, model::ExprKind::Unary { op, expr: Box::new(r.1) })
        },
        model::ExprKind::Await { expr } => {
            let r = mono_expr(s, g, *expr);
            (r.0, model::ExprKind::Await { expr: Box::new(r.1) })
        },
        model::ExprKind::Scope { body } => {
            let r = mono_expr(s, g, *body);
            (r.0, model::ExprKind::Scope { body: Box::new(r.1) })
        },
        model::ExprKind::Spawn { expr } => {
            let r = mono_expr(s, g, *expr);
            (r.0, model::ExprKind::Spawn { expr: Box::new(r.1) })
        },
        model::ExprKind::ReactorInput { reactor, index } => {
            let r = mono_expr(s, g, *reactor);
            (r.0, model::ExprKind::ReactorInput { reactor: Box::new(r.1), index })
        },
        model::ExprKind::ReactorExport { reactor, index } => {
            let r = mono_expr(s, g, *reactor);
            (r.0, model::ExprKind::ReactorExport { reactor: Box::new(r.1), index })
        },
        model::ExprKind::Try { expr, enum_id } => {
            let r = mono_expr(s, g, *expr);
            (r.0, model::ExprKind::Try { expr: Box::new(r.1), enum_id })
        },
        model::ExprKind::Loop { body } => {
            let r = mono_expr(s, g, *body);
            (r.0, model::ExprKind::Loop { body: Box::new(r.1) })
        },
        _ => (s, e.kind),
    }
}

pub open spec fn mono_two(s: State, g: Given, e: model::Expr) -> (State, model::ExprKind)
    decreases e, 2nat,
{
    match e.kind {
        model::ExprKind::Binary { op, lhs, rhs } => {
            let a = mono_expr(s, g, *lhs);
            let b = mono_expr(a.0, g, *rhs);
            (b.0, model::ExprKind::Binary { op, lhs: Box::new(a.1), rhs: Box::new(b.1) })
        },
        model::ExprKind::ShortCircuit { and, lhs, rhs } => {
            let a = mono_expr(s, g, *lhs);
            let b = mono_expr(a.0, g, *rhs);
            (b.0, model::ExprKind::ShortCircuit { and, lhs: Box::new(a.1), rhs: Box::new(b.1) })
        },
        model::ExprKind::While { cond, body } => {
            let a = mono_expr(s, g, *cond);
            let b = mono_expr(a.0, g, *body);
            (b.0, model::ExprKind::While { cond: Box::new(a.1), body: Box::new(b.1) })
        },
        _ => (s, e.kind),
    }
}

pub open spec fn mono_call(s: State, g: Given, e: model::Expr, ty: model::Ty) -> (
    State,
    model::ExprKind,
)
    decreases e, 2nat,
{
    match e.kind {
        model::ExprKind::Call { callee, args } => {
            let c = mono_callee(s, g, callee);
            let r = mono_exprs(c.0, g, args);
            (r.0, model::ExprKind::Call { callee: c.1, args: r.1 })
        },
        model::ExprKind::Builtin { builtin, args } => {
            let r = mono_exprs(s, g, args);
            (
                asked_again(r.0, g, builtin, r.1, ty),
                model::ExprKind::Builtin { builtin, args: r.1 },
            )
        },
        model::ExprKind::Construct { ctor, args } => {
            let c = mono_ctor(s, g, ctor);
            let r = mono_exprs(c.0, g, args);
            (r.0, model::ExprKind::Construct { ctor: c.1, args: r.1 })
        },
        model::ExprKind::SpawnReactor { reactor, args } => {
            let r = mono_exprs(s, g, args);
            (r.0, model::ExprKind::SpawnReactor { reactor, args: r.1 })
        },
        _ => (s, e.kind),
    }
}

pub open spec fn mono_branch(s: State, g: Given, e: model::Expr) -> (State, model::ExprKind)
    decreases e, 2nat,
{
    match e.kind {
        model::ExprKind::Match { scrutinee, arms } => {
            let a = mono_expr(s, g, *scrutinee);
            let b = mono_arms(a.0, g, arms);
            (b.0, model::ExprKind::Match { scrutinee: Box::new(a.1), arms: b.1 })
        },
        model::ExprKind::If { cond, then, els } => {
            let a = mono_expr(s, g, *cond);
            let b = mono_expr(a.0, g, *then);
            let c = mono_maybe(b.0, g, els);
            (c.0, model::ExprKind::If { cond: Box::new(a.1), then: Box::new(b.1), els: c.1 })
        },
        model::ExprKind::Block { stmts, tail } => {
            let a = mono_stmts(s, g, stmts);
            let b = mono_maybe(a.0, g, tail);
            (b.0, model::ExprKind::Block { stmts: a.1, tail: b.1 })
        },
        model::ExprKind::Return { value } => {
            let r = mono_maybe(s, g, value);
            (r.0, model::ExprKind::Return { value: r.1 })
        },
        model::ExprKind::Break { value } => {
            let r = mono_maybe(s, g, value);
            (r.0, model::ExprKind::Break { value: r.1 })
        },
        _ => (s, e.kind),
    }
}

pub open spec fn mono_maybe(s: State, g: Given, e: Option<Box<model::Expr>>) -> (
    State,
    Option<Box<model::Expr>>,
)
    decreases e, 5nat,
{
    match e {
        Some(e) => {
            let r = mono_expr(s, g, *e);
            (r.0, Some(Box::new(r.1)))
        },
        None => (s, None),
    }
}

pub open spec fn mono_exprs(s: State, g: Given, list: Seq<model::Expr>) -> (
    State,
    Seq<model::Expr>,
)
    decreases list, 5nat,
{
    if list.len() == 0 {
        (s, seq![])
    } else {
        let front = mono_exprs(s, g, list.drop_last());
        let one = mono_expr(front.0, g, list.last());
        (one.0, front.1.push(one.1))
    }
}

pub open spec fn mono_arm(s: State, g: Given, arm: model::Arm) -> (State, model::Arm)
    decreases arm, 5nat,
{
    let p = mono_pat(s, g, arm.pat);
    let q: (State, Option<model::Expr>) = match arm.guard {
        Some(guard) => (mono_expr(p.0, g, guard).0, Some(mono_expr(p.0, g, guard).1)),
        None => (p.0, None),
    };
    let b = mono_expr(q.0, g, arm.body);
    (b.0, model::Arm { pat: p.1, guard: q.1, body: b.1, span: arm.span })
}

pub open spec fn mono_arms(s: State, g: Given, list: Seq<model::Arm>) -> (State, Seq<model::Arm>)
    decreases list, 5nat,
{
    if list.len() == 0 {
        (s, seq![])
    } else {
        let front = mono_arms(s, g, list.drop_last());
        let one = mono_arm(front.0, g, list.last());
        (one.0, front.1.push(one.1))
    }
}

pub open spec fn mono_stmt(s: State, g: Given, stmt: model::Stmt) -> (State, model::Stmt)
    decreases stmt, 5nat,
{
    match stmt.kind {
        model::StmtKind::Let { local, value } => {
            let r = mono_expr(s, g, value);
            (r.0, model::Stmt { kind: model::StmtKind::Let { local, value: r.1 }, span: stmt.span })
        },
        model::StmtKind::Assign { place, value } => {
            let a = mono_expr(s, g, place);
            let b = mono_expr(a.0, g, value);
            (
                b.0,
                model::Stmt {
                    kind: model::StmtKind::Assign { place: a.1, value: b.1 },
                    span: stmt.span,
                },
            )
        },
        model::StmtKind::After { task, reply } => {
            let r = mono_expr(s, g, task);
            (
                r.0,
                model::Stmt {
                    kind: model::StmtKind::After { task: r.1, reply },
                    span: stmt.span,
                },
            )
        },
        model::StmtKind::Expr(e) => {
            let r = mono_expr(s, g, e);
            (r.0, model::Stmt { kind: model::StmtKind::Expr(r.1), span: stmt.span })
        },
    }
}

pub open spec fn mono_stmts(s: State, g: Given, list: Seq<model::Stmt>) -> (
    State,
    Seq<model::Stmt>,
)
    decreases list, 5nat,
{
    if list.len() == 0 {
        (s, seq![])
    } else {
        let front = mono_stmts(s, g, list.drop_last());
        let one = mono_stmt(front.0, g, list.last());
        (one.0, front.1.push(one.1))
    }
}

pub open spec fn mono_locals(s: State, g: Given, list: Seq<model::LocalDef>) -> (
    State,
    Seq<model::LocalDef>,
)
    decreases list.len(),
{
    if list.len() == 0 {
        (s, seq![])
    } else {
        let front = mono_locals(s, g, list.drop_last());
        let t = substitute(front.0, list.last().ty, g.args, g.at);
        (t.0, front.1.push(model::LocalDef { ty: t.1, ..list.last() }))
    }
}

impl State {
    /// A function's locals and body, replaced.
    #[verifier::opaque]
    pub open spec fn with_code(
        self,
        id: FnId,
        locals: Seq<model::LocalDef>,
        body: model::Expr,
    ) -> State {
        if id.0 < self.program.fns.len() {
            State {
                program: model::Program {
                    fns: self.program.fns.update(
                        id.0 as int,
                        model::FnDef { locals, body, ..self.program.fns[id.0 as int] },
                    ),
                    ..self.program
                },
                ..self
            }
        } else {
            self
        }
    }

    /// A function that nothing executable reaches: no body, and its parameters for locals.
    #[verifier::opaque]
    pub open spec fn without_code(self, id: FnId) -> State {
        if id.0 < self.program.fns.len() {
            let def = self.program.fns[id.0 as int];
            State {
                program: model::Program {
                    fns: self.program.fns.update(
                        id.0 as int,
                        model::FnDef {
                            locals: if def.params < def.locals.len() {
                                def.locals.take(def.params as int)
                            } else {
                                def.locals
                            },
                            inert: true,
                            body: model::Expr {
                                kind: model::ExprKind::Unit,
                                ty: model::Ty::Unit,
                                span: def.span,
                            },
                            ..def
                        },
                    ),
                    ..self.program
                },
                ..self
            }
        } else {
            self
        }
    }
}

/// The locals and the body of a copy, made in the file that asked for it, where what goes wrong is
/// reported. The template lends its body out for the while.
#[verifier::opaque]
pub open spec fn mono_copy(s: State, id: FnId, i: FnInstance) -> State {
    let def = s.program.fns[i.template.0 as int];
    let g = Given { args: i.args, at: i.at, depth: i.depth };
    let s1 = s.with_current(i.module).with_code(i.template, seq![], failed(i.at));
    let l = mono_locals(s1, g, def.locals);
    let b = mono_expr(l.0, g, def.body);
    b.0.with_code(i.template, def.locals, def.body).with_code(id, l.1, b.1).with_current(s.current)
}

/// A copy that was asked for, made.
#[verifier::opaque]
pub open spec fn mono_instance(s: State, id: FnId) -> State {
    match s.fn_instance(id) {
        Some(i) => if i.template.0 < s.program.fns.len() {
            mono_copy(s, id, i)
        } else {
            s
        },
        None => s,
    }
}

/// Every copy asked for from a place on, including those that the making asks for. There are never
/// more of them than the ceiling on instances lets through.
pub open spec fn mono_from(s: State, next: nat) -> State
    decreases INSTANCE_CEILING - next,
{
    if next >= s.worklist.len() || next >= INSTANCE_CEILING {
        s
    } else {
        mono_from(
            mono_instance(s.with_work_cursor((next + 1) as usize), s.worklist[next as int]),
            next + 1,
        )
    }
}

pub open spec fn template_ids(fns: Seq<model::FnDef>) -> Seq<FnId>
    decreases fns.len(),
{
    if fns.len() == 0 {
        seq![]
    } else {
        let front = template_ids(fns.drop_last());
        if fns.last().type_params.len() > 0 {
            front.push(FnId((fns.len() - 1) as u32))
        } else {
            front
        }
    }
}

pub open spec fn symbolic_ids(list: Seq<FnInstance>) -> Seq<FnId>
    decreases list.len(),
{
    if list.len() == 0 {
        seq![]
    } else {
        let front = symbolic_ids(list.drop_last());
        if list.last().symbolic {
            front.push(list.last().id)
        } else {
            front
        }
    }
}

pub open spec fn without_codes(s: State, ids: Seq<FnId>) -> State
    decreases ids.len(),
{
    if ids.len() == 0 {
        s
    } else {
        without_codes(s, ids.drop_last()).without_code(ids.last())
    }
}

/// Templates, instances that still mention a parameter, and stubs: nothing executable refers to
/// them once every call was settled.
#[verifier::opaque]
pub open spec fn neuter_templates(s: State) -> State {
    without_codes(
        without_codes(
            without_codes(s, template_ids(s.program.fns)),
            symbolic_ids(s.fn_instances),
        ),
        stub_ids(s.stubs),
    )
}

#[verifier::opaque]
pub open spec fn monomorphize(s: State) -> State {
    neuter_templates(mono_from(s, s.work_cursor as nat))
}

/// A function that nothing executable reaches.
pub open spec fn out_of_the_way(def: model::FnDef) -> bool {
    def.inert && def.body.kind is Unit && def.body.ty is Unit
}

proof fn removing_keeps(s: State, ids: Seq<FnId>, i: int)
    requires
        0 <= i < s.program.fns.len(),
    ensures
        without_codes(s, ids).program.fns.len() == s.program.fns.len(),
        without_codes(s, ids).program.fns[i].type_params == s.program.fns[i].type_params,
        out_of_the_way(s.program.fns[i]) ==> out_of_the_way(without_codes(s, ids).program.fns[i]),
        ids.contains(FnId(i as u32)) && i <= u32::MAX ==> out_of_the_way(
            without_codes(s, ids).program.fns[i],
        ),
    decreases ids.len(),
{
    if ids.len() > 0 {
        removing_keeps(s, ids.drop_last(), i);
        reveal(State::without_code);
        if ids.contains(FnId(i as u32)) && ids.last() != FnId(i as u32) {
            let k = choose|k: int| 0 <= k < ids.len() && ids[k] == FnId(i as u32);
            assert(ids.drop_last()[k] == FnId(i as u32));
        }
    }
}

proof fn templates_are_listed(fns: Seq<model::FnDef>, i: int)
    requires
        0 <= i < fns.len(),
        fns[i].type_params.len() > 0,
    ensures
        template_ids(fns).contains(FnId(i as u32)),
    decreases fns.len(),
{
    let front = template_ids(fns.drop_last());
    if i < fns.len() - 1 {
        templates_are_listed(fns.drop_last(), i);
        let k = choose|k: int| 0 <= k < front.len() && front[k] == FnId(i as u32);
        assert(template_ids(fns)[k] == FnId(i as u32));
    } else {
        assert(template_ids(fns)[front.len() as int] == FnId(i as u32));
    }
}

/// When the copies have been made no template is left for anything to run: each is marked, and has
/// no body.
pub proof fn templates_are_out_of_the_way(s: State, i: int)
    requires
        0 <= i < monomorphize(s).program.fns.len(),
        i <= u32::MAX,
        monomorphize(s).program.fns[i].type_params.len() > 0,
    ensures
        out_of_the_way(monomorphize(s).program.fns[i]),
{
    reveal(monomorphize);
    reveal(neuter_templates);
    let s0 = mono_from(s, s.work_cursor as nat);
    let templates = template_ids(s0.program.fns);
    let symbolic = symbolic_ids(s0.fn_instances);
    let stubs = stub_ids(s0.stubs);
    let s1 = without_codes(s0, templates);
    let s2 = without_codes(s1, symbolic);
    lengths_stay(s0, templates);
    lengths_stay(s1, symbolic);
    lengths_stay(s2, stubs);
    removing_keeps(s0, templates, i);
    removing_keeps(s1, symbolic, i);
    removing_keeps(s2, stubs, i);
    templates_are_listed(s0.program.fns, i);
}

proof fn lengths_stay(s: State, ids: Seq<FnId>)
    ensures
        without_codes(s, ids).program.fns.len() == s.program.fns.len(),
    decreases ids.len(),
{
    if ids.len() > 0 {
        lengths_stay(s, ids.drop_last());
        reveal(State::without_code);
    }
}

// ---------------------------------------------------------------- types put off

#[verifier::opaque]
pub open spec fn fill(s: State, f: Fill) -> State {
    match f {
        Fill::Struct(index, depth) => crate::generics::fill_struct(s, index, depth),
        Fill::Enum(index, depth) => crate::generics::fill_enum(s, index, depth),
    }
}

/// Every type instance whose fields were put off, including those that the filling puts off.
pub open spec fn fill_from(s: State, next: nat) -> State
    decreases INSTANCE_CEILING - next,
{
    if next >= s.fill_queue.len() || next >= INSTANCE_CEILING {
        s
    } else {
        fill_from(
            fill(s.with_fill_cursor((next + 1) as usize), s.fill_queue[next as int]),
            next + 1,
        )
    }
}

#[verifier::opaque]
pub open spec fn drain_type_fills(s: State) -> State {
    fill_from(s, s.fill_cursor as nat).with_defining_types(false)
}

// ---------------------------------------------------------------- carrying it out

/// The executable side of [`Given`].
struct Site {
    args: Vec<Ty>,
    at: Span,
    depth: usize,
}

impl Site {
    spec fn view(&self) -> Given {
        Given { args: tys(self.args@), at: self.at, depth: self.depth }
    }
}

fn find_templates(fns: &Vec<crate::hir::FnDef>) -> (r: Vec<FnId>)
    ensures
        r@ == template_ids(fns_of(fns@)),
{
    let mut r: Vec<FnId> = Vec::new();
    let ghost all = fns_of(fns@);
    assert(all.take(0) =~= seq![]);
    for i in 0..fns.len()
        invariant
            all == fns_of(fns@),
            r@ == template_ids(all.take(i as int)),
    {
        assert(all.take(i + 1).drop_last() =~= all.take(i as int));
        assert(all.take(i + 1).last().type_params.len() == fns@[i as int].type_params@.len());
        if fns[i].type_params.len() > 0 {
            r.push(FnId(#[verifier::truncate] (i as u32)));
        }
    }
    assert(all.take(fns.len() as int) =~= all);
    r
}

fn find_symbolic(list: &Vec<FnMade>) -> (r: Vec<FnId>)
    ensures
        r@ == symbolic_ids(fns_made(list@)),
{
    let mut r: Vec<FnId> = Vec::new();
    let ghost all = fns_made(list@);
    assert(all.take(0) =~= seq![]);
    for i in 0..list.len()
        invariant
            all == fns_made(list@),
            r@ == symbolic_ids(all.take(i as int)),
    {
        assert(all.take(i + 1).drop_last() =~= all.take(i as int));
        if list[i].symbolic {
            r.push(list[i].id);
        }
    }
    assert(all.take(list.len() as int) =~= all);
    r
}

fn find_stubs(list: &Vec<StubMade>) -> (r: Vec<FnId>)
    ensures
        r@ == stub_ids(stubs_made(list@)),
{
    let mut r: Vec<FnId> = Vec::new();
    for i in 0..list.len()
        invariant
            r.len() == i,
            forall|j: int| 0 <= j < i ==> #[trigger] r@[j] == list@[j].id,
    {
        r.push(list[i].id);
    }
    assert(r@ =~= stub_ids(stubs_made(list@)));
    r
}

impl Checker {
    fn mono_callee(&mut self, g: &Site, callee: FnId) -> (r: FnId)
        ensures
            final(self)@ == mono_callee(old(self)@, g@, callee).0,
            r == mono_callee(old(self)@, g@, callee).1,
    {
        proof {
            reveal(mono_callee);
        }
        if let Some((trait_id, method, receiver)) = self.stub(callee) {
            let receiver = self.substitute(&receiver, &g.args, g.at);
            return match self.find_impl_method(trait_id, method.as_str(), &receiver) {
                Some(id) => id,
                None => callee,
            };
        }
        match self.fn_base(callee) {
            None => callee,
            Some((template, base)) => {
                let args = self.substitute_all(&base, &g.args, g.at);
                let depth: usize = if g.depth < usize::MAX {
                    g.depth + 1
                } else {
                    g.depth
                };
                self.request_fn_instance(template, args, g.at, depth)
            },
        }
    }

    fn mono_struct(&mut self, g: &Site, id: StructId) -> (r: StructId)
        ensures
            final(self)@ == mono_struct(old(self)@, g@, id).0,
            r == mono_struct(old(self)@, g@, id).1,
    {
        proof {
            reveal(mono_struct);
        }
        match self.substitute(&Ty::Struct(id), &g.args, g.at) {
            Ty::Struct(instance) => instance,
            _ => id,
        }
    }

    fn mono_enum(&mut self, g: &Site, id: EnumId) -> (r: EnumId)
        ensures
            final(self)@ == mono_enum(old(self)@, g@, id).0,
            r == mono_enum(old(self)@, g@, id).1,
    {
        proof {
            reveal(mono_enum);
        }
        match self.substitute(&Ty::Enum(id), &g.args, g.at) {
            Ty::Enum(instance) => instance,
            _ => id,
        }
    }

    fn mono_ctor(&mut self, g: &Site, ctor: Ctor) -> (r: Ctor)
        ensures
            final(self)@ == mono_ctor(old(self)@, g@, ctor).0,
            r == mono_ctor(old(self)@, g@, ctor).1,
    {
        proof {
            reveal(mono_ctor);
        }
        match ctor {
            Ctor::Struct(id) => Ctor::Struct(self.mono_struct(g, id)),
            Ctor::Variant(id, variant) => Ctor::Variant(self.mono_enum(g, id), variant),
        }
    }

    fn ask_again(&mut self, g: &Site, builtin: Builtin, args: &Vec<Expr>, ty: &Ty)
        ensures
            final(self)@ == asked_again(old(self)@, g@, builtin, exprs(args@), ty@),
    {
        proof {
            reveal(asked_again);
        }
        if builtin == Builtin::Shared && args.len() > 0 {
            proof {
                args@[0].look();
            }
            if self.affine(&args[0].ty) {
                let name = self.ty_name(&args[0].ty);
                self.push(say::shared_affine(g.at, name.as_str()));
            }
        }
        if let Ty::Slots(element) = ty {
            if builtin == Builtin::SlotsNew && self.affine(element) {
                let name = self.ty_name(element);
                self.push(say::slots_affine(g.at, name.as_str()));
            }
        }
    }

    fn mono_pat(&mut self, g: &Site, pat: &Pat) -> (r: Pat)
        ensures
            final(self)@ == mono_pat(old(self)@, g@, pat@).0,
            r@ == mono_pat(old(self)@, g@, pat@).1,
        decreases pat, 1nat,
    {
        let kind = self.mono_pat_kind(g, pat);
        Pat { kind, span: pat.span }
    }

    fn mono_pat_kind(&mut self, g: &Site, pat: &Pat) -> (r: PatKind)
        ensures
            final(self)@ == mono_pat_kind(old(self)@, g@, pat@).0,
            (Pat { kind: r, span: pat.span })@.kind == mono_pat_kind(old(self)@, g@, pat@).1,
        decreases pat, 0nat,
    {
        match &pat.kind {
            PatKind::Wild => PatKind::Wild,
            PatKind::Bind(local) => PatKind::Bind(*local),
            PatKind::Int(value) => PatKind::Int(*value),
            PatKind::Str(value) => PatKind::Str(value.clone()),
            PatKind::Bool(value) => PatKind::Bool(*value),
            PatKind::Variant { enum_id, variant, args } => {
                let enum_id = self.mono_enum(g, *enum_id);
                let args = self.mono_pats(g, args);
                PatKind::Variant { enum_id, variant: *variant, args }
            },
            PatKind::Struct { strukt, args } => {
                let strukt = self.mono_struct(g, *strukt);
                let args = self.mono_pats(g, args);
                PatKind::Struct { strukt, args }
            },
            PatKind::Or(alts) => {
                let alts = self.mono_pats(g, alts);
                PatKind::Or(alts)
            },
            PatKind::Error => PatKind::Error,
        }
    }

    fn mono_pats(&mut self, g: &Site, list: &Vec<Pat>) -> (r: Vec<Pat>)
        ensures
            final(self)@ == mono_pats(old(self)@, g@, pats(list@)).0,
            pats(r@) == mono_pats(old(self)@, g@, pats(list@)).1,
        decreases list, 2nat,
    {
        let mut r: Vec<Pat> = Vec::new();
        let ghost start = self@;
        let ghost all = pats(list@);
        assert(all.take(0) =~= seq![]);
        assert(pats(r@) =~= seq![]);
        for i in 0..list.len()
            invariant
                all == pats(list@),
                self@ == mono_pats(start, g@, all.take(i as int)).0,
                pats(r@) == mono_pats(start, g@, all.take(i as int)).1,
        {
            assert(all.take(i + 1).drop_last() =~= all.take(i as int));
            let one = self.mono_pat(g, &list[i]);
            let ghost before = pats(r@);
            r.push(one);
            assert(pats(r@) =~= before.push(one@));
        }
        assert(all.take(list.len() as int) =~= all);
        r
    }

    fn mono_expr(&mut self, g: &Site, e: &Expr) -> (r: Expr)
        ensures
            final(self)@ == mono_expr(old(self)@, g@, e@).0,
            r@ == mono_expr(old(self)@, g@, e@).1,
        decreases e, 4nat,
    {
        proof {
            e.look();
        }
        let ty = self.substitute(&e.ty, &g.args, g.at);
        let kind = self.mono_kind(g, e, &ty);
        make(kind, ty, e.span)
    }

    fn mono_kind(&mut self, g: &Site, e: &Expr, ty: &Ty) -> (r: ExprKind)
        ensures
            final(self)@ == mono_kind(old(self)@, g@, e@, ty@).0,
            r@ == mono_kind(old(self)@, g@, e@, ty@).1,
        decreases e, 3nat,
    {
        proof {
            e.look();
        }
        match &e.kind {
            ExprKind::Unit => ExprKind::Unit,
            ExprKind::Int(value) => ExprKind::Int(*value),
            ExprKind::Float(value) => ExprKind::Float(*value),
            ExprKind::Str(value) => ExprKind::Str(value.clone()),
            ExprKind::Bool(value) => ExprKind::Bool(*value),
            ExprKind::Local(id) => ExprKind::Local(*id),
            ExprKind::Continue => ExprKind::Continue,
            ExprKind::Error => ExprKind::Error,
            ExprKind::Field { .. } => self.mono_one(g, e),
            ExprKind::Unary { .. } => self.mono_one(g, e),
            ExprKind::Await { .. } => self.mono_one(g, e),
            ExprKind::Scope { .. } => self.mono_one(g, e),
            ExprKind::Spawn { .. } => self.mono_one(g, e),
            ExprKind::ReactorInput { .. } => self.mono_one(g, e),
            ExprKind::ReactorExport { .. } => self.mono_one(g, e),
            ExprKind::Try { .. } => self.mono_one(g, e),
            ExprKind::Loop { .. } => self.mono_one(g, e),
            ExprKind::Binary { .. } => self.mono_two(g, e),
            ExprKind::ShortCircuit { .. } => self.mono_two(g, e),
            ExprKind::While { .. } => self.mono_two(g, e),
            ExprKind::Call { .. } => self.mono_call(g, e, ty),
            ExprKind::Builtin { .. } => self.mono_call(g, e, ty),
            ExprKind::Construct { .. } => self.mono_call(g, e, ty),
            ExprKind::SpawnReactor { .. } => self.mono_call(g, e, ty),
            ExprKind::Match { .. } => self.mono_branch(g, e),
            ExprKind::If { .. } => self.mono_branch(g, e),
            ExprKind::Block { .. } => self.mono_branch(g, e),
            ExprKind::Return { .. } => self.mono_branch(g, e),
            ExprKind::Break { .. } => self.mono_branch(g, e),
        }
    }

    fn mono_one(&mut self, g: &Site, e: &Expr) -> (r: ExprKind)
        requires
            match e.kind {
                ExprKind::Field { .. } => true,
                ExprKind::Unary { .. } => true,
                ExprKind::Await { .. } => true,
                ExprKind::Scope { .. } => true,
                ExprKind::Spawn { .. } => true,
                ExprKind::ReactorInput { .. } => true,
                ExprKind::ReactorExport { .. } => true,
                ExprKind::Try { .. } => true,
                ExprKind::Loop { .. } => true,
                _ => false,
            },
        ensures
            final(self)@ == mono_one(old(self)@, g@, e@).0,
            r@ == mono_one(old(self)@, g@, e@).1,
        decreases e, 2nat,
    {
        proof {
            e.look();
        }
        match &e.kind {
            ExprKind::Field { base, index } => ExprKind::Field {
                base: Box::new(self.mono_expr(g, base)),
                index: *index,
            },
            ExprKind::Unary { op, expr } => ExprKind::Unary {
                op: *op,
                expr: Box::new(self.mono_expr(g, expr)),
            },
            ExprKind::Await { expr } => ExprKind::Await { expr: Box::new(self.mono_expr(g, expr)) },
            ExprKind::Scope { body } => ExprKind::Scope { body: Box::new(self.mono_expr(g, body)) },
            ExprKind::Spawn { expr } => ExprKind::Spawn { expr: Box::new(self.mono_expr(g, expr)) },
            ExprKind::ReactorInput { reactor, index } => ExprKind::ReactorInput {
                reactor: Box::new(self.mono_expr(g, reactor)),
                index: *index,
            },
            ExprKind::ReactorExport { reactor, index } => ExprKind::ReactorExport {
                reactor: Box::new(self.mono_expr(g, reactor)),
                index: *index,
            },
            ExprKind::Try { expr, enum_id } => ExprKind::Try {
                expr: Box::new(self.mono_expr(g, expr)),
                enum_id: *enum_id,
            },
            ExprKind::Loop { body } => ExprKind::Loop { body: Box::new(self.mono_expr(g, body)) },
            _ => ExprKind::Error,
        }
    }

    fn mono_two(&mut self, g: &Site, e: &Expr) -> (r: ExprKind)
        requires
            match e.kind {
                ExprKind::Binary { .. } => true,
                ExprKind::ShortCircuit { .. } => true,
                ExprKind::While { .. } => true,
                _ => false,
            },
        ensures
            final(self)@ == mono_two(old(self)@, g@, e@).0,
            r@ == mono_two(old(self)@, g@, e@).1,
        decreases e, 2nat,
    {
        proof {
            e.look();
        }
        match &e.kind {
            ExprKind::Binary { op, lhs, rhs } => {
                let lhs = self.mono_expr(g, lhs);
                let rhs = self.mono_expr(g, rhs);
                ExprKind::Binary { op: *op, lhs: Box::new(lhs), rhs: Box::new(rhs) }
            },
            ExprKind::ShortCircuit { and, lhs, rhs } => {
                let lhs = self.mono_expr(g, lhs);
                let rhs = self.mono_expr(g, rhs);
                ExprKind::ShortCircuit { and: *and, lhs: Box::new(lhs), rhs: Box::new(rhs) }
            },
            ExprKind::While { cond, body } => {
                let cond = self.mono_expr(g, cond);
                let body = self.mono_expr(g, body);
                ExprKind::While { cond: Box::new(cond), body: Box::new(body) }
            },
            _ => ExprKind::Error,
        }
    }

    fn mono_call(&mut self, g: &Site, e: &Expr, ty: &Ty) -> (r: ExprKind)
        requires
            match e.kind {
                ExprKind::Call { .. } => true,
                ExprKind::Builtin { .. } => true,
                ExprKind::Construct { .. } => true,
                ExprKind::SpawnReactor { .. } => true,
                _ => false,
            },
        ensures
            final(self)@ == mono_call(old(self)@, g@, e@, ty@).0,
            r@ == mono_call(old(self)@, g@, e@, ty@).1,
        decreases e, 2nat,
    {
        proof {
            e.look();
        }
        match &e.kind {
            ExprKind::Call { callee, args } => {
                let callee = self.mono_callee(g, *callee);
                let args = self.mono_exprs(g, args);
                ExprKind::Call { callee, args }
            },
            ExprKind::Builtin { builtin, args } => {
                let args = self.mono_exprs(g, args);
                self.ask_again(g, *builtin, &args, ty);
                ExprKind::Builtin { builtin: *builtin, args }
            },
            ExprKind::Construct { ctor, args } => {
                let ctor = self.mono_ctor(g, *ctor);
                let args = self.mono_exprs(g, args);
                ExprKind::Construct { ctor, args }
            },
            ExprKind::SpawnReactor { reactor, args } => {
                let args = self.mono_exprs(g, args);
                ExprKind::SpawnReactor { reactor: *reactor, args }
            },
            _ => ExprKind::Error,
        }
    }

    fn mono_branch(&mut self, g: &Site, e: &Expr) -> (r: ExprKind)
        requires
            match e.kind {
                ExprKind::Match { .. } => true,
                ExprKind::If { .. } => true,
                ExprKind::Block { .. } => true,
                ExprKind::Return { .. } => true,
                ExprKind::Break { .. } => true,
                _ => false,
            },
        ensures
            final(self)@ == mono_branch(old(self)@, g@, e@).0,
            r@ == mono_branch(old(self)@, g@, e@).1,
        decreases e, 2nat,
    {
        proof {
            e.look();
        }
        match &e.kind {
            ExprKind::Match { scrutinee, arms } => {
                let scrutinee = self.mono_expr(g, scrutinee);
                let arms = self.mono_arms(g, arms);
                ExprKind::Match { scrutinee: Box::new(scrutinee), arms }
            },
            ExprKind::If { cond, then, els } => {
                let cond = self.mono_expr(g, cond);
                let then = self.mono_expr(g, then);
                let els = self.mono_maybe(g, els);
                ExprKind::If { cond: Box::new(cond), then: Box::new(then), els }
            },
            ExprKind::Block { stmts, tail } => {
                let stmts = self.mono_stmts(g, stmts);
                let tail = self.mono_maybe(g, tail);
                ExprKind::Block { stmts, tail }
            },
            ExprKind::Return { value } => ExprKind::Return { value: self.mono_maybe(g, value) },
            ExprKind::Break { value } => ExprKind::Break { value: self.mono_maybe(g, value) },
            _ => ExprKind::Error,
        }
    }

    fn mono_maybe(&mut self, g: &Site, e: &Option<Box<Expr>>) -> (r: Option<Box<Expr>>)
        ensures
            final(self)@ == mono_maybe(old(self)@, g@, boxed(*e)).0,
            boxed(r) == mono_maybe(old(self)@, g@, boxed(*e)).1,
        decreases e, 5nat,
    {
        match e {
            Some(e) => Some(Box::new(self.mono_expr(g, e))),
            None => None,
        }
    }

    fn mono_exprs(&mut self, g: &Site, list: &Vec<Expr>) -> (r: Vec<Expr>)
        ensures
            final(self)@ == mono_exprs(old(self)@, g@, exprs(list@)).0,
            exprs(r@) == mono_exprs(old(self)@, g@, exprs(list@)).1,
        decreases list, 5nat,
    {
        let mut r: Vec<Expr> = Vec::new();
        let ghost start = self@;
        let ghost all = exprs(list@);
        assert(all.take(0) =~= seq![]);
        assert(exprs(r@) =~= seq![]);
        for i in 0..list.len()
            invariant
                all == exprs(list@),
                self@ == mono_exprs(start, g@, all.take(i as int)).0,
                exprs(r@) == mono_exprs(start, g@, all.take(i as int)).1,
        {
            assert(all.take(i + 1).drop_last() =~= all.take(i as int));
            let one = self.mono_expr(g, &list[i]);
            let ghost before = exprs(r@);
            r.push(one);
            assert(exprs(r@) =~= before.push(one@));
        }
        assert(all.take(list.len() as int) =~= all);
        r
    }

    fn mono_arm(&mut self, g: &Site, arm: &Arm) -> (r: Arm)
        ensures
            final(self)@ == mono_arm(old(self)@, g@, arm@).0,
            r@ == mono_arm(old(self)@, g@, arm@).1,
        decreases arm, 5nat,
    {
        let pat = self.mono_pat(g, &arm.pat);
        let guard = match &arm.guard {
            Some(guard) => Some(self.mono_expr(g, guard)),
            None => None,
        };
        let body = self.mono_expr(g, &arm.body);
        Arm { pat, guard, body, span: arm.span }
    }

    fn mono_arms(&mut self, g: &Site, list: &Vec<Arm>) -> (r: Vec<Arm>)
        ensures
            final(self)@ == mono_arms(old(self)@, g@, arms_of(list@)).0,
            arms_of(r@) == mono_arms(old(self)@, g@, arms_of(list@)).1,
        decreases list, 5nat,
    {
        let mut r: Vec<Arm> = Vec::new();
        let ghost start = self@;
        let ghost all = arms_of(list@);
        assert(all.take(0) =~= seq![]);
        assert(arms_of(r@) =~= seq![]);
        for i in 0..list.len()
            invariant
                all == arms_of(list@),
                self@ == mono_arms(start, g@, all.take(i as int)).0,
                arms_of(r@) == mono_arms(start, g@, all.take(i as int)).1,
        {
            assert(all.take(i + 1).drop_last() =~= all.take(i as int));
            let one = self.mono_arm(g, &list[i]);
            let ghost before = arms_of(r@);
            r.push(one);
            assert(arms_of(r@) =~= before.push(one@));
        }
        assert(all.take(list.len() as int) =~= all);
        r
    }

    fn mono_stmt(&mut self, g: &Site, stmt: &Stmt) -> (r: Stmt)
        ensures
            final(self)@ == mono_stmt(old(self)@, g@, stmt@).0,
            r@ == mono_stmt(old(self)@, g@, stmt@).1,
        decreases stmt, 5nat,
    {
        let kind = match &stmt.kind {
            StmtKind::Let { local, value } => StmtKind::Let {
                local: *local,
                value: self.mono_expr(g, value),
            },
            StmtKind::Assign { place, value } => {
                let place = self.mono_expr(g, place);
                let value = self.mono_expr(g, value);
                StmtKind::Assign { place, value }
            },
            StmtKind::After { task, reply } => StmtKind::After {
                task: self.mono_expr(g, task),
                reply: *reply,
            },
            StmtKind::Expr(e) => StmtKind::Expr(self.mono_expr(g, e)),
        };
        Stmt { kind, span: stmt.span }
    }

    fn mono_stmts(&mut self, g: &Site, list: &Vec<Stmt>) -> (r: Vec<Stmt>)
        ensures
            final(self)@ == mono_stmts(old(self)@, g@, stmts_of(list@)).0,
            stmts_of(r@) == mono_stmts(old(self)@, g@, stmts_of(list@)).1,
        decreases list, 5nat,
    {
        let mut r: Vec<Stmt> = Vec::new();
        let ghost start = self@;
        let ghost all = stmts_of(list@);
        assert(all.take(0) =~= seq![]);
        assert(stmts_of(r@) =~= seq![]);
        for i in 0..list.len()
            invariant
                all == stmts_of(list@),
                self@ == mono_stmts(start, g@, all.take(i as int)).0,
                stmts_of(r@) == mono_stmts(start, g@, all.take(i as int)).1,
        {
            assert(all.take(i + 1).drop_last() =~= all.take(i as int));
            let one = self.mono_stmt(g, &list[i]);
            let ghost before = stmts_of(r@);
            r.push(one);
            assert(stmts_of(r@) =~= before.push(one@));
        }
        assert(all.take(list.len() as int) =~= all);
        r
    }

    fn mono_locals(&mut self, g: &Site, list: &Vec<LocalDef>) -> (r: Vec<LocalDef>)
        ensures
            final(self)@ == mono_locals(old(self)@, g@, locals_of(list@)).0,
            locals_of(r@) == mono_locals(old(self)@, g@, locals_of(list@)).1,
    {
        let mut r: Vec<LocalDef> = Vec::new();
        let ghost start = self@;
        let ghost all = locals_of(list@);
        assert(all.take(0) =~= seq![]);
        assert(locals_of(r@) =~= seq![]);
        for i in 0..list.len()
            invariant
                all == locals_of(list@),
                self@ == mono_locals(start, g@, all.take(i as int)).0,
                locals_of(r@) == mono_locals(start, g@, all.take(i as int)).1,
        {
            assert(all.take(i + 1).drop_last() =~= all.take(i as int));
            assert(all.take(i + 1).last() == list@[i as int]@);
            let local = &list[i];
            let ty = self.substitute(&local.ty, &g.args, g.at);
            let one = LocalDef {
                name: local.name.clone(),
                ty,
                mutable: local.mutable,
                role: local.role,
                span: local.span,
            };
            let ghost before = locals_of(r@);
            r.push(one);
            assert(locals_of(r@) =~= before.push(one@));
        }
        assert(all.take(list.len() as int) =~= all);
        r
    }

    /// A function's locals and body, replaced. What stood there before is handed out.
    fn swap_code(&mut self, id: FnId, locals: Vec<LocalDef>, body: Expr) -> (r: (
        Vec<LocalDef>,
        Expr,
    ))
        requires
            id.0 < old(self)@.program.fns.len(),
        ensures
            final(self)@ == old(self)@.with_code(id, locals_of(locals@), body@),
            locals_of(r.0@) == old(self)@.program.fns[id.0 as int].locals,
            r.1@ == old(self)@.program.fns[id.0 as int].body,
    {
        proof {
            reveal(Checker::view);
            reveal(State::with_code);
        }
        let at: usize = id.index();
        let mut locals = locals;
        let mut body = body;
        let ghost new_locals = locals_of(locals@);
        let ghost new_body = body@;
        core::mem::swap(&mut self.program.fns[at].locals, &mut locals);
        core::mem::swap(&mut self.program.fns[at].body, &mut body);
        assert(fns_of(self.program.fns@) =~= fns_of(old(self).program.fns@).update(
            at as int,
            model::FnDef {
                locals: new_locals,
                body: new_body,
                ..fns_of(old(self).program.fns@)[at as int]
            },
        ));
        (locals, body)
    }

    fn set_code(&mut self, id: FnId, locals: Vec<LocalDef>, body: Expr)
        ensures
            final(self)@ == old(self)@.with_code(id, locals_of(locals@), body@),
    {
        proof {
            reveal(Checker::view);
            reveal(State::with_code);
        }
        let at: usize = id.index();
        if at < self.program.fns.len() {
            let ghost new_locals = locals_of(locals@);
            let ghost new_body = body@;
            self.program.fns[at].locals = locals;
            self.program.fns[at].body = body;
            assert(fns_of(self.program.fns@) =~= fns_of(old(self).program.fns@).update(
                at as int,
                model::FnDef {
                    locals: new_locals,
                    body: new_body,
                    ..fns_of(old(self).program.fns@)[at as int]
                },
            ));
        }
    }

    fn remove_code(&mut self, id: FnId)
        ensures
            final(self)@ == old(self)@.without_code(id),
    {
        proof {
            reveal(Checker::view);
            reveal(State::without_code);
        }
        let at: usize = id.index();
        if at < self.program.fns.len() {
            let ghost def = fns_of(self.program.fns@)[at as int];
            let params: usize = self.program.fns[at].params;
            let span = self.program.fns[at].span;
            let body = make(ExprKind::Unit, Ty::Unit, span);
            let ghost new_body = body@;
            if params < self.program.fns[at].locals.len() {
                self.program.fns[at].locals.truncate(params);
            }
            self.program.fns[at].inert = true;
            self.program.fns[at].body = body;
            let ghost kept = if params < def.locals.len() {
                def.locals.take(params as int)
            } else {
                def.locals
            };
            assert(locals_of(self.program.fns@[at as int].locals@) =~= kept);
            assert(fns_of(self.program.fns@) =~= fns_of(old(self).program.fns@).update(
                at as int,
                model::FnDef { locals: kept, inert: true, body: new_body, ..def },
            ));
        }
    }

    fn fn_count(&self) -> (r: usize)
        ensures
            r == self@.program.fns.len(),
    {
        proof {
            reveal(Checker::view);
        }
        self.program.fns.len()
    }

    fn mono_instance(&mut self, id: FnId)
        ensures
            final(self)@ == mono_instance(old(self)@, id),
    {
        proof {
            reveal(mono_instance);
            reveal(mono_copy);
        }
        if let Some((template, args, module, at, depth)) = self.fn_instance(id) {
            if template.index() >= self.fn_count() {
                return;
            }
            let g = Site { args, at, depth };
            let outer: usize = self.current();
            self.set_current(module);
            let none: Vec<LocalDef> = Vec::new();
            assert(locals_of(none@) =~= seq![]);
            assert(self@.program == old(self)@.program) by {
                reveal(State::with_current);
            }
            let (template_locals, template_body) = self.swap_code(template, none, error_expr(at));
            let locals = self.mono_locals(&g, &template_locals);
            let body = self.mono_expr(&g, &template_body);
            self.set_code(template, template_locals, template_body);
            self.set_code(id, locals, body);
            self.set_current(outer);
        }
    }

    fn queued(&self, next: usize) -> (r: Option<FnId>)
        ensures
            match r {
                Some(id) => next < self@.worklist.len() && id == self@.worklist[next as int],
                None => next >= self@.worklist.len(),
            },
    {
        proof {
            reveal(Checker::view);
        }
        if next < self.worklist.len() {
            Some(self.worklist[next])
        } else {
            None
        }
    }

    fn remove_codes(&mut self, ids: &Vec<FnId>)
        ensures
            final(self)@ == without_codes(old(self)@, ids@),
    {
        let ghost start = self@;
        let ghost all = ids@;
        assert(all.take(0) =~= seq![]);
        for i in 0..ids.len()
            invariant
                all == ids@,
                self@ == without_codes(start, all.take(i as int)),
        {
            assert(all.take(i + 1).drop_last() =~= all.take(i as int));
            self.remove_code(ids[i]);
        }
        assert(all.take(ids.len() as int) =~= all);
    }

    fn neuter_templates(&mut self)
        ensures
            final(self)@ == neuter_templates(old(self)@),
    {
        proof {
            reveal(neuter_templates);
            reveal(Checker::view);
        }
        let templates = find_templates(&self.program.fns);
        let symbolic = find_symbolic(&self.fn_instances);
        let stubs = find_stubs(&self.stubs);
        self.remove_codes(&templates);
        self.remove_codes(&symbolic);
        self.remove_codes(&stubs);
    }

    /// Every copy that was asked for, and the templates put out of the way.
    pub fn monomorphize(&mut self)
        ensures
            final(self)@ == monomorphize(old(self)@),
    {
        proof {
            reveal(monomorphize);
        }
        let ghost start = self@;
        let mut next: usize = self.work_cursor();
        let mut done = false;
        while !done
            invariant
                done ==> self@ == mono_from(start, start.work_cursor as nat),
                !done ==> mono_from(self@, next as nat) == mono_from(
                    start,
                    start.work_cursor as nat,
                ),
            decreases INSTANCE_CEILING - next, if done { 0nat } else { 1nat },
        {
            match self.queued(next) {
                Some(id) if next < INSTANCE_CEILING => {
                    self.set_work_cursor(next + 1);
                    self.mono_instance(id);
                    next = next + 1;
                },
                _ => {
                    done = true;
                },
            }
        }
        self.neuter_templates();
    }

    fn fill(&mut self, f: Fill)
        ensures
            final(self)@ == fill(old(self)@, f),
    {
        proof {
            reveal(fill);
        }
        match f {
            Fill::Struct(index, depth) => self.fill_struct(index, depth),
            Fill::Enum(index, depth) => self.fill_enum(index, depth),
        }
    }

    fn put_off(&self, next: usize) -> (r: Option<Fill>)
        ensures
            match r {
                Some(f) => next < self@.fill_queue.len() && f == self@.fill_queue[next as int],
                None => next >= self@.fill_queue.len(),
            },
    {
        proof {
            reveal(Checker::view);
        }
        if next < self.fill_queue.len() {
            Some(self.fill_queue[next])
        } else {
            None
        }
    }

    /// Every type instance whose fields were put off, filled; none is put off from here on.
    pub fn drain_type_fills(&mut self)
        ensures
            final(self)@ == drain_type_fills(old(self)@),
    {
        proof {
            reveal(drain_type_fills);
        }
        let ghost start = self@;
        let mut next: usize = self.fill_cursor();
        let mut done = false;
        while !done
            invariant
                done ==> self@ == fill_from(start, start.fill_cursor as nat),
                !done ==> fill_from(self@, next as nat) == fill_from(
                    start,
                    start.fill_cursor as nat,
                ),
            decreases INSTANCE_CEILING - next, if done { 0nat } else { 1nat },
        {
            match self.put_off(next) {
                Some(f) if next < INSTANCE_CEILING => {
                    self.set_fill_cursor(next + 1);
                    self.fill(f);
                    next = next + 1;
                },
                _ => {
                    done = true;
                },
            }
        }
        self.set_defining_types(false);
    }
}

} // verus!
