//! Binding names, fitting a value to what its position wants, and what a place allows.

use vstd::prelude::*;
use vstd::string::*;
use crate::checker::{error_expr, failed, maybe, Checker};
use crate::hir::{exprs, Capability, Expr, ExprKind, LocalId, LocalRole, Ty};
use crate::model;
use crate::reports;
use crate::resolve::capability_name;
use crate::say;
use crate::span::{texts, Report, Span};
use crate::state::{builtin_variant, State};
use crate::text::{join, joined, same};
use crate::turns::{impure, impure_report};
use crate::walk::effect_arguments;

verus! {

// ---------------------------------------------------------------- types of values

/// What a borrow borrows; anything else is its own.
pub open spec fn owned(t: model::Ty) -> model::Ty {
    match t {
        model::Ty::Ref(inner) => *inner,
        _ => t,
    }
}

pub fn owned_ty(t: &Ty) -> (r: &Ty)
    ensures
        r@ == owned(t@),
{
    match t {
        Ty::Ref(inner) => inner,
        _ => t,
    }
}

pub fn is_ref(t: &Ty) -> (r: bool)
    ensures
        r == (t@ is Ref),
{
    match t {
        Ty::Ref(_) => true,
        _ => false,
    }
}

pub fn is_error(t: &Ty) -> (r: bool)
    ensures
        r == (t@ is Error),
{
    match t {
        Ty::Error => true,
        _ => false,
    }
}

pub fn is_never(t: &Ty) -> (r: bool)
    ensures
        r == (t@ is Never),
{
    match t {
        Ty::Never => true,
        _ => false,
    }
}

/// The four bare constructor names.
pub fn is_builtin_variant(name: &str) -> (r: bool)
    ensures
        r == builtin_variant(name@),
{
    same(name, "None") || same(name, "Some") || same(name, "Ok") || same(name, "Err")
}

// ---------------------------------------------------------------- locals

/// One more local. The four bare constructor names are unbindable, and said to be; the local is
/// declared all the same, so that what is checked against it does not fail as well.
#[verifier::opaque]
pub open spec fn declare_role(
    s: State,
    name: Seq<char>,
    ty: model::Ty,
    mutable: bool,
    role: LocalRole,
    span: Span,
) -> (State, LocalId) {
    let s1 = if builtin_variant(name) {
        s.push(reports::ctor_bound(span, name))
    } else {
        s
    };
    (s1.bound(name, ty, mutable, role, span), LocalId(s1.locals.len() as u32))
}

/// A `let`, or a name a pattern binds. A reference may not be given a name.
#[verifier::opaque]
pub open spec fn declare_local(
    s: State,
    name: Seq<char>,
    ty: model::Ty,
    mutable: bool,
    span: Span,
) -> (State, LocalId) {
    if ty is Ref {
        declare_role(
            s.push(reports::borrow_named(span, name)),
            name,
            model::Ty::Error,
            mutable,
            LocalRole::Ordinary,
            span,
        )
    } else {
        declare_role(s, name, ty, mutable, LocalRole::Ordinary, span)
    }
}

// ---------------------------------------------------------------- fitting

/// Which way the value goes, where `&` was written or left out by mistake.
#[verifier::opaque]
pub open spec fn borrow_mismatch(s: State, expected: model::Ty, span: Span) -> Report {
    if expected is Ref {
        reports::borrows_not_takes(span, s.ty_name(owned(expected)))
    } else {
        reports::takes_not_borrows(span, s.ty_name(owned(expected)))
    }
}

/// A checked expression where a type is wanted: as it is when it fits, and reported otherwise.
#[verifier::opaque]
pub open spec fn expect(
    s: State,
    found: model::Expr,
    expected: Option<model::Ty>,
    span: Span,
) -> (State, model::Expr) {
    match expected {
        None => (s, found),
        Some(want) => if found.ty.fits(want) {
            (s, found)
        } else if found.ty is Task && task_of(found.ty).fits(want) {
            (s.push(reports::discarded_task(span)), failed(span))
        } else if owned(found.ty).fits(owned(want)) && (found.ty is Ref) != (want is Ref) {
            (s.push(borrow_mismatch(s, want, span)), failed(span))
        } else {
            (
                s.push(reports::mismatch(span, s.ty_name(want), s.ty_name(found.ty))),
                failed(span),
            )
        },
    }
}

/// What a task produces.
pub open spec fn task_of(t: model::Ty) -> model::Ty {
    match t {
        model::Ty::Task(inner) => *inner,
        _ => t,
    }
}

/// A value that does not fit is reported once, in the file being looked at, and stands for nothing
/// further; one that fits is handed on as it is.
pub proof fn misfits_are_reported(s: State, found: model::Expr, want: model::Ty, span: Span)
    requires
        s.current < s.errors.len(),
    ensures
        ({
            let r = expect(s, found, Some(want), span);
            let before = s.errors[s.current as int];
            let after = r.0.errors[s.current as int];
            if found.ty.fits(want) {
                r.0 == s && r.1 == found
            } else {
                after.len() == before.len() + 1 && after.drop_last() == before
                    && after.last().span == span && r.1 == failed(span)
            }
        }),
{
    reveal(expect);
    reveal(State::push);
    reveal(reports::discarded_task);
    reveal(borrow_mismatch);
    reveal(reports::borrows_not_takes);
    reveal(reports::takes_not_borrows);
    reveal(reports::mismatch);
    let after = expect(s, found, Some(want), span).0.errors[s.current as int];
    if !found.ty.fits(want) {
        assert(after.drop_last() =~= s.errors[s.current as int]);
    }
}

// ---------------------------------------------------------------- authority

/// Whether a task may be built here at all.
#[verifier::opaque]
pub open spec fn require_task_context(s: State, what: Seq<char>, span: Span) -> (State, bool) {
    if s.ctx.may_build() {
        (s, true)
    } else if s.ctx.is_turn() {
        (s.push(impure_report(what, "builds a task"@, span)), false)
    } else {
        (s.push(reports::only_task_fns(span, s.fn_name, what)), false)
    }
}

pub open spec fn capability_names(v: model::Vocabulary, list: Seq<Capability>) -> Seq<Seq<char>> {
    Seq::new(list.len(), |i: int| capability_name(v, list[i]))
}

/// Every capability needed and not declared, reported.
pub open spec fn missing_authority(
    s: State,
    what: Seq<char>,
    needs: Seq<Capability>,
    span: Span,
) -> (State, bool)
    decreases needs.len(),
{
    if needs.len() == 0 {
        (s, true)
    } else {
        let (s1, so_far) = missing_authority(s, what, needs.drop_last(), span);
        let c = needs.last();
        if s1.uses.contains(c) {
            (s1, so_far)
        } else {
            (
                s1.push(
                    reports::undeclared_capability(
                        span,
                        s1.fn_name,
                        capability_name(s1.vocabulary, c),
                        what,
                        joined(capability_names(s1.vocabulary, s1.uses.push(c)), ", "@),
                    ),
                ),
                false,
            )
        }
    }
}

/// Whether a task may be built here, and whether its authority was declared: asked where the task
/// is built, because once it is a value nothing can tell what it will do.
#[verifier::opaque]
pub open spec fn require_task_authority(
    s: State,
    what: Seq<char>,
    needs: Seq<Capability>,
    span: Span,
) -> (State, bool) {
    let (s1, allowed) = require_task_context(s, what, span);
    if allowed {
        missing_authority(s1, what, needs, span)
    } else {
        (s1, false)
    }
}

/// A task built here and started later may not hold a borrow.
pub open spec fn borrowed_arguments(
    s: State,
    args: Seq<model::Expr>,
    what: Seq<char>,
    when: Seq<char>,
) -> State
    decreases args.len(),
{
    if args.len() == 0 {
        s
    } else {
        let s1 = borrowed_arguments(s, args.drop_last(), what, when);
        let arg = args.last();
        if arg.ty is Ref {
            s1.push(
                reports::borrowed_task_arg(arg.span, what, when, s1.ty_name(owned(arg.ty))),
            )
        } else {
            s1
        }
    }
}

#[verifier::opaque]
pub open spec fn no_borrowed_arguments(
    s: State,
    task: model::Expr,
    what: Seq<char>,
    when: Seq<char>,
) -> State {
    borrowed_arguments(s, effect_arguments(task), what, when)
}

// ---------------------------------------------------------------- carrying it out

impl Checker {
    pub fn declare_role(
        &mut self,
        name: &str,
        ty: Ty,
        mutable: bool,
        role: LocalRole,
        span: Span,
    ) -> (r: LocalId)
        ensures
            final(self)@ == declare_role(old(self)@, name@, ty@, mutable, role, span).0,
            r == declare_role(old(self)@, name@, ty@, mutable, role, span).1,
    {
        proof {
            reveal(declare_role);
        }
        if is_builtin_variant(name) {
            self.push(say::ctor_bound(span, name));
        }
        self.bind(name, ty, mutable, role, span)
    }

    pub fn declare_local(&mut self, name: &str, ty: Ty, mutable: bool, span: Span) -> (r: LocalId)
        ensures
            final(self)@ == declare_local(old(self)@, name@, ty@, mutable, span).0,
            r == declare_local(old(self)@, name@, ty@, mutable, span).1,
    {
        proof {
            reveal(declare_local);
        }
        if is_ref(&ty) {
            self.push(say::borrow_named(span, name));
            return self.declare_role(name, Ty::Error, mutable, LocalRole::Ordinary, span);
        }
        self.declare_role(name, ty, mutable, LocalRole::Ordinary, span)
    }

    /// A parameter, which is the one position where a reference may be written down.
    pub fn declare_param(&mut self, name: &str, ty: Ty, span: Span) -> (r: LocalId)
        ensures
            final(self)@ == declare_role(
                old(self)@,
                name@,
                ty@,
                false,
                LocalRole::Ordinary,
                span,
            ).0,
            r == declare_role(old(self)@, name@, ty@, false, LocalRole::Ordinary, span).1,
    {
        self.declare_role(name, ty, false, LocalRole::Ordinary, span)
    }

    fn borrow_mismatch(&mut self, expected: &Ty, span: Span)
        ensures
            final(self)@ == old(self)@.push(borrow_mismatch(old(self)@, expected@, span)),
    {
        proof {
            reveal(borrow_mismatch);
        }
        let name = self.ty_name(owned_ty(expected));
        if is_ref(expected) {
            self.push(say::borrows_not_takes(span, name.as_str()));
        } else {
            self.push(say::takes_not_borrows(span, name.as_str()));
        }
    }

    /// Report a mismatch unless `found` fits what is wanted.
    pub fn expect(&mut self, found: Expr, expected: &Option<Ty>, span: Span) -> (r: Expr)
        ensures
            final(self)@ == expect(old(self)@, found@, maybe(*expected), span).0,
            r@ == expect(old(self)@, found@, maybe(*expected), span).1,
    {
        proof {
            reveal(expect);
            found.look();
        }
        let want = match expected {
            None => {
                return found;
            },
            Some(want) => want,
        };
        if found.ty.fits(want) {
            return found;
        }
        let produced_fits = match &found.ty {
            Ty::Task(produced) => produced.fits(want),
            _ => false,
        };
        if produced_fits {
            self.push(say::discarded_task(span));
            return error_expr(span);
        }
        if owned_ty(&found.ty).fits(owned_ty(want)) && is_ref(&found.ty) != is_ref(want) {
            self.borrow_mismatch(want, span);
            return error_expr(span);
        }
        let wanted = self.ty_name(want);
        let got = self.ty_name(&found.ty);
        self.push(say::mismatch(span, wanted.as_str(), got.as_str()));
        error_expr(span)
    }

    pub fn require_task_context(&mut self, what: &str, span: Span) -> (r: bool)
        ensures
            final(self)@ == require_task_context(old(self)@, what@, span).0,
            r == require_task_context(old(self)@, what@, span).1,
    {
        proof {
            reveal(require_task_context);
        }
        let ctx = self.ctx();
        if ctx.builds_tasks() {
            return true;
        }
        if ctx.in_turn() {
            self.push(impure(what, "builds a task", span));
            return false;
        }
        let name = self.fn_name();
        self.push(say::only_task_fns(span, name.as_str(), what));
        false
    }

    fn capability_list(&self, list: &Vec<Capability>) -> (r: String)
        ensures
            r@ == joined(capability_names(self@.vocabulary, list@), ", "@),
    {
        let mut names: Vec<String> = Vec::new();
        for i in 0..list.len()
            invariant
                names.len() == i,
                forall|j: int|
                    0 <= j < i ==> #[trigger] names@[j]@ == capability_name(
                        self@.vocabulary,
                        list@[j],
                    ),
        {
            names.push(self.capability_name(list[i]));
        }
        assert(texts(names@) =~= capability_names(self@.vocabulary, list@));
        join(&names, ", ")
    }

    pub fn require_task_authority(&mut self, what: &str, needs: &Vec<Capability>, span: Span) -> (r:
        bool)
        ensures
            final(self)@ == require_task_authority(old(self)@, what@, needs@, span).0,
            r == require_task_authority(old(self)@, what@, needs@, span).1,
    {
        proof {
            reveal(require_task_authority);
        }
        if !self.require_task_context(what, span) {
            return false;
        }
        let ghost start = self@;
        let ghost all = needs@;
        let mut authorised: bool = true;
        assert(all.take(0) =~= seq![]);
        for i in 0..needs.len()
            invariant
                all == needs@,
                self@ == missing_authority(start, what@, all.take(i as int), span).0,
                authorised == missing_authority(start, what@, all.take(i as int), span).1,
        {
            assert(all.take(i + 1).drop_last() =~= all.take(i as int));
            let mut uses = self.uses();
            let c = needs[i];
            if !holds_capability(&uses, c) {
                let fn_name = self.fn_name();
                let name = self.capability_name(c);
                uses.push(c);
                let declared = self.capability_list(&uses);
                self.push(
                    say::undeclared_capability(
                        span,
                        fn_name.as_str(),
                        name.as_str(),
                        what,
                        declared.as_str(),
                    ),
                );
                authorised = false;
            }
        }
        assert(all.take(needs.len() as int) =~= all);
        authorised
    }

    fn borrowed_arguments(&mut self, args: &Vec<Expr>, what: &str, when: &str)
        ensures
            final(self)@ == borrowed_arguments(old(self)@, exprs(args@), what@, when@),
    {
        let ghost start = self@;
        let ghost all = exprs(args@);
        assert(all.take(0) =~= seq![]);
        for i in 0..args.len()
            invariant
                all == exprs(args@),
                self@ == borrowed_arguments(start, all.take(i as int), what@, when@),
        {
            assert(all.take(i + 1).drop_last() =~= all.take(i as int));
            proof {
                args@[i as int].look();
            }
            self.borrowed_argument(&args[i], what, when);
        }
        assert(all.take(args.len() as int) =~= all);
    }

    fn borrowed_argument(&mut self, arg: &Expr, what: &str, when: &str)
        ensures
            final(self)@ == if arg@.ty is Ref {
                old(self)@.push(
                    reports::borrowed_task_arg(
                        arg@.span,
                        what@,
                        when@,
                        old(self)@.ty_name(owned(arg@.ty)),
                    ),
                )
            } else {
                old(self)@
            },
    {
        proof {
            arg.look();
        }
        if is_ref(&arg.ty) {
            let name = self.ty_name(owned_ty(&arg.ty));
            self.push(say::borrowed_task_arg(arg.span, what, when, name.as_str()));
        }
    }

    pub fn no_borrowed_arguments(&mut self, task: &Expr, what: &str, when: &str)
        ensures
            final(self)@ == no_borrowed_arguments(old(self)@, task@, what@, when@),
    {
        proof {
            reveal(no_borrowed_arguments);
            task.look();
        }
        match &task.kind {
            ExprKind::Call { args, .. } => self.borrowed_arguments(args, what, when),
            ExprKind::Builtin { args, .. } => self.borrowed_arguments(args, what, when),
            _ => {
                proof {
                    let one = seq![task@];
                    assert(one.drop_last() =~= seq![]);
                    assert(borrowed_arguments(self@, one.drop_last(), what@, when@) == self@);
                }
                self.borrowed_argument(task, what, when);
            },
        }
    }
}

pub fn holds_capability(list: &Vec<Capability>, c: Capability) -> (r: bool)
    ensures
        r == list@.contains(c),
{
    for i in 0..list.len()
        invariant
            forall|j: int| 0 <= j < i ==> list@[j] != c,
    {
        if list[i] == c {
            return true;
        }
    }
    false
}

} // verus!
