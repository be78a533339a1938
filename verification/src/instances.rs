//! Functions as they enter the program: declared, instantiated from a template, or standing for a
//! method of a type parameter; and the bounds that arguments have to meet.

use vstd::prelude::*;
use vstd::string::*;
use crate::checker::{
    bounds_list, error_expr, failed, fn_bounds_of, fns_made, maybe, modes_of, pins_of,
    signatures_of, stubs_made, Checker, FnMade, StubMade,
};
use crate::copies::{self, place_of};
use crate::generics::{
    identity, instance_name, instantiate_enum, instantiate_struct, param_identity, same_tys, subst,
    INSTANCE_CEILING, INSTANCE_DEPTH,
};
use crate::hir::{
    bindings, fns_of, impls_of, locals_of, named_tys, tys, Capability, EnumId, FnDef, FnId,
    LocalDef, Mode, StructId, TraitId, Ty, EQ,
};
use crate::infer::any_param;
use crate::model;
use crate::reports;
use crate::say;
use crate::span::{texts, Diagnostic, Report, Span};
use crate::state::{FnInstance, State, Stub};
use crate::text::{decimal, join, joined, number, same};

verus! {

// ---------------------------------------------------------------- a new function

/// A function and everything kept beside it.
pub struct NewFn {
    pub def: model::FnDef,
    pub owner: usize,
    pub bounds: Seq<Seq<TraitId>>,
    pub params: Seq<(Seq<char>, model::Ty)>,
    pub modes: Seq<Mode>,
    pub pins: Seq<bool>,
}

impl State {
    /// One more function: every table about functions grows by one row.
    #[verifier::opaque]
    pub open spec fn with_fn(self, f: NewFn) -> State {
        State {
            program: model::Program { fns: self.program.fns.push(f.def), ..self.program },
            fn_owner: self.fn_owner.push(f.owner),
            fn_bounds: self.fn_bounds.push(f.bounds),
            signatures: self.signatures.push((f.params, f.def.ret)),
            param_modes: self.param_modes.push(f.modes),
            mode_pinned: self.mode_pinned.push(f.pins),
            ..self
        }
    }

    /// The id the next function gets.
    #[verifier::opaque]
    pub open spec fn next_fn(self) -> FnId {
        FnId(self.program.fns.len() as u32)
    }

    #[verifier::opaque]
    pub open spec fn with_fn_instance(self, i: FnInstance) -> State {
        State {
            fn_instances: self.fn_instances.push(i),
            worklist: if i.symbolic {
                self.worklist
            } else {
                self.worklist.push(i.id)
            },
            ..self
        }
    }

    #[verifier::opaque]
    pub open spec fn with_stub(self, stub: Stub) -> State {
        State { stubs: self.stubs.push(stub), ..self }
    }

    /// The instance a function id is, if it is one.
    #[verifier::opaque]
    pub open spec fn fn_instance(self, id: FnId) -> Option<FnInstance> {
        match place_of(fn_ids(self.fn_instances), id) {
            Some(i) => Some(self.fn_instances[i]),
            None => None,
        }
    }

    /// What a function id means generically: template and arguments for an instance, the identity
    /// for a template, nothing for an ordinary function.
    #[verifier::opaque]
    pub open spec fn fn_base(self, id: FnId) -> Option<(FnId, Seq<model::Ty>)> {
        match self.fn_instance(id) {
            Some(i) => Some((i.template, i.args)),
            None => if self.fn_type_params(id).len() == 0 {
                None
            } else {
                Some((id, param_identity(self.fn_type_params(id))))
            },
        }
    }

    /// The instance of a template at given arguments, if there is one.
    #[verifier::opaque]
    pub open spec fn fn_made(self, template: FnId, args: Seq<model::Ty>) -> Option<FnId> {
        match place_of(fn_keys(self.fn_instances), (template, args)) {
            Some(i) => Some(self.fn_instances[i].id),
            None => None,
        }
    }

    /// The stub for a method of a type, if there is one.
    #[verifier::opaque]
    pub open spec fn stub_made(
        self,
        trait_id: TraitId,
        method: Seq<char>,
        receiver: model::Ty,
    ) -> Option<FnId> {
        match place_of(stub_keys(self.stubs), (trait_id, method, receiver)) {
            Some(i) => Some(self.stubs[i].id),
            None => None,
        }
    }

    /// The stub a function id is, if it is one.
    #[verifier::opaque]
    pub open spec fn stub(self, id: FnId) -> Option<Stub> {
        match place_of(stub_ids(self.stubs), id) {
            Some(i) => Some(self.stubs[i]),
            None => None,
        }
    }

    /// Whether the ceiling on function instances is reached.
    #[verifier::opaque]
    pub open spec fn fns_full(self) -> bool {
        self.fn_instances.len() >= INSTANCE_CEILING
    }

    /// Whether some impl of a trait is for exactly this type.
    #[verifier::opaque]
    pub open spec fn implements(self, trait_id: TraitId, ty: model::Ty) -> bool {
        exists|i: int| #[trigger]
            impl_at(self.impls, i) && self.impls[i].trait_id == trait_id && self.impls[i].receiver
                == ty
    }

    /// The function an impl provides for a method of a type: the first impl that provides one.
    #[verifier::opaque]
    pub open spec fn impl_method(
        self,
        trait_id: TraitId,
        method: Seq<char>,
        receiver: model::Ty,
    ) -> Option<FnId> {
        first_impl_method(self.impls, trait_id, method, receiver)
    }
}

pub open spec fn impl_at(impls: Seq<model::ImplDef>, i: int) -> bool {
    0 <= i < impls.len()
}

pub open spec fn fn_ids(s: Seq<FnInstance>) -> Seq<FnId> {
    Seq::new(s.len(), |i: int| s[i].id)
}

pub open spec fn fn_keys(s: Seq<FnInstance>) -> Seq<(FnId, Seq<model::Ty>)> {
    Seq::new(s.len(), |i: int| (s[i].template, s[i].args))
}

pub open spec fn stub_ids(s: Seq<Stub>) -> Seq<FnId> {
    Seq::new(s.len(), |i: int| s[i].id)
}

pub open spec fn stub_keys(s: Seq<Stub>) -> Seq<(TraitId, Seq<char>, model::Ty)> {
    Seq::new(s.len(), |i: int| (s[i].trait_id, s[i].method, s[i].receiver))
}

pub open spec fn provided_names(s: Seq<(Seq<char>, Option<FnId>)>) -> Seq<Seq<char>> {
    Seq::new(s.len(), |i: int| s[i].0)
}

/// The function an impl wrote under a name, unless it was refused.
#[verifier::opaque]
pub open spec fn provided_as(s: Seq<(Seq<char>, Option<FnId>)>, name: Seq<char>) -> Option<FnId> {
    match place_of(provided_names(s), name) {
        Some(i) => s[i].1,
        None => None,
    }
}

pub open spec fn first_impl_method(
    impls: Seq<model::ImplDef>,
    trait_id: TraitId,
    method: Seq<char>,
    receiver: model::Ty,
) -> Option<FnId>
    decreases impls.len(),
{
    if impls.len() == 0 {
        None
    } else {
        match first_impl_method(impls.drop_last(), trait_id, method, receiver) {
            Some(id) => Some(id),
            None => if impls.last().trait_id == trait_id && impls.last().receiver == receiver {
                provided_as(impls.last().methods, method)
            } else {
                None
            },
        }
    }
}

/// A function whose body is still to come.
#[verifier::opaque]
pub open spec fn bodiless(
    name: Seq<char>,
    is_task: bool,
    params: usize,
    ret: model::Ty,
    span: Span,
) -> model::FnDef {
    model::FnDef {
        name,
        type_params: seq![],
        is_task,
        uses: seq![],
        params,
        modes: seq![],
        locals: seq![],
        ret,
        body: failed(span),
        inert: false,
        span,
    }
}

// ---------------------------------------------------------------- requests

/// Substitution from the top.
#[verifier::opaque]
pub open spec fn substitute(s: State, ty: model::Ty, args: Seq<model::Ty>, at: Span) -> (
    State,
    model::Ty,
) {
    subst(s, ty, args, at, 0, s.made())
}

/// Substitution in a list of types, one after the other.
pub open spec fn substitute_all(
    s: State,
    list: Seq<model::Ty>,
    args: Seq<model::Ty>,
    at: Span,
) -> (State, Seq<model::Ty>)
    decreases list.len(),
{
    if list.len() == 0 {
        (s, seq![])
    } else {
        let (s1, done) = substitute_all(s, list.drop_last(), args, at);
        let (s2, ty) = substitute(s1, list.last(), args, at);
        (s2, done.push(ty))
    }
}

/// Substitution in a parameter list.
pub open spec fn substitute_named(
    s: State,
    list: Seq<(Seq<char>, model::Ty)>,
    args: Seq<model::Ty>,
    at: Span,
) -> (State, Seq<(Seq<char>, model::Ty)>)
    decreases list.len(),
{
    if list.len() == 0 {
        (s, seq![])
    } else {
        let (s1, done) = substitute_named(s, list.drop_last(), args, at);
        let (s2, ty) = substitute(s1, list.last().1, args, at);
        (s2, done.push((list.last().0, ty)))
    }
}

/// Substitution of what inference settled; a parameter it did not settle becomes `Error`, which
/// is only reached where a diagnostic was given.
#[verifier::opaque]
pub open spec fn substitute_bindings(
    s: State,
    ty: model::Ty,
    b: Seq<Option<model::Ty>>,
    at: Span,
) -> (State, model::Ty) {
    substitute(s, ty, settled(b), at)
}

#[verifier::opaque]
pub open spec fn settled(b: Seq<Option<model::Ty>>) -> Seq<model::Ty> {
    Seq::new(
        b.len(),
        |i: int|
            match b[i] {
                Some(t) => t,
                None => model::Ty::Error,
            },
    )
}

/// Instantiate a generic function: equal arguments share one function. An instance whose
/// arguments still mention a parameter stands in another template's body and is never run.
#[verifier::opaque]
pub open spec fn request_fn_instance(
    s: State,
    template: FnId,
    args: Seq<model::Ty>,
    at: Span,
    depth: usize,
) -> (State, FnId) {
    if args == param_identity(s.fn_type_params(template)) {
        (s, template)
    } else {
        match s.fn_made(template, args) {
            Some(id) => (s, id),
            None => if depth > INSTANCE_DEPTH {
                (s.push(reports::ever_deeper(at, s.fn_display(template))), template)
            } else if s.fns_full() {
                (s.over_the_ceiling(reports::too_many_fns(at)), template)
            } else {
                new_fn_instance(s, template, args, at, depth)
            },
        }
    }
}

#[verifier::opaque]
pub open spec fn new_fn_instance(
    s: State,
    template: FnId,
    args: Seq<model::Ty>,
    at: Span,
    depth: usize,
) -> (State, FnId) {
    let (s1, params) = substitute_named(s, s.signature(template).0, args, at);
    let (s2, ret) = substitute(s1, s.signature(template).1, args, at);
    let id = s2.next_fn();
    let s3 = s2.with_fn(
        NewFn {
            def: bodiless(
                instance_name(s2.program, s2.fn_display(template), args),
                s2.fn_is_task(template),
                params.len() as usize,
                ret,
                s2.fn_at(template),
            ),
            owner: s2.fn_module(template),
            bounds: seq![],
            params,
            modes: s2.fn_modes(template),
            pins: s2.fn_pins(template),
        },
    );
    let made = FnInstance {
        template,
        args,
        id,
        module: s3.current,
        at,
        symbolic: any_param(s3, args, s3.made()),
        depth,
    };
    (s3.with_fn_instance(made), id)
}

/// The function that stands for a method of a type parameter, until the receiver is known.
/// One for each trait, method and receiver.
#[verifier::opaque]
pub open spec fn request_trait_call(
    s: State,
    trait_id: TraitId,
    method: Seq<char>,
    receiver: model::Ty,
    at: Span,
) -> (State, FnId) {
    match s.stub_made(trait_id, method, receiver) {
        Some(id) => (s, id),
        None => {
            let m = method_named(s, trait_id, method);
            let (s1, params) = substitute_named(s, m.params, seq![receiver], at);
            let (s2, ret) = substitute(s1, m.ret, seq![receiver], at);
            let id = s2.next_fn();
            let s3 = s2.with_fn(
                NewFn {
                    def: bodiless(
                        s2.trait_name(trait_id) + "."@ + method + " for "@ + s2.ty_name(receiver),
                        false,
                        params.len() as usize,
                        ret,
                        at,
                    ),
                    owner: s2.current,
                    bounds: seq![],
                    params,
                    modes: m.modes,
                    pins: all_pinned(params.len()),
                },
            );
            (s3.with_stub(Stub { trait_id, method, receiver, id }), id)
        },
    }
}

#[verifier::opaque]
pub open spec fn all_pinned(n: nat) -> Seq<bool> {
    Seq::new(n, |i: int| true)
}

/// A trait's member by name.
#[verifier::opaque]
pub open spec fn method_named(
    s: State,
    trait_id: TraitId,
    method: Seq<char>,
) -> model::TraitMethod {
    match s.method_place(trait_id, method) {
        Some(i) => s.trait_methods(trait_id)[i],
        None => model::TraitMethod {
            name: method,
            params: seq![],
            modes: seq![],
            ret: model::Ty::Error,
        },
    }
}

// ---------------------------------------------------------------- bounds

/// Whether a type satisfies a bound. A parameter satisfies it by declaring it; equality is closed
/// over the scalar types; anything else by an impl existing somewhere.
#[verifier::opaque]
pub open spec fn trait_satisfied(s: State, bound: TraitId, ty: model::Ty) -> bool {
    match ty {
        model::Ty::Error => true,
        model::Ty::Param { index, .. } => s.bounds_of(index).contains(bound),
        _ => if bound == TraitId(EQ) {
            ty is I64 || ty is F64 || ty is Bool || ty is Str || ty is Bytes
        } else {
            s.implements(bound, ty)
        },
    }
}

/// The report for an argument that misses a bound.
#[verifier::opaque]
pub open spec fn unsatisfied(
    s: State,
    at: Span,
    display: Seq<char>,
    param: Seq<char>,
    bound: TraitId,
    arg: model::Ty,
) -> Report {
    if bound == TraitId(EQ) {
        reports::eq_unsatisfied(at, display, param, s.trait_name(bound), s.ty_name(arg))
    } else {
        reports::bound_unsatisfied(at, display, param, s.trait_name(bound), s.ty_name(arg))
    }
}

/// Every bound one argument has to meet.
pub open spec fn check_bounds_of(
    s: State,
    bounds: Seq<TraitId>,
    display: Seq<char>,
    param: Seq<char>,
    arg: model::Ty,
    at: Span,
) -> State
    decreases bounds.len(),
{
    if bounds.len() == 0 {
        s
    } else {
        let s1 = check_bounds_of(s, bounds.drop_last(), display, param, arg, at);
        if trait_satisfied(s1, bounds.last(), arg) {
            s1
        } else {
            s1.push(unsatisfied(s1, at, display, param, bounds.last(), arg))
        }
    }
}

/// Every bound of a template, asked of the arguments it is given.
pub open spec fn check_bounds(
    s: State,
    bounds: Seq<Seq<TraitId>>,
    display: Seq<char>,
    params: Seq<Seq<char>>,
    args: Seq<model::Ty>,
    at: Span,
) -> State
    decreases args.len(),
{
    if args.len() == 0 {
        s
    } else {
        let s1 = check_bounds(s, bounds, display, params, args.drop_last(), at);
        let k = args.len() - 1;
        if k < bounds.len() {
            check_bounds_of(s1, bounds[k], display, name_at(params, k), args[k], at)
        } else {
            s1
        }
    }
}

#[verifier::opaque]
pub open spec fn name_at(names: Seq<Seq<char>>, i: int) -> Seq<char> {
    if 0 <= i < names.len() {
        names[i]
    } else {
        "_"@
    }
}

#[verifier::opaque]
pub open spec fn check_type_param_bounds(
    s: State,
    template: FnId,
    args: Seq<model::Ty>,
    at: Span,
) -> State {
    check_bounds(
        s,
        s.fn_param_bounds(template),
        s.fn_display(template),
        s.fn_type_params(template),
        args,
        at,
    )
}

// ---------------------------------------------------------------- the end of inference

/// Every parameter settled, or the construction refused with the first that is not.
#[verifier::opaque]
pub open spec fn settle_bindings(
    s: State,
    b: Seq<Option<model::Ty>>,
    params: Seq<Seq<char>>,
    display: Seq<char>,
    span: Span,
) -> (State, Option<Seq<model::Ty>>) {
    match place_of(b, None) {
        Some(i) => (
            s.push(
                reports::construction_uninferable(
                    span,
                    name_at(params, i),
                    display,
                    samples(params.len()),
                ),
            ),
            None,
        ),
        None => (s, Some(settled(b))),
    }
}

#[verifier::opaque]
pub open spec fn samples(n: nat) -> Seq<char> {
    joined(Seq::new(n, |i: int| "I64"@), ", "@)
}

#[verifier::opaque]
pub open spec fn nothing_bound(n: nat) -> Seq<Option<model::Ty>> {
    Seq::new(n, |i: int| None)
}

#[verifier::opaque]
pub open spec fn all_bound(args: Seq<model::Ty>) -> Seq<Option<model::Ty>> {
    Seq::new(args.len(), |i: int| Some(args[i]))
}

#[verifier::opaque]
pub open spec fn all_errors(n: nat) -> Seq<Option<model::Ty>> {
    Seq::new(n, |i: int| Some(model::Ty::Error))
}

/// What the expectation says about a template's arguments: all of them when it names an instance
/// of the template, nothing when there is no expectation, a mismatch otherwise.
#[verifier::opaque]
pub open spec fn expectation_bindings(
    s: State,
    template: model::Ty,
    display: Seq<char>,
    count: nat,
    expected: Option<model::Ty>,
    span: Span,
) -> (State, Option<Seq<Option<model::Ty>>>) {
    match expected {
        None => (s, Some(nothing_bound(count))),
        Some(ty) => match expected_args(s, template, ty) {
            Some(args) => (s, Some(all_bound(args))),
            None => if ty is Error {
                (s, Some(all_errors(count)))
            } else if ty is Never {
                (s, Some(nothing_bound(count)))
            } else {
                (s.push(reports::mismatch(span, s.ty_name(ty), display)), None)
            },
        },
    }
}

/// The arguments a type gives a template, when it is an instance of that template.
#[verifier::opaque]
pub open spec fn expected_args(s: State, template: model::Ty, ty: model::Ty) -> Option<
    Seq<model::Ty>,
> {
    match s.base(ty) {
        Some((t, args)) => if t == template {
            Some(args)
        } else {
            None
        },
        None => None,
    }
}

/// One type for each parameter a template declares.
#[verifier::opaque]
pub open spec fn template_arity(
    s: State,
    name: Seq<char>,
    params: nat,
    found: nat,
    span: Span,
) -> (State, bool) {
    if params == found {
        (s, true)
    } else {
        (
            s.push(
                reports::template_arity(
                    span,
                    name,
                    decimal(params),
                    argument_word(params),
                    decimal(found),
                ),
            ),
            false,
        )
    }
}

#[verifier::opaque]
pub open spec fn argument_word(n: nat) -> Seq<char> {
    if n == 1 {
        "argument"@
    } else {
        "arguments"@
    }
}

#[verifier::opaque]
pub open spec fn any_error(list: Seq<model::Ty>) -> bool {
    list.contains(model::Ty::Error)
}

/// A struct named with its type arguments written out.
#[verifier::opaque]
pub open spec fn explicit_struct_instance(
    s: State,
    id: StructId,
    args: Seq<model::Ty>,
    span: Span,
) -> (State, Option<StructId>) {
    if s.struct_params(id).len() == 0 {
        (s.push(reports::no_type_args(span, s.struct_name(id))), None)
    } else {
        let (s1, fits) = template_arity(
            s,
            s.struct_name(id),
            s.struct_params(id).len(),
            args.len(),
            span,
        );
        if !fits || any_error(args) {
            (s1, None)
        } else {
            instantiate_struct(s1, id, args, span, 0)
        }
    }
}

/// An enum named with its type arguments written out.
#[verifier::opaque]
pub open spec fn explicit_enum_instance(
    s: State,
    id: EnumId,
    args: Seq<model::Ty>,
    span: Span,
) -> (State, Option<EnumId>) {
    if s.enum_params(id).len() == 0 {
        (s.push(reports::no_type_args(span, s.enum_name(id))), None)
    } else {
        let (s1, fits) = template_arity(
            s,
            s.enum_name(id),
            s.enum_params(id).len(),
            args.len(),
            span,
        );
        if !fits || any_error(args) {
            (s1, None)
        } else {
            instantiate_enum(s1, id, args, span, 0)
        }
    }
}

/// The note every operation a bare type parameter cannot do shares.
#[verifier::opaque]
pub open spec fn with_opaque_note(s: State, r: Report, ty: model::Ty) -> Report {
    match ty {
        model::Ty::Param { name, .. } => r.note(
            "`"@ + name + "` is opaque inside `"@ + s.fn_name
                + "`: without a bound it can only be moved, stored, matched by binding, or passed on"@,
        ),
        _ => r,
    }
}

// ---------------------------------------------------------------- carrying it out

/// A function and everything kept beside it.
pub struct FnParts {
    pub def: FnDef,
    pub owner: usize,
    pub bounds: Vec<Vec<TraitId>>,
    pub params: Vec<(String, Ty)>,
    pub modes: Vec<Mode>,
    pub pins: Vec<bool>,
}

impl FnParts {
    pub open spec fn view(&self) -> NewFn {
        NewFn {
            def: self.def@,
            owner: self.owner,
            bounds: bounds_list(self.bounds@),
            params: named_tys(self.params@),
            modes: self.modes@,
            pins: self.pins@,
        }
    }
}

pub fn bodiless_fn(name: String, is_task: bool, params: usize, ret: Ty, span: Span) -> (r: FnDef)
    ensures
        r@ == bodiless(name@, is_task, params, ret@, span),
{
    proof {
        reveal(bodiless);
    }
    let type_params: Vec<String> = Vec::new();
    let uses: Vec<Capability> = Vec::new();
    let modes: Vec<Mode> = Vec::new();
    let locals: Vec<LocalDef> = Vec::new();
    assert(texts(type_params@) =~= seq![]);
    assert(locals_of(locals@) =~= seq![]);
    assert(uses@ =~= seq![]);
    assert(modes@ =~= seq![]);
    FnDef {
        name,
        type_params,
        is_task,
        uses,
        params,
        modes,
        locals,
        ret,
        body: error_expr(span),
        inert: false,
        span,
    }
}

fn pinned(n: usize) -> (r: Vec<bool>)
    ensures
        r@ == all_pinned(n as nat),
{
    proof {
        reveal(all_pinned);
    }
    let mut r: Vec<bool> = Vec::new();
    for i in 0..n
        invariant
            r.len() == i,
            forall|j: int| 0 <= j < i ==> r@[j],
    {
        r.push(true);
    }
    assert(r@ =~= all_pinned(n as nat));
    r
}

/// The types settled, `Error` where there is none.
pub fn settled_tys(b: &Vec<Option<Ty>>) -> (r: Vec<Ty>)
    ensures
        tys(r@) == settled(bindings(b@)),
{
    proof {
        reveal(settled);
    }
    let mut r: Vec<Ty> = Vec::new();
    for i in 0..b.len()
        invariant
            r.len() == i,
            forall|j: int| 0 <= j < i ==> #[trigger] r@[j]@ == settled(bindings(b@))[j],
    {
        let ghost before = r@;
        match &b[i] {
            Some(t) => r.push(t.copy()),
            None => r.push(Ty::Error),
        }
        assert(forall|j: int| 0 <= j < i ==> r@[j] == before[j]);
        proof {
            reveal(settled);
        }
        assert(r@[i as int]@ == settled(bindings(b@))[i as int]);
    }
    assert(tys(r@) =~= settled(bindings(b@)));
    r
}

/// The first parameter not settled.
pub fn first_open(b: &Vec<Option<Ty>>) -> (r: Option<usize>)
    ensures
        copies::as_place(r) == place_of(bindings(b@), None),
        r matches Some(i) ==> i < b.len(),
{
    for i in 0..b.len()
        invariant
            forall|j: int| 0 <= j < i ==> #[trigger] bindings(b@)[j] is Some,
    {
        if b[i].is_none() {
            assert(bindings(b@)[i as int] is None);
            proof {
                copies::place_is_unique(bindings(b@), None, i as int);
            }
            return Some(i);
        }
        assert(bindings(b@)[i as int] is Some);
    }
    proof {
        copies::place_is_first(bindings(b@), None);
    }
    None
}

pub fn nothing(n: usize) -> (r: Vec<Option<Ty>>)
    ensures
        bindings(r@) == nothing_bound(n as nat),
{
    proof {
        reveal(nothing_bound);
    }
    let mut r: Vec<Option<Ty>> = Vec::new();
    for i in 0..n
        invariant
            r.len() == i,
            forall|j: int| 0 <= j < i ==> #[trigger] r@[j] is None,
    {
        r.push(None);
    }
    assert(bindings(r@) =~= nothing_bound(n as nat));
    r
}

pub fn everything(args: Vec<Ty>) -> (r: Vec<Option<Ty>>)
    ensures
        bindings(r@) == all_bound(tys(args@)),
{
    proof {
        reveal(all_bound);
    }
    let mut r: Vec<Option<Ty>> = Vec::new();
    for i in 0..args.len()
        invariant
            r.len() == i,
            forall|j: int| 0 <= j < i ==> #[trigger] bindings(r@)[j] == Some(args@[j]@),
    {
        let ghost before = r@;
        r.push(Some(args[i].copy()));
        assert forall|j: int| 0 <= j < i + 1 implies #[trigger] bindings(r@)[j] == Some(
            args@[j]@,
        ) by {
            if j < i {
                assert(bindings(before)[j] == Some(args@[j]@));
                assert(r@[j] == before[j]);
            }
        }
    }
    assert(bindings(r@) =~= all_bound(tys(args@)));
    r
}

fn errors_bound(n: usize) -> (r: Vec<Option<Ty>>)
    ensures
        bindings(r@) == all_errors(n as nat),
{
    proof {
        reveal(all_errors);
    }
    let mut r: Vec<Option<Ty>> = Vec::new();
    for i in 0..n
        invariant
            r.len() == i,
            forall|j: int| 0 <= j < i ==> #[trigger] r@[j] == Some(Ty::Error),
    {
        r.push(Some(Ty::Error));
    }
    assert(bindings(r@) =~= all_errors(n as nat));
    r
}

/// Whether a list of types holds `Error`.
pub fn holds_error(list: &Vec<Ty>) -> (r: bool)
    ensures
        r == any_error(tys(list@)),
{
    proof {
        reveal(any_error);
    }
    for i in 0..list.len()
        invariant
            forall|j: int| 0 <= j < i ==> #[trigger] tys(list@)[j] != model::Ty::Error,
    {
        let is_error = match &list[i] {
            Ty::Error => true,
            _ => false,
        };
        assert(tys(list@)[i as int] == list@[i as int]@);
        if is_error {
            proof {
                reveal(any_error);
            }
            return true;
        }
    }
    false
}

pub fn string_at(names: &Vec<String>, i: usize) -> (r: String)
    ensures
        r@ == name_at(texts(names@), i as int),
{
    proof {
        reveal(name_at);
    }
    if i < names.len() {
        names[i].clone()
    } else {
        "_".to_owned()
    }
}

pub fn arguments_word(n: usize) -> (r: &'static str)
    ensures
        r@ == argument_word(n as nat),
{
    proof {
        reveal(argument_word);
    }
    if n == 1 {
        "argument"
    } else {
        "arguments"
    }
}

fn sample_text(n: usize) -> (r: String)
    ensures
        r@ == samples(n as nat),
{
    proof {
        reveal(samples);
    }
    let mut names: Vec<String> = Vec::new();
    for i in 0..n
        invariant
            names.len() == i,
            forall|j: int| 0 <= j < i ==> #[trigger] names@[j]@ == "I64"@,
    {
        names.push("I64".to_owned());
    }
    assert(texts(names@) =~= Seq::new(n as nat, |i: int| "I64"@));
    join(&names, ", ")
}

pub open spec fn fn_base_of(r: Option<(FnId, Vec<Ty>)>) -> Option<(FnId, Seq<model::Ty>)> {
    match r {
        Some((id, args)) => Some((id, tys(args@))),
        None => None,
    }
}

impl Checker {
    pub fn next_fn(&self) -> (r: FnId)
        ensures
            r == self@.next_fn(),
    {
        proof {
            reveal(Checker::view);
            reveal(State::next_fn);
        }
        FnId(
            #[verifier::truncate]
            (self.program.fns.len() as u32),
        )
    }

    pub fn add_fn(&mut self, f: FnParts)
        ensures
            final(self)@ == old(self)@.with_fn(f@),
    {
        proof {
            reveal(Checker::view);
            reveal(State::with_fn);
        }
        let ret = f.def.ret.copy();
        self.fn_owner.push(f.owner);
        self.fn_bounds.push(f.bounds);
        assert(fn_bounds_of(self.fn_bounds@) =~= fn_bounds_of(old(self).fn_bounds@).push(
            bounds_list(f.bounds@),
        ));
        self.signatures.push((f.params, ret));
        assert(signatures_of(self.signatures@) =~= signatures_of(old(self).signatures@).push(
            (named_tys(f.params@), ret@),
        ));
        self.param_modes.push(f.modes);
        assert(modes_of(self.param_modes@) =~= modes_of(old(self).param_modes@).push(f.modes@));
        self.mode_pinned.push(f.pins);
        assert(pins_of(self.mode_pinned@) =~= pins_of(old(self).mode_pinned@).push(f.pins@));
        let ghost def_view = f.def@;
        self.program.fns.push(f.def);
        assert(fns_of(self.program.fns@) =~= fns_of(old(self).program.fns@).push(def_view));
    }

    fn add_fn_instance(&mut self, i: FnMade)
        ensures
            final(self)@ == old(self)@.with_fn_instance(i@),
    {
        proof {
            reveal(Checker::view);
            reveal(State::with_fn_instance);
        }
        if !i.symbolic {
            self.worklist.push(i.id);
        }
        let ghost view = i@;
        self.fn_instances.push(i);
        assert(fns_made(self.fn_instances@) =~= fns_made(old(self).fn_instances@).push(view));
    }

    fn add_stub(&mut self, stub: StubMade)
        ensures
            final(self)@ == old(self)@.with_stub(stub@),
    {
        proof {
            reveal(Checker::view);
            reveal(State::with_stub);
        }
        let ghost view = stub@;
        self.stubs.push(stub);
        assert(stubs_made(self.stubs@) =~= stubs_made(old(self).stubs@).push(view));
    }

    fn fns_full(&self) -> (r: bool)
        ensures
            r == self@.fns_full(),
    {
        proof {
            reveal(Checker::view);
            reveal(State::fns_full);
        }
        self.fn_instances.len() >= INSTANCE_CEILING
    }

    pub fn fn_instance(&self, id: FnId) -> (r: Option<(FnId, Vec<Ty>, usize, Span, usize)>)
        ensures
            match self@.fn_instance(id) {
                Some(i) => r matches Some(got) && got.0 == i.template && tys(got.1@) == i.args
                    && got.2 == i.module && got.3 == i.at && got.4 == i.depth,
                None => r is None,
            },
    {
        proof {
            reveal(Checker::view);
            reveal(State::fn_instance);
            copies::place_is_first(fn_ids(self@.fn_instances), id);
        }
        for k in 0..self.fn_instances.len()
            invariant
                self@.fn_instances == fns_made(self.fn_instances@),
                forall|j: int| 0 <= j < k ==> #[trigger] fn_ids(self@.fn_instances)[j] != id,
        {
            assert(fn_ids(self@.fn_instances)[k as int] == self.fn_instances@[k as int].id);
            if self.fn_instances[k].id == id {
                proof {
                    reveal(State::fn_instance);
                    copies::place_is_unique(fn_ids(self@.fn_instances), id, k as int);
                }
                let made = &self.fn_instances[k];
                return Some(
                    (made.template, copies::types(&made.args), made.module, made.at, made.depth),
                );
            }
        }
        assert(fn_ids(self@.fn_instances).len() == self.fn_instances@.len());
        None
    }

    pub fn fn_base(&self, id: FnId) -> (r: Option<(FnId, Vec<Ty>)>)
        ensures
            fn_base_of(r) == self@.fn_base(id),
    {
        proof {
            reveal(State::fn_base);
        }
        match self.fn_instance(id) {
            Some((template, args, _, _, _)) => Some((template, args)),
            None => {
                let params = self.fn_type_params(id);
                assert(texts(params@).len() == params@.len());
                if params.len() == 0 {
                    None
                } else {
                    Some((id, identity(&params)))
                }
            },
        }
    }

    fn fn_made(&self, template: FnId, args: &Vec<Ty>) -> (r: Option<FnId>)
        ensures
            r == self@.fn_made(template, tys(args@)),
    {
        let ghost key = (template, tys(args@));
        proof {
            reveal(Checker::view);
            reveal(State::fn_made);
            copies::place_is_first(fn_keys(self@.fn_instances), key);
        }
        for k in 0..self.fn_instances.len()
            invariant
                key == (template, tys(args@)),
                self@.fn_instances == fns_made(self.fn_instances@),
                forall|j: int| 0 <= j < k ==> #[trigger] fn_keys(self@.fn_instances)[j] != key,
        {
            let made = &self.fn_instances[k];
            assert(fn_keys(self@.fn_instances)[k as int] == (made.template, tys(made.args@)));
            if made.template == template && same_tys(&made.args, args) {
                proof {
                    reveal(State::fn_made);
                    copies::place_is_unique(fn_keys(self@.fn_instances), key, k as int);
                }
                return Some(made.id);
            }
        }
        assert(fn_keys(self@.fn_instances).len() == self.fn_instances@.len());
        None
    }

    fn stub_made(&self, trait_id: TraitId, method: &str, receiver: &Ty) -> (r: Option<FnId>)
        ensures
            r == self@.stub_made(trait_id, method@, receiver@),
    {
        let ghost key = (trait_id, method@, receiver@);
        proof {
            reveal(Checker::view);
            reveal(State::stub_made);
            copies::place_is_first(stub_keys(self@.stubs), key);
        }
        for k in 0..self.stubs.len()
            invariant
                key == (trait_id, method@, receiver@),
                self@.stubs == stubs_made(self.stubs@),
                forall|j: int| 0 <= j < k ==> #[trigger] stub_keys(self@.stubs)[j] != key,
        {
            let stub = &self.stubs[k];
            assert(stub_keys(self@.stubs)[k as int] == (
                stub.trait_id,
                stub.method@,
                stub.receiver@,
            ));
            if stub.trait_id == trait_id && same(stub.method.as_str(), method)
                && stub.receiver.equals(receiver) {
                proof {
                    reveal(State::stub_made);
                    copies::place_is_unique(stub_keys(self@.stubs), key, k as int);
                }
                return Some(stub.id);
            }
        }
        assert(stub_keys(self@.stubs).len() == self.stubs@.len());
        None
    }

    /// The stub a function id is, if it is one.
    pub fn stub(&self, id: FnId) -> (r: Option<(TraitId, String, Ty)>)
        ensures
            match self@.stub(id) {
                Some(i) => r matches Some(got) && got.0 == i.trait_id && got.1@ == i.method
                    && got.2@ == i.receiver,
                None => r is None,
            },
    {
        proof {
            reveal(Checker::view);
            reveal(State::stub);
            copies::place_is_first(stub_ids(self@.stubs), id);
        }
        for k in 0..self.stubs.len()
            invariant
                self@.stubs == stubs_made(self.stubs@),
                forall|j: int| 0 <= j < k ==> #[trigger] stub_ids(self@.stubs)[j] != id,
        {
            assert(stub_ids(self@.stubs)[k as int] == self.stubs@[k as int].id);
            if self.stubs[k].id == id {
                proof {
                    reveal(State::stub);
                    copies::place_is_unique(stub_ids(self@.stubs), id, k as int);
                }
                let stub = &self.stubs[k];
                return Some((stub.trait_id, stub.method.clone(), stub.receiver.copy()));
            }
        }
        assert(stub_ids(self@.stubs).len() == self.stubs@.len());
        None
    }

    fn implements(&self, trait_id: TraitId, ty: &Ty) -> (r: bool)
        ensures
            r == self@.implements(trait_id, ty@),
    {
        proof {
            reveal(Checker::view);
            reveal(State::implements);
        }
        for k in 0..self.impls.len()
            invariant
                self@.impls == impls_of(self.impls@),
                forall|j: int| #[trigger]
                    impl_at(self@.impls, j) && j < k ==> !(self@.impls[j].trait_id == trait_id
                        && self@.impls[j].receiver == ty@),
        {
            assert(impl_at(self@.impls, k as int));
            if self.impls[k].trait_id == trait_id && self.impls[k].receiver.equals(ty) {
                proof {
                    reveal(State::implements);
                }
                return true;
            }
        }
        false
    }

    /// The function an impl provides for a method of a type.
    pub fn find_impl_method(&self, trait_id: TraitId, method: &str, receiver: &Ty) -> (r: Option<
        FnId,
    >)
        ensures
            r == self@.impl_method(trait_id, method@, receiver@),
    {
        proof {
            reveal(Checker::view);
            reveal(State::impl_method);
        }
        let ghost all = impls_of(self.impls@);
        assert(all.take(0) =~= seq![]);
        let mut found: Option<FnId> = None;
        for k in 0..self.impls.len()
            invariant
                all == impls_of(self.impls@),
                found == first_impl_method(all.take(k as int), trait_id, method@, receiver@),
        {
            assert(all.take(k + 1).drop_last() =~= all.take(k as int));
            assert(all.take(k + 1).last() == self.impls@[k as int]@);
            if found.is_none() && self.impls[k].trait_id == trait_id
                && self.impls[k].receiver.equals(receiver) {
                found = provided_under(&self.impls[k].methods, method);
            }
        }
        assert(all.take(self.impls.len() as int) =~= all);
        found
    }

    // ------------------------------------------------------------ substitution

    pub fn substitute(&mut self, ty: &Ty, args: &Vec<Ty>, at: Span) -> (r: Ty)
        ensures
            final(self)@ == substitute(old(self)@, ty@, tys(args@), at).0,
            r@ == substitute(old(self)@, ty@, tys(args@), at).1,
    {
        proof {
            reveal(substitute);
        }
        let bound: usize = self.made();
        self.subst(ty, args, at, 0, bound)
    }

    pub fn substitute_all(&mut self, list: &Vec<Ty>, args: &Vec<Ty>, at: Span) -> (r: Vec<Ty>)
        ensures
            final(self)@ == substitute_all(old(self)@, tys(list@), tys(args@), at).0,
            tys(r@) == substitute_all(old(self)@, tys(list@), tys(args@), at).1,
    {
        let mut r: Vec<Ty> = Vec::new();
        let ghost all = tys(list@);
        let ghost start = self@;
        assert(all.take(0) =~= seq![]);
        assert(tys(r@) =~= seq![]);
        for i in 0..list.len()
            invariant
                all == tys(list@),
                self@ == substitute_all(start, all.take(i as int), tys(args@), at).0,
                tys(r@) == substitute_all(start, all.take(i as int), tys(args@), at).1,
        {
            let ghost before = tys(r@);
            let t = self.substitute(&list[i], args, at);
            r.push(t);
            assert(all.take(i + 1).drop_last() =~= all.take(i as int));
            assert(tys(r@) =~= before.push(t@));
        }
        assert(all.take(list.len() as int) =~= all);
        r
    }

    pub fn substitute_named(
        &mut self,
        list: &Vec<(String, Ty)>,
        args: &Vec<Ty>,
        at: Span,
    ) -> (r: Vec<(String, Ty)>)
        ensures
            final(self)@ == substitute_named(old(self)@, named_tys(list@), tys(args@), at).0,
            named_tys(r@) == substitute_named(old(self)@, named_tys(list@), tys(args@), at).1,
    {
        let mut r: Vec<(String, Ty)> = Vec::new();
        let ghost all = named_tys(list@);
        let ghost start = self@;
        assert(all.take(0) =~= seq![]);
        assert(named_tys(r@) =~= seq![]);
        for i in 0..list.len()
            invariant
                all == named_tys(list@),
                self@ == substitute_named(start, all.take(i as int), tys(args@), at).0,
                named_tys(r@) == substitute_named(start, all.take(i as int), tys(args@), at).1,
        {
            let ghost before = named_tys(r@);
            let t = self.substitute(&list[i].1, args, at);
            let ghost pair = (list@[i as int].0@, t@);
            r.push((list[i].0.clone(), t));
            assert(all.take(i + 1).drop_last() =~= all.take(i as int));
            assert(named_tys(r@) =~= before.push(pair));
        }
        assert(all.take(list.len() as int) =~= all);
        r
    }

    pub fn substitute_bindings(&mut self, ty: &Ty, b: &Vec<Option<Ty>>, at: Span) -> (r: Ty)
        ensures
            final(self)@ == substitute_bindings(old(self)@, ty@, bindings(b@), at).0,
            r@ == substitute_bindings(old(self)@, ty@, bindings(b@), at).1,
    {
        proof {
            reveal(substitute_bindings);
        }
        let args = settled_tys(b);
        self.substitute(ty, &args, at)
    }

    // ------------------------------------------------------------ requests

    pub fn request_fn_instance(
        &mut self,
        template: FnId,
        args: Vec<Ty>,
        at: Span,
        depth: usize,
    ) -> (r: FnId)
        ensures
            final(self)@ == request_fn_instance(old(self)@, template, tys(args@), at, depth).0,
            r == request_fn_instance(old(self)@, template, tys(args@), at, depth).1,
    {
        proof {
            reveal(request_fn_instance);
        }
        let params = self.fn_type_params(template);
        if same_tys(&args, &identity(&params)) {
            return template;
        }
        if let Some(found) = self.fn_made(template, &args) {
            return found;
        }
        if depth > INSTANCE_DEPTH {
            let display = self.fn_display(template);
            self.push(say::ever_deeper(at, display.as_str()));
            return template;
        }
        if self.fns_full() {
            self.over_the_ceiling(say::too_many_fns(at));
            return template;
        }
        self.new_fn_instance(template, args, at, depth)
    }

    fn new_fn_instance(
        &mut self,
        template: FnId,
        args: Vec<Ty>,
        at: Span,
        depth: usize,
    ) -> (r: FnId)
        ensures
            final(self)@ == new_fn_instance(old(self)@, template, tys(args@), at, depth).0,
            r == new_fn_instance(old(self)@, template, tys(args@), at, depth).1,
    {
        proof {
            reveal(new_fn_instance);
        }
        let (wanted, wanted_ret) = self.signature(template);
        let params = self.substitute_named(&wanted, &args, at);
        let ret = self.substitute(&wanted_ret, &args, at);
        let display = self.fn_display(template);
        let name = self.instance_name(display.as_str(), &args);
        let id = self.next_fn();
        assert(named_tys(params@).len() == params@.len());
        let def = bodiless_fn(
            name,
            self.fn_is_task(template),
            params.len(),
            ret,
            self.fn_at_span(template),
        );
        let bounds: Vec<Vec<TraitId>> = Vec::new();
        assert(bounds_list(bounds@) =~= seq![]);
        let parts = FnParts {
            def,
            owner: self.fn_module(template),
            bounds,
            params,
            modes: self.fn_modes(template),
            pins: self.fn_pins(template),
        };
        self.add_fn(parts);
        let made: usize = self.made();
        let symbolic = self.any_param(&args, made);
        let module: usize = self.current();
        self.add_fn_instance(FnMade { template, args, id, module, at, symbolic, depth });
        id
    }

    pub fn request_trait_call(
        &mut self,
        trait_id: TraitId,
        method: &str,
        receiver: Ty,
        at: Span,
    ) -> (r: FnId)
        ensures
            final(self)@ == request_trait_call(
                old(self)@,
                trait_id,
                method@,
                receiver@,
                at,
            ).0,
            r == request_trait_call(old(self)@, trait_id, method@, receiver@, at).1,
    {
        proof {
            reveal(request_trait_call);
        }
        if let Some(found) = self.stub_made(trait_id, method, &receiver) {
            return found;
        }
        let (wanted, modes, wanted_ret) = self.method_named(trait_id, method);
        let mut args: Vec<Ty> = Vec::new();
        args.push(receiver.copy());
        assert(tys(args@) =~= seq![receiver@]);
        let params = self.substitute_named(&wanted, &args, at);
        let ret = self.substitute(&wanted_ret, &args, at);
        let trait_name = self.trait_name(trait_id);
        let ty = self.ty_name(&receiver);
        let name = trait_name.concat(".").concat(method).concat(" for ").concat(ty.as_str());
        let id = self.next_fn();
        assert(named_tys(params@).len() == params@.len());
        let pins = pinned(params.len());
        let def = bodiless_fn(name, false, params.len(), ret, at);
        let bounds: Vec<Vec<TraitId>> = Vec::new();
        assert(bounds_list(bounds@) =~= seq![]);
        let owner: usize = self.current();
        self.add_fn(FnParts { def, owner, bounds, params, modes, pins });
        self.add_stub(StubMade { trait_id, method: method.to_owned(), receiver, id });
        id
    }

    /// A trait's member by name, in parts.
    pub fn method_named(&self, trait_id: TraitId, method: &str) -> (r: (
        Vec<(String, Ty)>,
        Vec<Mode>,
        Ty,
    ))
        ensures
            named_tys(r.0@) == method_named(self@, trait_id, method@).params,
            r.1@ == method_named(self@, trait_id, method@).modes,
            r.2@ == method_named(self@, trait_id, method@).ret,
    {
        proof {
            reveal(method_named);
        }
        match self.method_place(trait_id, method) {
            Some(i) => {
                let methods = self.trait_methods(trait_id);
                assert(crate::hir::methods_of(methods@).len() == methods@.len());
                assert(crate::hir::methods_of(methods@)[i as int] == methods@[i as int]@);
                let m = &methods[i];
                (copies::named(&m.params), copies::plain(&m.modes), m.ret.copy())
            },
            None => {
                let params: Vec<(String, Ty)> = Vec::new();
                assert(named_tys(params@) =~= seq![]);
                (params, Vec::new(), Ty::Error)
            },
        }
    }

    // ------------------------------------------------------------ bounds

    pub fn trait_satisfied(&self, bound: TraitId, ty: &Ty) -> (r: bool)
        ensures
            r == trait_satisfied(self@, bound, ty@),
    {
        proof {
            reveal(trait_satisfied);
        }
        match ty {
            Ty::Error => true,
            Ty::Param { index, .. } => {
                let declared = self.bounds_of(*index);
                holds_trait(&declared, bound)
            },
            _ => {
                if bound == TraitId(EQ) {
                    match ty {
                        Ty::I64 | Ty::F64 | Ty::Bool | Ty::Str | Ty::Bytes => true,
                        _ => false,
                    }
                } else {
                    self.implements(bound, ty)
                }
            },
        }
    }

    fn check_bounds_of(
        &mut self,
        bounds: &Vec<TraitId>,
        display: &str,
        param: &str,
        arg: &Ty,
        at: Span,
    )
        ensures
            final(self)@ == check_bounds_of(old(self)@, bounds@, display@, param@, arg@, at),
    {
        let ghost start = self@;
        assert(bounds@.take(0) =~= seq![]);
        for i in 0..bounds.len()
            invariant
                self@ == check_bounds_of(
                    start,
                    bounds@.take(i as int),
                    display@,
                    param@,
                    arg@,
                    at,
                ),
        {
            assert(bounds@.take(i + 1).drop_last() =~= bounds@.take(i as int));
            let bound = bounds[i];
            if !self.trait_satisfied(bound, arg) {
                let trait_name = self.trait_name(bound);
                let ty = self.ty_name(arg);
                proof {
                    reveal(unsatisfied);
                }
                let d = if bound == TraitId(EQ) {
                    say::eq_unsatisfied(at, display, param, trait_name.as_str(), ty.as_str())
                } else {
                    say::bound_unsatisfied(at, display, param, trait_name.as_str(), ty.as_str())
                };
                self.push(d);
            }
        }
        assert(bounds@.take(bounds.len() as int) =~= bounds@);
    }

    /// What is asked of the arguments before an instance is made.
    pub fn check_type_param_bounds(&mut self, template: FnId, args: &Vec<Ty>, at: Span)
        ensures
            final(self)@ == check_type_param_bounds(old(self)@, template, tys(args@), at),
    {
        proof {
            reveal(check_type_param_bounds);
        }
        let bounds = self.fn_param_bounds(template);
        let display = self.fn_display(template);
        let params = self.fn_type_params(template);
        let ghost start = self@;
        let ghost all = tys(args@);
        assert(all.take(0) =~= seq![]);
        for i in 0..args.len()
            invariant
                all == tys(args@),
                self@ == check_bounds(
                    start,
                    bounds_list(bounds@),
                    display@,
                    texts(params@),
                    all.take(i as int),
                    at,
                ),
        {
            assert(all.take(i + 1).drop_last() =~= all.take(i as int));
            if i < bounds.len() {
                let param = string_at(&params, i);
                self.check_bounds_of(&bounds[i], display.as_str(), param.as_str(), &args[i], at);
            }
        }
        assert(all.take(args.len() as int) =~= all);
    }

    // ------------------------------------------------------------ the end of inference

    pub fn settle_bindings(
        &mut self,
        b: &Vec<Option<Ty>>,
        params: &Vec<String>,
        display: &str,
        span: Span,
    ) -> (r: Option<Vec<Ty>>)
        ensures
            final(self)@ == settle_bindings(
                old(self)@,
                bindings(b@),
                texts(params@),
                display@,
                span,
            ).0,
            maybe_tys(r) == settle_bindings(
                old(self)@,
                bindings(b@),
                texts(params@),
                display@,
                span,
            ).1,
    {
        proof {
            reveal(settle_bindings);
        }
        match first_open(b) {
            Some(i) => {
                let param = string_at(params, i);
                assert(texts(params@).len() == params@.len());
                let example = sample_text(params.len());
                self.push(
                    say::construction_uninferable(
                        span,
                        param.as_str(),
                        display,
                        example.as_str(),
                    ),
                );
                None
            },
            None => Some(settled_tys(b)),
        }
    }

    pub fn expectation_bindings(
        &mut self,
        template: &Ty,
        display: &str,
        count: usize,
        expected: &Option<Ty>,
        span: Span,
    ) -> (r: Option<Vec<Option<Ty>>>)
        ensures
            final(self)@ == expectation_bindings(
                old(self)@,
                template@,
                display@,
                count as nat,
                maybe(*expected),
                span,
            ).0,
            maybe_bindings(r) == expectation_bindings(
                old(self)@,
                template@,
                display@,
                count as nat,
                maybe(*expected),
                span,
            ).1,
    {
        proof {
            reveal(expectation_bindings);
            reveal(expected_args);
        }
        let ty = match expected {
            None => {
                return Some(nothing(count));
            },
            Some(ty) => ty,
        };
        if let Some((t, args)) = self.base(ty) {
            if t.equals(template) {
                return Some(everything(args));
            }
        }
        match ty {
            Ty::Error => Some(errors_bound(count)),
            Ty::Never => Some(nothing(count)),
            _ => {
                let name = self.ty_name(ty);
                self.push(say::mismatch(span, name.as_str(), display));
                None
            },
        }
    }

    pub fn template_arity(&mut self, name: &str, params: usize, found: usize, span: Span) -> (r:
        bool)
        ensures
            final(self)@ == template_arity(
                old(self)@,
                name@,
                params as nat,
                found as nat,
                span,
            ).0,
            r == template_arity(old(self)@, name@, params as nat, found as nat, span).1,
    {
        proof {
            reveal(template_arity);
        }
        if params == found {
            true
        } else {
            let want = number(params);
            let got = number(found);
            self.push(
                say::template_arity(
                    span,
                    name,
                    want.as_str(),
                    arguments_word(params),
                    got.as_str(),
                ),
            );
            false
        }
    }

    pub fn explicit_struct_instance(&mut self, id: StructId, args: Vec<Ty>, span: Span) -> (r:
        Option<StructId>)
        ensures
            final(self)@ == explicit_struct_instance(old(self)@, id, tys(args@), span).0,
            r == explicit_struct_instance(old(self)@, id, tys(args@), span).1,
    {
        proof {
            reveal(explicit_struct_instance);
        }
        let display = self.struct_name(id);
        let params = self.struct_params(id);
        assert(texts(params@).len() == params@.len());
        assert(tys(args@).len() == args@.len());
        if params.len() == 0 {
            self.push(say::no_type_args(span, display.as_str()));
            return None;
        }
        if !self.template_arity(display.as_str(), params.len(), args.len(), span) {
            return None;
        }
        if holds_error(&args) {
            return None;
        }
        self.instantiate_struct(id, args, span, 0)
    }

    pub fn explicit_enum_instance(&mut self, id: EnumId, args: Vec<Ty>, span: Span) -> (r: Option<
        EnumId,
    >)
        ensures
            final(self)@ == explicit_enum_instance(old(self)@, id, tys(args@), span).0,
            r == explicit_enum_instance(old(self)@, id, tys(args@), span).1,
    {
        proof {
            reveal(explicit_enum_instance);
        }
        let display = self.enum_name(id);
        let params = self.enum_params(id);
        assert(texts(params@).len() == params@.len());
        assert(tys(args@).len() == args@.len());
        if params.len() == 0 {
            self.push(say::no_type_args(span, display.as_str()));
            return None;
        }
        if !self.template_arity(display.as_str(), params.len(), args.len(), span) {
            return None;
        }
        if holds_error(&args) {
            return None;
        }
        self.instantiate_enum(id, args, span, 0)
    }

    pub fn with_opaque_note(&self, d: Diagnostic, ty: &Ty) -> (r: Diagnostic)
        ensures
            r@ == with_opaque_note(self@, d@, ty@),
    {
        proof {
            reveal(with_opaque_note);
        }
        match ty {
            Ty::Param { name, .. } => {
                let fn_name = self.fn_name();
                let note = "`".to_owned().concat(name.as_str()).concat("` is opaque inside `").concat(
                    fn_name.as_str(),
                ).concat(
                    "`: without a bound it can only be moved, stored, matched by binding, or passed on",
                );
                d.note(note.as_str())
            },
            _ => d,
        }
    }
}

pub open spec fn maybe_tys(r: Option<Vec<Ty>>) -> Option<Seq<model::Ty>> {
    match r {
        Some(v) => Some(tys(v@)),
        None => None,
    }
}

pub open spec fn maybe_bindings(r: Option<Vec<Option<Ty>>>) -> Option<Seq<Option<model::Ty>>> {
    match r {
        Some(v) => Some(bindings(v@)),
        None => None,
    }
}

pub fn provided_under(methods: &Vec<(String, Option<FnId>)>, name: &str) -> (r: Option<FnId>)
    ensures
        r == provided_as(crate::hir::provided(methods@), name@),
{
    proof {
        reveal(provided_as);
    }
    let ghost names = provided_names(crate::hir::provided(methods@));
    for i in 0..methods.len()
        invariant
            names == provided_names(crate::hir::provided(methods@)),
            forall|j: int| 0 <= j < i ==> #[trigger] names[j] != name@,
    {
        assert(names[i as int] == methods@[i as int].0@);
        if same(methods[i].0.as_str(), name) {
            proof {
                reveal(provided_as);
                copies::place_is_unique(names, name@, i as int);
            }
            return methods[i].1;
        }
    }
    proof {
        copies::place_is_first(names, name@);
    }
    None
}

pub fn holds_trait(list: &Vec<TraitId>, id: TraitId) -> (r: bool)
    ensures
        r == list@.contains(id),
{
    for i in 0..list.len()
        invariant
            forall|j: int| 0 <= j < i ==> list@[j] != id,
    {
        if list[i] == id {
            return true;
        }
    }
    false
}

} // verus!
