//! Traits: their members, the impls of them, and whether an impl is what its trait asks for.
//!
//! A trait is a fact of checking alone: its methods are ordinary functions, entered in no
//! namespace, and every method call becomes a plain call.

use vstd::prelude::*;
use vstd::string::*;
use crate::ast;
use crate::binding::is_error;
use crate::checker::{bounds_list, Checker};
use crate::copies;
use crate::hir::{
    impls_of, methods_of, named_tys, provided, tys, FnId, ImplDef, Mode, TraitId, TraitMethod, Ty,
    EQ,
};
use crate::instances::{
    bodiless, bodiless_fn, method_named, substitute, substitute_all, FnParts, NewFn,
};
use crate::item::{resolve_params, return_ty, written_modes};
use crate::model;
use crate::reports;
use crate::resolve::{resolve_trait, resolve_ty};
use crate::say;
use crate::span::{texts, Report};
use crate::state::{method_names, State};
use crate::text::{join, joined};
use crate::types::same_ty;

verus! {

/// What `Self` means inside a trait declaration.
pub open spec fn self_param() -> model::Ty {
    model::Ty::Param { index: 0, name: "Self"@ }
}

fn self_ty_param() -> (r: Ty)
    ensures
        r@ == self_param(),
{
    Ty::Param { index: 0, name: "Self".to_owned() }
}

// ---------------------------------------------------------------- members

/// Why a trait member is refused before its signature is looked at.
#[verifier::opaque]
pub open spec fn member_refused(m: ast::TraitMember, done: Seq<model::TraitMethod>) -> Option<
    Report,
> {
    if method_names(done).contains(m.name.name@) {
        Some(reports::declared_twice(m.name.span, m.name.name@, "duplicate member"@))
    } else if m.is_task {
        Some(reports::task_member(m.name.span, "`task` on a trait member"@))
    } else if m.type_params@.len() > 0 {
        Some(
            reports::generic_member(
                m.name.span,
                m.name.name@,
                "a trait member is not generic"@,
                "the one type a member abstracts over is `Self`"@,
            ),
        )
    } else {
        None
    }
}

/// Whether a signature takes `Self` first.
pub open spec fn takes_self(params: Seq<(Seq<char>, model::Ty)>) -> bool {
    params.len() > 0 && params[0].1 == self_param()
}

#[verifier::opaque]
pub open spec fn define_member(s: State, m: ast::TraitMember, done: Seq<model::TraitMethod>) -> (
    State,
    Option<model::TraitMethod>,
) {
    match member_refused(m, done) {
        Some(r) => (s.push(r), None),
        None => {
            let (s1, params) = resolve_params(s.with_self_ty(Some(self_param())), m.params@);
            let (s2, ret) = return_ty(s1, m.ret);
            let s3 = s2.with_self_ty(None);
            if takes_self(params) {
                (
                    s3,
                    Some(
                        model::TraitMethod {
                            name: m.name.name@,
                            params,
                            modes: written_modes(m.params@),
                            ret,
                        },
                    ),
                )
            } else {
                (s3.push(reports::no_receiver(m.span, m.name.name@)), None)
            }
        },
    }
}

pub open spec fn define_members(s: State, members: Seq<ast::TraitMember>) -> (
    State,
    Seq<model::TraitMethod>,
)
    decreases members.len(),
{
    if members.len() == 0 {
        (s, seq![])
    } else {
        let (s1, done) = define_members(s, members.drop_last());
        let (s2, m) = define_member(s1, members.last(), done);
        (
            s2,
            match m {
                Some(m) => done.push(m),
                None => done,
            },
        )
    }
}

#[verifier::opaque]
pub open spec fn define_trait(s: State, decl: ast::TraitDecl) -> State {
    match s.trait_named(decl.name.name@) {
        None => s,
        Some(id) => {
            let s1 = if decl.type_params@.len() > 0 {
                s.push(reports::generic_trait(decl.name.span))
            } else {
                s
            };
            let (s2, methods) = define_members(s1, decl.members@);
            s2.with_methods(id, methods)
        },
    }
}

pub open spec fn define_traits_of(s: State, items: Seq<ast::Item>) -> State
    decreases items.len(),
{
    if items.len() == 0 {
        s
    } else {
        let s1 = define_traits_of(s, items.drop_last());
        match items.last() {
            ast::Item::Trait(decl) => define_trait(s1, decl),
            _ => s1,
        }
    }
}

#[verifier::opaque]
pub open spec fn define_traits(s: State, module: ast::Module) -> State {
    define_traits_of(s, module.items@)
}

// ---------------------------------------------------------------- impls

/// Which module a receiver belongs to: none for a built-in type. `None` when the type cannot
/// implement a trait at all.
#[verifier::opaque]
pub open spec fn receiver_home(s: State, ty: model::Ty) -> Option<Option<usize>> {
    match ty {
        model::Ty::I64 => Some(None),
        model::Ty::F64 => Some(None),
        model::Ty::Bool => Some(None),
        model::Ty::Str => Some(None),
        model::Ty::Bytes => Some(None),
        model::Ty::Struct(id) => Some(Some(s.struct_module(id))),
        model::Ty::Enum(id) => Some(Some(s.enum_module(id))),
        _ => None,
    }
}

/// Whether two impls would be for the same type.
pub open spec fn same_receiver(a: model::Ty, b: model::Ty) -> bool {
    a.fits(b) && b.fits(a)
}

/// The module of the impl a trait already has for a type.
pub open spec fn existing_impl(
    impls: Seq<model::ImplDef>,
    trait_id: TraitId,
    receiver: model::Ty,
) -> Option<usize>
    decreases impls.len(),
{
    if impls.len() == 0 {
        None
    } else {
        match existing_impl(impls.drop_last(), trait_id, receiver) {
            Some(m) => Some(m),
            None => if impls.last().trait_id == trait_id && same_receiver(
                impls.last().receiver,
                receiver,
            ) {
                Some(impls.last().module)
            } else {
                None
            },
        }
    }
}

pub open spec fn quoted(names: Seq<Seq<char>>) -> Seq<Seq<char>> {
    Seq::new(names.len(), |i: int| "`"@ + names[i] + "`"@)
}

/// A trait's members, quoted for a diagnostic.
#[verifier::opaque]
pub open spec fn method_roster(s: State, id: TraitId) -> Seq<char> {
    let names = method_names(s.trait_methods(id));
    if names.len() == 0 {
        "no methods"@
    } else {
        joined(quoted(names), ", "@)
    }
}

pub open spec fn written_names(list: Seq<(Seq<char>, Option<FnId>)>) -> Seq<Seq<char>> {
    Seq::new(list.len(), |i: int| list[i].0)
}

/// The members of a trait that were not written at all.
pub open spec fn unwritten(methods: Seq<Seq<char>>, written: Seq<Seq<char>>) -> Seq<Seq<char>>
    decreases methods.len(),
{
    if methods.len() == 0 {
        seq![]
    } else {
        let before = unwritten(methods.drop_last(), written);
        if written.contains(methods.last()) {
            before
        } else {
            before.push(methods.last())
        }
    }
}

/// The impl being declared.
pub struct Header {
    pub trait_id: TraitId,
    pub trait_name: Seq<char>,
    pub receiver: model::Ty,
    pub receiver_name: Seq<char>,
}

/// Why a function of an impl is refused before its signature is looked at.
#[verifier::opaque]
pub open spec fn impl_fn_refused(
    s: State,
    h: Header,
    decl: ast::FnDecl,
    done: Seq<(Seq<char>, Option<FnId>)>,
) -> Option<Report> {
    let name = decl.name.name@;
    if decl.is_task {
        Some(reports::task_member(decl.name.span, "`task` on an impl function"@))
    } else if decl.type_params@.len() > 0 {
        Some(
            reports::generic_member(
                decl.name.span,
                name,
                "an impl function is not generic"@,
                "its types are fixed by the trait and the receiver"@,
            ),
        )
    } else if written_names(done).contains(name) {
        Some(reports::declared_twice(decl.name.span, name, "duplicate function"@))
    } else if s.method_place(h.trait_id, name) is None {
        Some(
            reports::not_in_trait(
                decl.name.span,
                h.trait_name,
                name,
                method_roster(s, h.trait_id),
            ),
        )
    } else {
        None
    }
}

/// Whether a signature is the one asked for.
pub open spec fn conforms(
    params: Seq<(Seq<char>, model::Ty)>,
    ret: model::Ty,
    wanted: Seq<model::Ty>,
    wanted_ret: model::Ty,
) -> bool {
    &&& params.len() == wanted.len()
    &&& forall|i: int|
        0 <= i < params.len() ==> same_receiver((#[trigger] params[i]).1, wanted[i])
    &&& same_receiver(ret, wanted_ret)
}

/// A function of an impl: its signature, with `Self` meaning the receiver, is the trait's at that
/// receiver, and so are its modes.
#[verifier::opaque]
pub open spec fn declare_impl_fn(
    s: State,
    h: Header,
    decl: ast::FnDecl,
    done: Seq<(Seq<char>, Option<FnId>)>,
) -> (State, Option<FnId>) {
    let name = decl.name.name@;
    match impl_fn_refused(s, h, decl, done) {
        Some(r) => (s.push(r), None),
        None => {
            let (s1, params) = resolve_params(s.with_self_ty(Some(h.receiver)), decl.params@);
            let (s2, ret) = return_ty(s1, decl.ret);
            let s3 = s2.with_self_ty(None);
            let m = method_named(s3, h.trait_id, name);
            let (s4, wanted) = substitute_all(
                s3,
                copies::second_halves(m.params),
                seq![h.receiver],
                decl.span,
            );
            let (s5, wanted_ret) = substitute(s4, m.ret, seq![h.receiver], decl.span);
            if !conforms(params, ret, wanted, wanted_ret) {
                (
                    s5.push(
                        reports::signature_conflict(
                            decl.span,
                            name,
                            h.trait_name,
                            h.receiver_name,
                            joined(crate::generics::ty_names(s5.program, wanted), ", "@),
                            s5.ty_name(wanted_ret),
                        ),
                    ),
                    None,
                )
            } else if written_modes(decl.params@) != m.modes {
                (s5.push(reports::mode_conflict(decl.span, name, h.trait_name)), None)
            } else {
                (
                    s5.with_fn(
                        NewFn {
                            def: bodiless(
                                h.trait_name + "."@ + name + " for "@ + h.receiver_name,
                                false,
                                params.len() as usize,
                                ret,
                                decl.span,
                            ),
                            owner: s5.current,
                            bounds: seq![],
                            params,
                            modes: m.modes,
                            pins: crate::instances::all_pinned(params.len()),
                        },
                    ),
                    Some(s5.next_fn()),
                )
            }
        },
    }
}

pub open spec fn declare_impl_fns(s: State, h: Header, fns: Seq<ast::FnDecl>) -> (
    State,
    Seq<(Seq<char>, Option<FnId>)>,
)
    decreases fns.len(),
{
    if fns.len() == 0 {
        (s, seq![])
    } else {
        let (s1, done) = declare_impl_fns(s, h, fns.drop_last());
        let (s2, id) = declare_impl_fn(s1, h, fns.last(), done);
        (s2, done.push((fns.last().name.name@, id)))
    }
}

/// An impl lives in its trait's module or in its type's, and a trait is implemented for a type
/// once.
#[verifier::opaque]
pub open spec fn impl_refused(
    s: State,
    h: Header,
    decl: ast::ImplDecl,
    home: Option<usize>,
) -> Option<Report> {
    if s.current != s.trait_module(h.trait_id) && home != Some(s.current) {
        Some(
            if home is None || home == Some(usize::MAX) {
                reports::orphan_builtin(decl.span, h.trait_name, h.receiver_name)
            } else {
                reports::orphan(decl.span, h.trait_name, h.receiver_name)
            },
        )
    } else {
        match existing_impl(s.impls, h.trait_id, h.receiver) {
            Some(module) => Some(
                reports::second_impl(
                    decl.span,
                    h.trait_name,
                    h.receiver_name,
                    if module == s.current {
                        "earlier in this file"@
                    } else {
                        "in "@ + s.module_name(module)
                    },
                ),
            ),
            None => None,
        }
    }
}

/// What an impl's header names, unless it is refused.
#[verifier::opaque]
pub open spec fn impl_header(s: State, decl: ast::ImplDecl) -> (State, Option<Header>) {
    if decl.type_params@.len() > 0 {
        (s.push(reports::generic_impl(decl.span)), None)
    } else {
        let (s1, found) = resolve_trait(s, decl.trait_path);
        match found {
            None => (s1, None),
            Some(trait_id) => if trait_id == TraitId(EQ) {
                (s1.push(reports::eq_by_hand(decl.trait_path.span)), None)
            } else {
                let (s2, receiver) = resolve_ty(s1, decl.receiver);
                if receiver is Error {
                    (s2, None)
                } else {
                    let h = Header {
                        trait_id,
                        trait_name: s2.trait_name(trait_id),
                        receiver,
                        receiver_name: s2.ty_name(receiver),
                    };
                    match receiver_home(s2, receiver) {
                        None => (
                            s2.push(
                                reports::cannot_implement(decl.receiver.span, h.receiver_name),
                            ),
                            None,
                        ),
                        Some(home) => match impl_refused(s2, h, decl, home) {
                            Some(r) => (s2.push(r), None),
                            None => (s2, Some(h)),
                        },
                    }
                }
            },
        }
    }
}

/// An impl: its functions enter the program, and it is registered, complete or not.
#[verifier::opaque]
pub open spec fn declare_impl(s: State, decl: ast::ImplDecl, index: int) -> State {
    let (s1, header) = impl_header(s, decl);
    match header {
        None => s1,
        Some(h) => {
            let (s2, methods) = declare_impl_fns(s1, h, decl.fns@);
            let missing = unwritten(
                method_names(s2.trait_methods(h.trait_id)),
                written_names(methods),
            );
            let s3 = if missing.len() > 0 {
                s2.push(
                    reports::incomplete_impl(
                        decl.span,
                        h.trait_name,
                        h.receiver_name,
                        joined(quoted(missing), ", "@),
                    ),
                )
            } else {
                s2
            };
            s3.with_impl(
                model::ImplDef {
                    trait_id: h.trait_id,
                    receiver: h.receiver,
                    methods,
                    module: s3.current,
                    item: index as usize,
                },
            )
        },
    }
}

pub open spec fn declare_impls_of(s: State, items: Seq<ast::Item>) -> State
    decreases items.len(),
{
    if items.len() == 0 {
        s
    } else {
        let s1 = declare_impls_of(s, items.drop_last());
        match items.last() {
            ast::Item::Impl(decl) => declare_impl(s1, decl, items.len() - 1),
            _ => s1,
        }
    }
}

#[verifier::opaque]
pub open spec fn declare_impls(s: State, module: ast::Module) -> State {
    declare_impls_of(s, module.items@)
}

// ---------------------------------------------------------------- carrying it out

/// The executable side of [`Header`].
pub struct HeaderMade {
    pub trait_id: TraitId,
    pub trait_name: String,
    pub receiver: Ty,
    pub receiver_name: String,
}

impl HeaderMade {
    pub open spec fn view(&self) -> Header {
        Header {
            trait_id: self.trait_id,
            trait_name: self.trait_name@,
            receiver: self.receiver@,
            receiver_name: self.receiver_name@,
        }
    }
}

fn named_methods(methods: &Vec<TraitMethod>) -> (r: Vec<String>)
    ensures
        texts(r@) == method_names(methods_of(methods@)),
{
    let mut r: Vec<String> = Vec::new();
    for i in 0..methods.len()
        invariant
            r.len() == i,
            forall|j: int| 0 <= j < i ==> #[trigger] r@[j]@ == methods@[j].name@,
    {
        r.push(methods[i].name.clone());
    }
    assert(texts(r@) =~= method_names(methods_of(methods@)));
    r
}

fn named_written(list: &Vec<(String, Option<FnId>)>) -> (r: Vec<String>)
    ensures
        texts(r@) == written_names(provided(list@)),
{
    let mut r: Vec<String> = Vec::new();
    for i in 0..list.len()
        invariant
            r.len() == i,
            forall|j: int| 0 <= j < i ==> #[trigger] r@[j]@ == list@[j].0@,
    {
        r.push(list[i].0.clone());
    }
    assert(texts(r@) =~= written_names(provided(list@)));
    r
}

fn quote(names: &Vec<String>) -> (r: Vec<String>)
    ensures
        texts(r@) == quoted(texts(names@)),
{
    let mut r: Vec<String> = Vec::new();
    for i in 0..names.len()
        invariant
            r.len() == i,
            forall|j: int| 0 <= j < i ==> #[trigger] r@[j]@ == quoted(texts(names@))[j],
    {
        r.push("`".to_owned().concat(names[i].as_str()).concat("`"));
    }
    assert(texts(r@) =~= quoted(texts(names@)));
    r
}

fn list_unwritten(methods: &Vec<String>, written: &Vec<String>) -> (r: Vec<String>)
    ensures
        texts(r@) == unwritten(texts(methods@), texts(written@)),
{
    let mut r: Vec<String> = Vec::new();
    let ghost all = texts(methods@);
    assert(all.take(0) =~= seq![]);
    assert(texts(r@) =~= seq![]);
    for i in 0..methods.len()
        invariant
            all == texts(methods@),
            texts(r@) == unwritten(all.take(i as int), texts(written@)),
    {
        let ghost before = texts(r@);
        assert(all.take(i + 1).drop_last() =~= all.take(i as int));
        if !copies::holds(written, methods[i].as_str()) {
            r.push(methods[i].clone());
            assert(texts(r@) =~= before.push(methods@[i as int]@));
        }
    }
    assert(all.take(methods.len() as int) =~= all);
    r
}

fn same_modes(a: &Vec<Mode>, b: &Vec<Mode>) -> (r: bool)
    ensures
        r == (a@ == b@),
{
    if a.len() != b.len() {
        return false;
    }
    for i in 0..a.len()
        invariant
            a.len() == b.len(),
            forall|j: int| 0 <= j < i ==> a@[j] == b@[j],
    {
        if a[i] != b[i] {
            return false;
        }
    }
    assert(a@ =~= b@);
    true
}

fn signature_conforms(
    params: &Vec<(String, Ty)>,
    ret: &Ty,
    wanted: &Vec<Ty>,
    wanted_ret: &Ty,
) -> (r: bool)
    ensures
        r == conforms(named_tys(params@), ret@, tys(wanted@), wanted_ret@),
{
    assert(named_tys(params@).len() == params@.len());
    assert(tys(wanted@).len() == wanted@.len());
    if params.len() != wanted.len() {
        return false;
    }
    for i in 0..params.len()
        invariant
            params.len() == wanted.len(),
            named_tys(params@).len() == params@.len(),
            forall|j: int|
                0 <= j < i ==> same_receiver(
                    (#[trigger] named_tys(params@)[j]).1,
                    tys(wanted@)[j],
                ),
    {
        assert(named_tys(params@)[i as int].1 == params@[i as int].1@);
        if !same_ty(&params[i].1, &wanted[i]) {
            return false;
        }
    }
    same_ty(ret, wanted_ret)
}

fn all_true(n: usize) -> (r: Vec<bool>)
    ensures
        r@ == crate::instances::all_pinned(n as nat),
{
    proof {
        reveal(crate::instances::all_pinned);
    }
    let mut r: Vec<bool> = Vec::new();
    for i in 0..n
        invariant
            r.len() == i,
            forall|j: int| 0 <= j < i ==> r@[j],
    {
        r.push(true);
    }
    assert(r@ =~= crate::instances::all_pinned(n as nat));
    r
}

fn member_refused_as(m: &ast::TraitMember, done: &Vec<TraitMethod>) -> (r: Option<
    crate::span::Diagnostic,
>)
    ensures
        crate::item::maybe_report(r) == member_refused(*m, methods_of(done@)),
{
    proof {
        reveal(member_refused);
    }
    let names = named_methods(done);
    let name = m.name.name.as_str();
    if copies::holds(&names, name) {
        return Some(say::declared_twice(m.name.span, name, "duplicate member"));
    }
    if m.is_task {
        return Some(say::task_member(m.name.span, "`task` on a trait member"));
    }
    if m.type_params.len() > 0 {
        return Some(
            say::generic_member(
                m.name.span,
                name,
                "a trait member is not generic",
                "the one type a member abstracts over is `Self`",
            ),
        );
    }
    None
}

pub open spec fn maybe_method(m: Option<TraitMethod>) -> Option<model::TraitMethod> {
    match m {
        Some(m) => Some(m@),
        None => None,
    }
}

impl Checker {
    fn define_member(&mut self, m: &ast::TraitMember, done: &Vec<TraitMethod>) -> (r: Option<
        TraitMethod,
    >)
        ensures
            final(self)@ == define_member(old(self)@, *m, methods_of(done@)).0,
            maybe_method(r) == define_member(old(self)@, *m, methods_of(done@)).1,
    {
        proof {
            reveal(define_member);
        }
        if let Some(d) = member_refused_as(m, done) {
            self.push(d);
            return None;
        }
        self.set_self_ty(Some(self_ty_param()));
        let params = self.resolve_params(&m.params);
        let ret = self.return_ty(&m.ret);
        self.set_self_ty(None);
        assert(named_tys(params@).len() == params@.len());
        let first = params.len() > 0 && params[0].1.equals(&self_ty_param());
        assert(first == takes_self(named_tys(params@)));
        if first {
            let (modes, _) = crate::item::modes_and_pins(&m.params);
            return Some(TraitMethod { name: m.name.name.clone(), params, modes, ret });
        }
        self.push(say::no_receiver(m.span, m.name.name.as_str()));
        None
    }

    fn define_trait(&mut self, decl: &ast::TraitDecl)
        ensures
            final(self)@ == define_trait(old(self)@, *decl),
    {
        proof {
            reveal(define_trait);
        }
        let id = match self.trait_named(decl.name.name.as_str()) {
            None => {
                return ;
            },
            Some(id) => id,
        };
        if decl.type_params.len() > 0 {
            self.push(say::generic_trait(decl.name.span));
        }
        let mut methods: Vec<TraitMethod> = Vec::new();
        let ghost start = self@;
        let ghost all = decl.members@;
        assert(all.take(0) =~= seq![]);
        assert(methods_of(methods@) =~= seq![]);
        for i in 0..decl.members.len()
            invariant
                all == decl.members@,
                self@ == define_members(start, all.take(i as int)).0,
                methods_of(methods@) == define_members(start, all.take(i as int)).1,
        {
            let ghost before = methods_of(methods@);
            assert(all.take(i + 1).drop_last() =~= all.take(i as int));
            if let Some(m) = self.define_member(&decl.members[i], &methods) {
                let ghost view = m@;
                methods.push(m);
                assert(methods_of(methods@) =~= before.push(view));
            }
        }
        assert(all.take(decl.members.len() as int) =~= all);
        self.set_methods(id, methods);
    }

    pub fn define_traits(&mut self, module: &ast::Module)
        ensures
            final(self)@ == define_traits(old(self)@, *module),
    {
        proof {
            reveal(define_traits);
        }
        let ghost start = self@;
        let ghost all = module.items@;
        assert(all.take(0) =~= seq![]);
        for i in 0..module.items.len()
            invariant
                all == module.items@,
                self@ == define_traits_of(start, all.take(i as int)),
        {
            assert(all.take(i + 1).drop_last() =~= all.take(i as int));
            if let ast::Item::Trait(decl) = &module.items[i] {
                self.define_trait(decl);
            }
        }
        assert(all.take(module.items.len() as int) =~= all);
    }

    fn receiver_home(&self, ty: &Ty) -> (r: Option<Option<usize>>)
        ensures
            r == receiver_home(self@, ty@),
    {
        proof {
            reveal(receiver_home);
        }
        match ty {
            Ty::I64 => Some(None),
            Ty::F64 => Some(None),
            Ty::Bool => Some(None),
            Ty::Str => Some(None),
            Ty::Bytes => Some(None),
            Ty::Struct(id) => Some(Some(self.struct_module(*id))),
            Ty::Enum(id) => Some(Some(self.enum_module(*id))),
            _ => None,
        }
    }

    fn existing_impl(&self, trait_id: TraitId, receiver: &Ty) -> (r: Option<usize>)
        ensures
            r == existing_impl(self@.impls, trait_id, receiver@),
    {
        proof {
            reveal(Checker::view);
        }
        let ghost all = impls_of(self.impls@);
        let mut found: Option<usize> = None;
        assert(all.take(0) =~= seq![]);
        for k in 0..self.impls.len()
            invariant
                all == impls_of(self.impls@),
                found == existing_impl(all.take(k as int), trait_id, receiver@),
        {
            assert(all.take(k + 1).drop_last() =~= all.take(k as int));
            assert(all.take(k + 1).last() == self.impls@[k as int]@);
            if found.is_none() && self.impls[k].trait_id == trait_id && same_ty(
                &self.impls[k].receiver,
                receiver,
            ) {
                found = Some(self.impls[k].module);
            }
        }
        assert(all.take(self.impls.len() as int) =~= all);
        found
    }

    fn method_roster(&self, id: TraitId) -> (r: String)
        ensures
            r@ == method_roster(self@, id),
    {
        proof {
            reveal(method_roster);
        }
        let methods = self.trait_methods(id);
        let names = named_methods(&methods);
        assert(texts(names@).len() == names@.len());
        if names.len() == 0 {
            "no methods".to_owned()
        } else {
            let list = quote(&names);
            join(&list, ", ")
        }
    }

    fn impl_fn_refused(
        &self,
        h: &HeaderMade,
        decl: &ast::FnDecl,
        done: &Vec<(String, Option<FnId>)>,
    ) -> (r: Option<crate::span::Diagnostic>)
        ensures
            crate::item::maybe_report(r) == impl_fn_refused(self@, h@, *decl, provided(done@)),
    {
        proof {
            reveal(impl_fn_refused);
        }
        let name = decl.name.name.as_str();
        if decl.is_task {
            return Some(say::task_member(decl.name.span, "`task` on an impl function"));
        }
        if decl.type_params.len() > 0 {
            return Some(
                say::generic_member(
                    decl.name.span,
                    name,
                    "an impl function is not generic",
                    "its types are fixed by the trait and the receiver",
                ),
            );
        }
        let written = named_written(done);
        if copies::holds(&written, name) {
            return Some(say::declared_twice(decl.name.span, name, "duplicate function"));
        }
        if self.method_place(h.trait_id, name).is_none() {
            let roster = self.method_roster(h.trait_id);
            return Some(
                say::not_in_trait(
                    decl.name.span,
                    h.trait_name.as_str(),
                    name,
                    roster.as_str(),
                ),
            );
        }
        None
    }

    fn ty_list(&self, list: &Vec<Ty>) -> (r: String)
        ensures
            r@ == joined(crate::generics::ty_names(self@.program, tys(list@)), ", "@),
    {
        let mut names: Vec<String> = Vec::new();
        for i in 0..list.len()
            invariant
                names.len() == i,
                forall|j: int|
                    0 <= j < i ==> #[trigger] names@[j]@ == crate::generics::ty_names(
                        self@.program,
                        tys(list@),
                    )[j],
        {
            proof {
                reveal(State::ty_name);
            }
            names.push(self.ty_name(&list[i]));
        }
        assert(texts(names@) =~= crate::generics::ty_names(self@.program, tys(list@)));
        join(&names, ", ")
    }

    fn declare_impl_fn(
        &mut self,
        h: &HeaderMade,
        decl: &ast::FnDecl,
        done: &Vec<(String, Option<FnId>)>,
    ) -> (r: Option<FnId>)
        ensures
            final(self)@ == declare_impl_fn(old(self)@, h@, *decl, provided(done@)).0,
            r == declare_impl_fn(old(self)@, h@, *decl, provided(done@)).1,
    {
        proof {
            reveal(declare_impl_fn);
        }
        let name = decl.name.name.as_str();
        if let Some(d) = self.impl_fn_refused(h, decl, done) {
            self.push(d);
            return None;
        }
        self.set_self_ty(Some(h.receiver.copy()));
        let params = self.resolve_params(&decl.params);
        let ret = self.return_ty(&decl.ret);
        self.set_self_ty(None);
        let (wanted_named, wanted_modes, wanted_ret) = self.method_named(h.trait_id, name);
        let (_, wanted_types) = copies::named_lists(&wanted_named);
        let mut args: Vec<Ty> = Vec::new();
        args.push(h.receiver.copy());
        assert(tys(args@) =~= seq![h.receiver@]);
        let wanted = self.substitute_all(&wanted_types, &args, decl.span);
        let wanted_ret = self.substitute(&wanted_ret, &args, decl.span);
        if !signature_conforms(&params, &ret, &wanted, &wanted_ret) {
            let shape = self.ty_list(&wanted);
            let produced = self.ty_name(&wanted_ret);
            self.push(
                say::signature_conflict(
                    decl.span,
                    name,
                    h.trait_name.as_str(),
                    h.receiver_name.as_str(),
                    shape.as_str(),
                    produced.as_str(),
                ),
            );
            return None;
        }
        let (modes, _) = crate::item::modes_and_pins(&decl.params);
        if !same_modes(&modes, &wanted_modes) {
            self.push(say::mode_conflict(decl.span, name, h.trait_name.as_str()));
            return None;
        }
        let id = self.next_fn();
        let owner: usize = self.current();
        let display = h.trait_name.clone().concat(".").concat(name).concat(" for ").concat(
            h.receiver_name.as_str(),
        );
        assert(named_tys(params@).len() == params@.len());
        let def = bodiless_fn(display, false, params.len(), ret, decl.span);
        let pins = all_true(params.len());
        let bounds: Vec<Vec<TraitId>> = Vec::new();
        assert(bounds_list(bounds@) =~= seq![]);
        self.add_fn(FnParts { def, owner, bounds, params, modes: wanted_modes, pins });
        Some(id)
    }

    fn declare_impl_fns(&mut self, h: &HeaderMade, fns: &Vec<ast::FnDecl>) -> (r: Vec<
        (String, Option<FnId>),
    >)
        ensures
            final(self)@ == declare_impl_fns(old(self)@, h@, fns@).0,
            provided(r@) == declare_impl_fns(old(self)@, h@, fns@).1,
    {
        let mut r: Vec<(String, Option<FnId>)> = Vec::new();
        let ghost start = self@;
        let ghost all = fns@;
        assert(all.take(0) =~= seq![]);
        assert(provided(r@) =~= seq![]);
        for i in 0..fns.len()
            invariant
                all == fns@,
                self@ == declare_impl_fns(start, h@, all.take(i as int)).0,
                provided(r@) == declare_impl_fns(start, h@, all.take(i as int)).1,
        {
            let ghost before = provided(r@);
            assert(all.take(i + 1).drop_last() =~= all.take(i as int));
            let id = self.declare_impl_fn(h, &fns[i], &r);
            r.push((fns[i].name.name.clone(), id));
            assert(provided(r@) =~= before.push((fns@[i as int].name.name@, id)));
        }
        assert(all.take(fns.len() as int) =~= all);
        r
    }

    fn impl_refused(&self, h: &HeaderMade, decl: &ast::ImplDecl, home: Option<usize>) -> (r: Option<
        crate::span::Diagnostic,
    >)
        ensures
            crate::item::maybe_report(r) == impl_refused(self@, h@, *decl, home),
    {
        proof {
            reveal(impl_refused);
        }
        let current: usize = self.current();
        let own = match home {
            Some(module) => module == current,
            None => false,
        };
        if current != self.trait_module(h.trait_id) && !own {
            let built_in = match home {
                Some(module) => module == usize::MAX,
                None => true,
            };
            if built_in {
                return Some(
                    say::orphan_builtin(
                        decl.span,
                        h.trait_name.as_str(),
                        h.receiver_name.as_str(),
                    ),
                );
            }
            return Some(
                say::orphan(decl.span, h.trait_name.as_str(), h.receiver_name.as_str()),
            );
        }
        match self.existing_impl(h.trait_id, &h.receiver) {
            Some(module) => {
                let place = if module == current {
                    "earlier in this file".to_owned()
                } else {
                    "in ".to_owned().concat(self.module_name(module).as_str())
                };
                Some(
                    say::second_impl(
                        decl.span,
                        h.trait_name.as_str(),
                        h.receiver_name.as_str(),
                        place.as_str(),
                    ),
                )
            },
            None => None,
        }
    }

    fn impl_header(&mut self, decl: &ast::ImplDecl) -> (r: Option<HeaderMade>)
        ensures
            final(self)@ == impl_header(old(self)@, *decl).0,
            maybe_header(r) == impl_header(old(self)@, *decl).1,
    {
        proof {
            reveal(impl_header);
        }
        if decl.type_params.len() > 0 {
            self.push(say::generic_impl(decl.span));
            return None;
        }
        let trait_id = match self.resolve_trait(&decl.trait_path) {
            None => {
                return None;
            },
            Some(id) => id,
        };
        if trait_id == TraitId(EQ) {
            self.push(say::eq_by_hand(decl.trait_path.span));
            return None;
        }
        let receiver = self.resolve_ty(&decl.receiver);
        if is_error(&receiver) {
            return None;
        }
        let receiver_name = self.ty_name(&receiver);
        let trait_name = self.trait_name(trait_id);
        let home = match self.receiver_home(&receiver) {
            None => {
                self.push(say::cannot_implement(decl.receiver.span, receiver_name.as_str()));
                return None;
            },
            Some(home) => home,
        };
        let h = HeaderMade { trait_id, trait_name, receiver, receiver_name };
        if let Some(d) = self.impl_refused(&h, decl, home) {
            self.push(d);
            return None;
        }
        Some(h)
    }

    fn declare_impl(&mut self, decl: &ast::ImplDecl, index: usize)
        ensures
            final(self)@ == declare_impl(old(self)@, *decl, index as int),
    {
        proof {
            reveal(declare_impl);
        }
        let h = match self.impl_header(decl) {
            None => {
                return ;
            },
            Some(h) => h,
        };
        let methods = self.declare_impl_fns(&h, &decl.fns);
        let wanted = self.trait_methods(h.trait_id);
        let wanted_names = named_methods(&wanted);
        let written = named_written(&methods);
        let missing = list_unwritten(&wanted_names, &written);
        assert(texts(missing@).len() == missing@.len());
        if missing.len() > 0 {
            let list = quote(&missing);
            let text = join(&list, ", ");
            self.push(
                say::incomplete_impl(
                    decl.span,
                    h.trait_name.as_str(),
                    h.receiver_name.as_str(),
                    text.as_str(),
                ),
            );
        }
        let module: usize = self.current();
        self.add_impl(
            ImplDef { trait_id: h.trait_id, receiver: h.receiver, methods, module, item: index },
        );
    }

    pub fn declare_impls(&mut self, module: &ast::Module)
        ensures
            final(self)@ == declare_impls(old(self)@, *module),
    {
        proof {
            reveal(declare_impls);
        }
        let ghost start = self@;
        let ghost all = module.items@;
        assert(all.take(0) =~= seq![]);
        for i in 0..module.items.len()
            invariant
                all == module.items@,
                self@ == declare_impls_of(start, all.take(i as int)),
        {
            assert(all.take(i + 1).drop_last() =~= all.take(i as int));
            if let ast::Item::Impl(decl) = &module.items[i] {
                self.declare_impl(decl, i);
            }
        }
        assert(all.take(module.items.len() as int) =~= all);
    }
}

pub open spec fn maybe_header(h: Option<HeaderMade>) -> Option<Header> {
    match h {
        Some(h) => Some(h@),
        None => None,
    }
}

} // verus!
