//! What a written name means: types, traits, capabilities, and what a module namespace gives.

use vstd::prelude::*;
use vstd::string::*;
use crate::ast;
use crate::checker::Checker;
use crate::copies::{self, place_of};
use crate::generics::{enum_or_error, struct_or_error};
use crate::hir::{tys, Capability, Resource, TraitId, Ty};
use crate::instances::{
    argument_word, arguments_word, explicit_enum_instance, explicit_struct_instance, template_arity,
};
use crate::model;
use crate::reports;
use crate::say;
use crate::span::{texts, Report, Span};
use crate::state::{DeclKind, NsItem, State, TypeName};
use crate::table::find;
use crate::text::{decimal, join, joined, number, same};

verus! {

// ---------------------------------------------------------------- module namespaces

/// The report for a name its file keeps to itself.
#[verifier::opaque]
pub open spec fn not_exported(
    s: State,
    name: Seq<char>,
    shown: Seq<char>,
    target: usize,
    span: Span,
) -> Report {
    reports::not_exported(
        span,
        name,
        shown,
        match s.decl(target, name) {
            Some((kind, _)) => kind.word(),
            None => "declaration"@,
        },
        s.module_name(target),
    )
}

/// The first two segments of a path whose head is a namespace binding. `None` when the head is
/// not one; `Some(None)` when it is but the member does not resolve, which a diagnostic said.
#[verifier::opaque]
pub open spec fn resolve_ns(s: State, path: ast::Path) -> (State, Option<Option<NsItem>>) {
    match s.namespace_named(path.head.name@) {
        None => (s, None),
        Some(target) => if path.rest@.len() == 0 {
            (s, None)
        } else {
            let member = path.rest@[0];
            let span = path.head.span.joined(member.span);
            match s.decl(target, member.name@) {
                None => (
                    s.push(
                        reports::import_undefined(
                            span,
                            member.name@,
                            path.head.name@,
                            s.module_name(target),
                        ),
                    ),
                    Some(None),
                ),
                Some((kind, exported)) => if !exported {
                    (s.push(not_exported(s, member.name@, path.head.name@, target, span)), Some(None))
                } else if kind == DeclKind::Trait {
                    (s.push(reports::trait_not_value_or_type(span, path.text())), Some(None))
                } else {
                    (s, Some(ns_item(s, target, kind, member.name@)))
                },
            }
        },
    }
}

/// What a module declared under a name, unless the declaration was refused there.
#[verifier::opaque]
pub open spec fn ns_item(
    s: State,
    target: usize,
    kind: DeclKind,
    name: Seq<char>,
) -> Option<NsItem> {
    if kind == DeclKind::Fn {
        match find(s.at(target).fns, name) {
            Some(id) => Some(NsItem::Fn(id)),
            None => None,
        }
    } else {
        match find(s.at(target).types, name) {
            Some(TypeName::Struct(id)) => Some(NsItem::Struct(id)),
            Some(TypeName::Enum(id)) => Some(NsItem::Enum(id)),
            Some(TypeName::Reactor(id)) => Some(NsItem::Reactor(id)),
            _ => None,
        }
    }
}

// ---------------------------------------------------------------- types

/// A type with an argument list of a fixed length.
pub open spec fn type_args(
    s: State,
    name: Seq<char>,
    args: Seq<ast::Type>,
    want: nat,
    span: Span,
) -> (State, Option<Seq<model::Ty>>)
    decreases args, 1nat,
{
    if args.len() != want {
        (
            s.push(
                reports::type_arg_count(
                    span,
                    name,
                    decimal(want),
                    argument_word(want),
                    decimal(args.len()),
                    type_arg_teaching(name),
                ),
            ),
            None,
        )
    } else {
        let (s1, found) = written_tys(s, args);
        (s1, Some(found))
    }
}

#[verifier::opaque]
pub open spec fn type_arg_teaching(name: Seq<char>) -> Seq<char> {
    if name == "Result"@ {
        "write both, as in `Result<Config, LoadError>` — there is no default error type"@
    } else if name == "Task"@ {
        "write the value the task produces, as in `Task<()>`"@
    } else {
        "write the element type, as in `Option<I64>`"@
    }
}

pub open spec fn written_tys(s: State, list: Seq<ast::Type>) -> (State, Seq<model::Ty>)
    decreases list, 0nat,
{
    if list.len() == 0 {
        (s, seq![])
    } else {
        let (s1, done) = written_tys(s, list.drop_last());
        let (s2, ty) = written_ty(s1, list.last());
        (s2, done.push(ty))
    }
}

/// What a written type means. A reference cannot be written here.
pub open spec fn written_ty(s: State, ty: ast::Type) -> (State, model::Ty)
    decreases ty, 2nat,
{
    match ty.kind {
        ast::TypeKind::Unit => (s, model::Ty::Unit),
        ast::TypeKind::Ref { mutable, .. } => (
            s.push(
                if mutable {
                    reports::exclusive_borrow(ty.span)
                } else {
                    reports::reference_here(ty.span)
                },
            ),
            model::Ty::Error,
        ),
        ast::TypeKind::Path { path, args } => if path.rest@.len() == 0 {
            resolve_name(s, path.head.name@, args@, path.span, ty.span)
        } else if path.rest@.len() == 1 && s.namespace_named(path.head.name@) is Some {
            let (s1, item) = resolve_ns(s, path);
            match item {
                Some(Some(NsItem::Struct(id))) => named_ty(
                    s1,
                    TypeName::Struct(id),
                    path.text(),
                    args@,
                    ty.span,
                ),
                Some(Some(NsItem::Enum(id))) => named_ty(
                    s1,
                    TypeName::Enum(id),
                    path.text(),
                    args@,
                    ty.span,
                ),
                Some(Some(NsItem::Reactor(id))) => named_ty(
                    s1,
                    TypeName::Reactor(id),
                    path.text(),
                    args@,
                    ty.span,
                ),
                Some(Some(NsItem::Fn(_))) => if args@.len() > 0 {
                    (s1.push(reports::no_type_args(ty.span, path.text())), model::Ty::Error)
                } else {
                    (s1.push(reports::fn_not_type(path.span, path.text())), model::Ty::Error)
                },
                _ => (s1, model::Ty::Error),
            }
        } else {
            (s.push(reports::unknown_type(path.span, path.text())), model::Ty::Error)
        },
    }
}

/// A type written as one name, with its arguments.
pub open spec fn resolve_name(
    s: State,
    name: Seq<char>,
    args: Seq<ast::Type>,
    path_span: Span,
    span: Span,
) -> (State, model::Ty)
    decreases args, 3nat,
{
    if name == "Option"@ {
        let (s1, found) = type_args(s, name, args, 1, span);
        (
            s1,
            match found {
                Some(t) => model::Ty::Option(Box::new(t[0])),
                None => model::Ty::Error,
            },
        )
    } else if name == "Result"@ {
        let (s1, found) = type_args(s, name, args, 2, span);
        (
            s1,
            match found {
                Some(t) => model::Ty::Result(Box::new(t[0]), Box::new(t[1])),
                None => model::Ty::Error,
            },
        )
    } else if name == "Task"@ {
        let (s1, found) = type_args(s, name, args, 1, span);
        (
            s1,
            match found {
                Some(t) => model::Ty::Task(Box::new(t[0])),
                None => model::Ty::Error,
            },
        )
    } else if name == "Shared"@ {
        let (s1, found) = type_args(s, name, args, 1, span);
        (
            s1,
            match found {
                Some(t) => model::Ty::Shared(Box::new(t[0])),
                None => model::Ty::Error,
            },
        )
    } else if name == "Slots"@ {
        let (s1, found) = type_args(s, name, args, 1, span);
        (
            s1,
            match found {
                Some(t) => model::Ty::Slots(Box::new(t[0])),
                None => model::Ty::Error,
            },
        )
    } else if name == "Flow"@ {
        resolve_flow(s, args, span)
    } else if name == "Signal"@ || name == "Event"@ {
        (
            s.push(
                reports::unwritable_type(
                    span,
                    name,
                    if name == "Event"@ {
                        "an event"@
                    } else {
                        "a signal"@
                    },
                ),
            ),
            model::Ty::Error,
        )
    } else {
        resolve_plain_name(s, name, args, path_span, span)
    }
}

/// A flow is generic in spelling only: `Bytes` is the one element type.
pub open spec fn resolve_flow(s: State, args: Seq<ast::Type>, span: Span) -> (State, model::Ty)
    decreases args, 1nat,
{
    if args.len() == 1 {
        let (s1, t) = written_tys(s, args);
        if t[0] is Bytes {
            (s1, model::Ty::Resource(Resource::Flow))
        } else if t[0] is Error {
            (s1, model::Ty::Error)
        } else {
            (s1.push(reports::only_byte_flows(span)), model::Ty::Error)
        }
    } else {
        (s.push(reports::only_byte_flows(span)), model::Ty::Error)
    }
}

/// `Self`, a type parameter in scope, or a name of the file's type namespace.
pub open spec fn resolve_plain_name(
    s: State,
    name: Seq<char>,
    args: Seq<ast::Type>,
    path_span: Span,
    span: Span,
) -> (State, model::Ty)
    decreases args, 2nat,
{
    if name == "Self"@ {
        if args.len() > 0 {
            (s.push(reports::no_type_args(span, name)), model::Ty::Error)
        } else {
            match s.self_ty {
                Some(t) => (s, t),
                None => (s.push(reports::no_self_here(span)), model::Ty::Error),
            }
        }
    } else {
        match place_of(s.type_params, name) {
            Some(i) => if args.len() > 0 {
                (s.push(reports::no_type_args(span, name)), model::Ty::Error)
            } else {
                (s, model::Ty::Param { index: i as u32, name })
            },
            None => match s.type_named(name) {
                Some(t) => named_ty(s, t, name, args, span),
                None => if args.len() > 0 {
                    (s.push(reports::no_type_args(span, name)), model::Ty::Error)
                } else {
                    (s.push(reports::unknown_type(path_span, name)), model::Ty::Error)
                },
            },
        }
    }
}

/// The type a type name gives at written arguments. Where it takes none, those written are not
/// looked at.
pub open spec fn named_ty(
    s: State,
    t: TypeName,
    shown: Seq<char>,
    args: Seq<ast::Type>,
    span: Span,
) -> (State, model::Ty)
    decreases args, 1nat,
{
    match t {
        TypeName::Builtin(scalar) => if args.len() > 0 {
            (s.push(reports::no_type_args(span, shown)), model::Ty::Error)
        } else {
            (s, scalar.ty())
        },
        TypeName::Reactor(id) => if args.len() > 0 {
            (s.push(reports::no_type_args(span, shown)), model::Ty::Error)
        } else {
            (s, model::Ty::Reactor(id))
        },
        TypeName::Struct(id) => if s.struct_params(id).len() == 0 {
            if args.len() > 0 {
                (s.push(reports::no_type_args(span, shown)), model::Ty::Error)
            } else {
                (s, model::Ty::Struct(id))
            }
        } else if args.len() > 0 {
            let (s1, found) = written_tys(s, args);
            let (s2, made) = explicit_struct_instance(s1, id, found, span);
            (s2, struct_or_error(made))
        } else {
            (
                template_arity(s, s.struct_name(id), s.struct_params(id).len(), 0, span).0,
                model::Ty::Error,
            )
        },
        TypeName::Enum(id) => if s.enum_params(id).len() == 0 {
            if args.len() > 0 {
                (s.push(reports::no_type_args(span, shown)), model::Ty::Error)
            } else {
                (s, model::Ty::Enum(id))
            }
        } else if args.len() > 0 {
            let (s1, found) = written_tys(s, args);
            let (s2, made) = explicit_enum_instance(s1, id, found, span);
            (s2, enum_or_error(made))
        } else {
            (
                template_arity(s, s.enum_name(id), s.enum_params(id).len(), 0, span).0,
                model::Ty::Error,
            )
        },
    }
}

/// What a written parameter type means: the one place where a reference may be written. A borrow
/// of a borrow is a borrow.
pub open spec fn written_param_ty(s: State, ty: ast::Type) -> (State, model::Ty)
    decreases ty,
{
    match ty.kind {
        ast::TypeKind::Ref { mutable, inner } => if mutable {
            (s.push(reports::exclusive_borrow(ty.span)), model::Ty::Error)
        } else {
            let (s1, t) = written_param_ty(s, *inner);
            (
                s1,
                if t is Ref || t is Error {
                    t
                } else {
                    model::Ty::Ref(Box::new(t))
                },
            )
        },
        _ => written_ty(s, ty),
    }
}

/// What a written type means, where no reference may be written.
#[verifier::opaque]
pub open spec fn resolve_ty(s: State, ty: ast::Type) -> (State, model::Ty) {
    written_ty(s, ty)
}

/// What written types mean, one after the other.
#[verifier::opaque]
pub open spec fn resolve_all(s: State, list: Seq<ast::Type>) -> (State, Seq<model::Ty>) {
    written_tys(s, list)
}

/// What a written parameter type means.
#[verifier::opaque]
pub open spec fn resolve_param_ty(s: State, ty: ast::Type) -> (State, model::Ty) {
    written_param_ty(s, ty)
}

// ---------------------------------------------------------------- traits

/// What a type name is called where a trait was wanted.
#[verifier::opaque]
pub open spec fn type_word(t: TypeName) -> Seq<char> {
    match t {
        TypeName::Struct(_) => "a struct"@,
        TypeName::Enum(_) => "an enum"@,
        TypeName::Reactor(_) => "a reactor"@,
        TypeName::Builtin(_) => "a built-in type"@,
    }
}

/// The trait a path names: one of this file, or one a namespace exports.
#[verifier::opaque]
pub open spec fn resolve_trait(s: State, path: ast::Path) -> (State, Option<TraitId>) {
    let head = path.head;
    if path.rest@.len() == 0 {
        match s.trait_named(head.name@) {
            Some(id) => (s, Some(id)),
            None => (
                s.push(
                    match s.type_named(head.name@) {
                        Some(t) => reports::type_not_trait(head.span, head.name@, type_word(t)),
                        None => reports::unknown_trait(head.span, head.name@),
                    },
                ),
                None,
            ),
        }
    } else if path.rest@.len() == 1 && s.namespace_named(head.name@) is Some {
        resolve_ns_trait(s, path, s.namespace_named(head.name@)->0)
    } else {
        (s.push(reports::unknown_trait(path.span, path.text())), None)
    }
}

#[verifier::opaque]
pub open spec fn resolve_ns_trait(s: State, path: ast::Path, target: usize) -> (
    State,
    Option<TraitId>,
) {
    let member = path.rest@[0];
    let span = path.head.span.joined(member.span);
    match s.decl(target, member.name@) {
        None => (
            s.push(
                reports::import_undefined(
                    span,
                    member.name@,
                    path.head.name@,
                    s.module_name(target),
                ),
            ),
            None,
        ),
        Some((kind, exported)) => if kind != DeclKind::Trait {
            (s.push(reports::decl_not_trait(span, path.text(), kind.word())), None)
        } else if !exported {
            (s.push(not_exported(s, member.name@, path.head.name@, target, span)), None)
        } else {
            (s, find(s.at(target).traits, member.name@))
        },
    }
}

// ---------------------------------------------------------------- capabilities

/// A capability set in the order of the vocabulary, with one more in it.
pub open spec fn with_capability(list: Seq<Capability>, c: Capability) -> Seq<Capability>
    decreases list.len(),
{
    if list.len() == 0 || list.last().0 < c.0 {
        list.push(c)
    } else if list.last() == c {
        list
    } else {
        with_capability(list.drop_last(), c).push(list.last())
    }
}

/// What a written capability names.
#[verifier::opaque]
pub open spec fn capability_named(v: model::Vocabulary, name: Seq<char>) -> Option<Capability> {
    match place_of(v.capabilities, name) {
        Some(i) => Some(Capability(i as u32)),
        None => None,
    }
}

/// A `uses` clause: the capabilities it names, in order, each once.
pub open spec fn capabilities(s: State, uses: Seq<ast::Path>) -> (State, Seq<Capability>)
    decreases uses.len(),
{
    if uses.len() == 0 {
        (s, seq![])
    } else {
        let (s1, done) = capabilities(s, uses.drop_last());
        let path = uses.last();
        match capability_named(s1.vocabulary, path.text()) {
            Some(c) => (s1, with_capability(done, c)),
            None => (
                s1.push(
                    reports::unknown_capability(
                        path.span,
                        path.text(),
                        joined(s1.vocabulary.capabilities, ", "@),
                    ),
                ),
                done,
            ),
        }
    }
}

/// How a capability is written.
#[verifier::opaque]
pub open spec fn capability_name(v: model::Vocabulary, c: Capability) -> Seq<char> {
    if c.0 < v.capabilities.len() {
        v.capabilities[c.0 as int]
    } else {
        "_"@
    }
}

// ---------------------------------------------------------------- carrying it out

pub open spec fn found_tys(r: Option<Vec<Ty>>) -> Option<Seq<model::Ty>> {
    match r {
        Some(v) => Some(tys(v@)),
        None => None,
    }
}

fn first_ty(v: Vec<Ty>) -> (r: Ty)
    requires
        v.len() > 0,
    ensures
        r@ == tys(v@)[0],
{
    v[0].copy()
}

fn teaching(name: &str) -> (r: &'static str)
    ensures
        r@ == type_arg_teaching(name@),
{
    proof {
        reveal(type_arg_teaching);
    }
    if same(name, "Result") {
        "write both, as in `Result<Config, LoadError>` — there is no default error type"
    } else if same(name, "Task") {
        "write the value the task produces, as in `Task<()>`"
    } else {
        "write the element type, as in `Option<I64>`"
    }
}

proof fn written_tys_length(s: State, list: Seq<ast::Type>)
    ensures
        written_tys(s, list).1.len() == list.len(),
    decreases list.len(),
{
    if list.len() > 0 {
        written_tys_length(s, list.drop_last());
    }
}

impl Checker {
    pub fn not_exported(&mut self, name: &str, shown: &str, target: usize, span: Span)
        ensures
            final(self)@ == old(self)@.push(
                not_exported(old(self)@, name@, shown@, target, span),
            ),
    {
        proof {
            reveal(not_exported);
        }
        let file = self.module_name(target);
        let kind = match self.decl(target, name) {
            Some((kind, _)) => kind.describe(),
            None => "declaration",
        };
        self.push(say::not_exported(span, name, shown, kind, file.as_str()));
    }

    fn ns_item(&self, target: usize, kind: DeclKind, name: &str) -> (r: Option<NsItem>)
        ensures
            r == ns_item(self@, target, kind, name@),
    {
        proof {
            reveal(ns_item);
        }
        if kind == DeclKind::Fn {
            match self.fn_at(target, name) {
                Some(id) => Some(NsItem::Fn(id)),
                None => None,
            }
        } else {
            match self.type_at(target, name) {
                Some(TypeName::Struct(id)) => Some(NsItem::Struct(id)),
                Some(TypeName::Enum(id)) => Some(NsItem::Enum(id)),
                Some(TypeName::Reactor(id)) => Some(NsItem::Reactor(id)),
                _ => None,
            }
        }
    }

    pub fn resolve_ns(&mut self, path: &ast::Path) -> (r: Option<Option<NsItem>>)
        ensures
            final(self)@ == resolve_ns(old(self)@, *path).0,
            r == resolve_ns(old(self)@, *path).1,
    {
        proof {
            reveal(resolve_ns);
        }
        let target: usize = match self.namespace_named(path.head.name.as_str()) {
            Some(target) => target,
            None => {
                return None;
            },
        };
        if path.rest.len() == 0 {
            return None;
        }
        let member = &path.rest[0];
        let span = path.head.span.to(member.span);
        let (kind, exported) = match self.decl(target, member.name.as_str()) {
            Some(found) => found,
            None => {
                let file = self.module_name(target);
                self.push(
                    say::import_undefined(
                        span,
                        member.name.as_str(),
                        path.head.name.as_str(),
                        file.as_str(),
                    ),
                );
                return Some(None);
            },
        };
        if !exported {
            self.not_exported(member.name.as_str(), path.head.name.as_str(), target, span);
            return Some(None);
        }
        if kind == DeclKind::Trait {
            let text = path.written();
            self.push(say::trait_not_value_or_type(span, text.as_str()));
            return Some(None);
        }
        Some(self.ns_item(target, kind, member.name.as_str()))
    }

    fn type_args(&mut self, name: &str, args: &Vec<ast::Type>, want: usize, span: Span) -> (r:
        Option<Vec<Ty>>)
        ensures
            final(self)@ == type_args(old(self)@, name@, args@, want as nat, span).0,
            found_tys(r) == type_args(old(self)@, name@, args@, want as nat, span).1,
            r matches Some(v) ==> v.len() == want,
        decreases args, 1nat,
    {
        if args.len() != want {
            let want_text = number(want);
            let found = number(args.len());
            self.push(
                say::type_arg_count(
                    span,
                    name,
                    want_text.as_str(),
                    arguments_word(want),
                    found.as_str(),
                    teaching(name),
                ),
            );
            return None;
        }
        proof {
            written_tys_length(self@, args@);
        }
        let found = self.written_tys(args);
        assert(tys(found@).len() == found@.len());
        Some(found)
    }

    fn written_tys(&mut self, list: &Vec<ast::Type>) -> (r: Vec<Ty>)
        ensures
            final(self)@ == written_tys(old(self)@, list@).0,
            tys(r@) == written_tys(old(self)@, list@).1,
        decreases list, 0nat,
    {
        let mut r: Vec<Ty> = Vec::new();
        let ghost start = self@;
        let ghost all = list@;
        assert(all.take(0) =~= seq![]);
        assert(tys(r@) =~= seq![]);
        for i in 0..list.len()
            invariant
                all == list@,
                self@ == written_tys(start, all.take(i as int)).0,
                tys(r@) == written_tys(start, all.take(i as int)).1,
        {
            let ghost before = tys(r@);
            let ty = self.written_ty(&list[i]);
            r.push(ty);
            assert(all.take(i + 1).drop_last() =~= all.take(i as int));
            assert(tys(r@) =~= before.push(ty@));
        }
        assert(all.take(list.len() as int) =~= all);
        r
    }

    fn written_ty(&mut self, ty: &ast::Type) -> (r: Ty)
        ensures
            final(self)@ == written_ty(old(self)@, *ty).0,
            r@ == written_ty(old(self)@, *ty).1,
        decreases ty, 2nat,
    {
        match &ty.kind {
            ast::TypeKind::Unit => Ty::Unit,
            ast::TypeKind::Ref { mutable, .. } => {
                if *mutable {
                    self.push(say::exclusive_borrow(ty.span));
                } else {
                    self.push(say::reference_here(ty.span));
                }
                Ty::Error
            },
            ast::TypeKind::Path { path, args } => {
                if path.rest.len() == 0 {
                    return self.resolve_name(path.head.name.as_str(), args, path.span, ty.span);
                }
                let text = path.written();
                let head = path.head.name.as_str();
                if path.rest.len() != 1 || self.namespace_named(head).is_none() {
                    self.push(say::unknown_type(path.span, text.as_str()));
                    return Ty::Error;
                }
                match self.resolve_ns(path) {
                    Some(Some(NsItem::Struct(id))) => {
                        return self.named_ty(TypeName::Struct(id), text.as_str(), args, ty.span);
                    },
                    Some(Some(NsItem::Enum(id))) => {
                        return self.named_ty(TypeName::Enum(id), text.as_str(), args, ty.span);
                    },
                    Some(Some(NsItem::Reactor(id))) => {
                        return self.named_ty(TypeName::Reactor(id), text.as_str(), args, ty.span);
                    },
                    Some(Some(NsItem::Fn(_))) => {
                        if args.len() > 0 {
                            self.push(say::no_type_args(ty.span, text.as_str()));
                        } else {
                            self.push(say::fn_not_type(path.span, text.as_str()));
                        }
                        return Ty::Error;
                    },
                    _ => {
                        return Ty::Error;
                    },
                }
            },
        }
    }

    fn resolve_name(
        &mut self,
        name: &str,
        args: &Vec<ast::Type>,
        path_span: Span,
        span: Span,
    ) -> (r: Ty)
        ensures
            final(self)@ == resolve_name(old(self)@, name@, args@, path_span, span).0,
            r@ == resolve_name(old(self)@, name@, args@, path_span, span).1,
        decreases args, 3nat,
    {
        if same(name, "Option") {
            return match self.type_args(name, args, 1, span) {
                Some(t) => Ty::Option(Box::new(first_ty(t))),
                None => Ty::Error,
            };
        }
        if same(name, "Result") {
            return match self.type_args(name, args, 2, span) {
                Some(t) => Ty::Result(Box::new(t[0].copy()), Box::new(t[1].copy())),
                None => Ty::Error,
            };
        }
        if same(name, "Task") {
            return match self.type_args(name, args, 1, span) {
                Some(t) => Ty::Task(Box::new(first_ty(t))),
                None => Ty::Error,
            };
        }
        if same(name, "Shared") {
            return match self.type_args(name, args, 1, span) {
                Some(t) => Ty::Shared(Box::new(first_ty(t))),
                None => Ty::Error,
            };
        }
        if same(name, "Slots") {
            return match self.type_args(name, args, 1, span) {
                Some(t) => Ty::Slots(Box::new(first_ty(t))),
                None => Ty::Error,
            };
        }
        if same(name, "Flow") {
            return self.resolve_flow(args, span);
        }
        if same(name, "Signal") || same(name, "Event") {
            let lives = if same(name, "Event") {
                "an event"
            } else {
                "a signal"
            };
            self.push(say::unwritable_type(span, name, lives));
            return Ty::Error;
        }
        self.resolve_plain_name(name, args, path_span, span)
    }

    fn resolve_flow(&mut self, args: &Vec<ast::Type>, span: Span) -> (r: Ty)
        ensures
            final(self)@ == resolve_flow(old(self)@, args@, span).0,
            r@ == resolve_flow(old(self)@, args@, span).1,
        decreases args, 1nat,
    {
        if args.len() == 1 {
            proof {
                written_tys_length(self@, args@);
            }
            let t = self.written_tys(args);
            assert(tys(t@).len() == t@.len());
            assert(tys(t@)[0] == t@[0]@);
            match &t[0] {
                Ty::Bytes => {
                    return Ty::Resource(Resource::Flow);
                },
                Ty::Error => {
                    return Ty::Error;
                },
                _ => {},
            }
        }
        self.push(say::only_byte_flows(span));
        Ty::Error
    }

    fn resolve_plain_name(
        &mut self,
        name: &str,
        args: &Vec<ast::Type>,
        path_span: Span,
        span: Span,
    ) -> (r: Ty)
        ensures
            final(self)@ == resolve_plain_name(old(self)@, name@, args@, path_span, span).0,
            r@ == resolve_plain_name(old(self)@, name@, args@, path_span, span).1,
        decreases args, 2nat,
    {
        if same(name, "Self") {
            if args.len() > 0 {
                self.push(say::no_type_args(span, name));
                return Ty::Error;
            }
            return match self.self_ty() {
                Some(t) => t,
                None => {
                    self.push(say::no_self_here(span));
                    Ty::Error
                },
            };
        }
        let params = self.type_params();
        if let Some(i) = copies::place(&params, name) {
            if args.len() > 0 {
                self.push(say::no_type_args(span, name));
                return Ty::Error;
            }
            let index: u32 = #[verifier::truncate]
            (i as u32);
            return Ty::Param { index, name: name.to_owned() };
        }
        match self.type_named(name) {
            Some(t) => self.named_ty(t, name, args, span),
            None => {
                if args.len() > 0 {
                    self.push(say::no_type_args(span, name));
                } else {
                    self.push(say::unknown_type(path_span, name));
                }
                Ty::Error
            },
        }
    }

    fn named_ty(&mut self, t: TypeName, shown: &str, args: &Vec<ast::Type>, span: Span) -> (r: Ty)
        ensures
            final(self)@ == named_ty(old(self)@, t, shown@, args@, span).0,
            r@ == named_ty(old(self)@, t, shown@, args@, span).1,
        decreases args, 1nat,
    {
        match t {
            TypeName::Builtin(scalar) => {
                if args.len() > 0 {
                    self.push(say::no_type_args(span, shown));
                    return Ty::Error;
                }
                scalar.spelled()
            },
            TypeName::Reactor(id) => {
                if args.len() > 0 {
                    self.push(say::no_type_args(span, shown));
                    return Ty::Error;
                }
                Ty::Reactor(id)
            },
            TypeName::Struct(id) => {
                let params = self.struct_params(id);
                assert(texts(params@).len() == params@.len());
                if params.len() == 0 {
                    if args.len() > 0 {
                        self.push(say::no_type_args(span, shown));
                        return Ty::Error;
                    }
                    return Ty::Struct(id);
                }
                if args.len() > 0 {
                    let found = self.written_tys(args);
                    return match self.explicit_struct_instance(id, found, span) {
                        Some(made) => Ty::Struct(made),
                        None => Ty::Error,
                    };
                }
                let display = self.struct_name(id);
                let _ = self.template_arity(display.as_str(), params.len(), 0, span);
                Ty::Error
            },
            TypeName::Enum(id) => {
                let params = self.enum_params(id);
                assert(texts(params@).len() == params@.len());
                if params.len() == 0 {
                    if args.len() > 0 {
                        self.push(say::no_type_args(span, shown));
                        return Ty::Error;
                    }
                    return Ty::Enum(id);
                }
                if args.len() > 0 {
                    let found = self.written_tys(args);
                    return match self.explicit_enum_instance(id, found, span) {
                        Some(made) => Ty::Enum(made),
                        None => Ty::Error,
                    };
                }
                let display = self.enum_name(id);
                let _ = self.template_arity(display.as_str(), params.len(), 0, span);
                Ty::Error
            },
        }
    }

    fn written_param_ty(&mut self, ty: &ast::Type) -> (r: Ty)
        ensures
            final(self)@ == written_param_ty(old(self)@, *ty).0,
            r@ == written_param_ty(old(self)@, *ty).1,
        decreases ty,
    {
        match &ty.kind {
            ast::TypeKind::Ref { mutable, inner } => {
                if *mutable {
                    self.push(say::exclusive_borrow(ty.span));
                    return Ty::Error;
                }
                match self.written_param_ty(inner) {
                    Ty::Ref(t) => Ty::Ref(t),
                    Ty::Error => Ty::Error,
                    owned => Ty::Ref(Box::new(owned)),
                }
            },
            _ => self.written_ty(ty),
        }
    }

    /// What a written type means.
    pub fn resolve_ty(&mut self, ty: &ast::Type) -> (r: Ty)
        ensures
            final(self)@ == resolve_ty(old(self)@, *ty).0,
            r@ == resolve_ty(old(self)@, *ty).1,
    {
        proof {
            reveal(resolve_ty);
        }
        self.written_ty(ty)
    }

    pub fn resolve_all(&mut self, list: &Vec<ast::Type>) -> (r: Vec<Ty>)
        ensures
            final(self)@ == resolve_all(old(self)@, list@).0,
            tys(r@) == resolve_all(old(self)@, list@).1,
    {
        proof {
            reveal(resolve_all);
        }
        self.written_tys(list)
    }

    /// What a written parameter type means.
    pub fn resolve_param_ty(&mut self, ty: &ast::Type) -> (r: Ty)
        ensures
            final(self)@ == resolve_param_ty(old(self)@, *ty).0,
            r@ == resolve_param_ty(old(self)@, *ty).1,
    {
        proof {
            reveal(resolve_param_ty);
        }
        self.written_param_ty(ty)
    }

    /// The trait a path names.
    pub fn resolve_trait(&mut self, path: &ast::Path) -> (r: Option<TraitId>)
        ensures
            final(self)@ == resolve_trait(old(self)@, *path).0,
            r == resolve_trait(old(self)@, *path).1,
    {
        proof {
            reveal(resolve_trait);
            reveal(type_word);
        }
        let head = &path.head;
        if path.rest.len() == 0 {
            if let Some(id) = self.trait_named(head.name.as_str()) {
                return Some(id);
            }
            match self.type_named(head.name.as_str()) {
                Some(t) => {
                    let what = match t {
                        TypeName::Struct(_) => "a struct",
                        TypeName::Enum(_) => "an enum",
                        TypeName::Reactor(_) => "a reactor",
                        TypeName::Builtin(_) => "a built-in type",
                    };
                    self.push(say::type_not_trait(head.span, head.name.as_str(), what));
                },
                None => {
                    self.push(say::unknown_trait(head.span, head.name.as_str()));
                },
            }
            return None;
        }
        if path.rest.len() == 1 {
            if let Some(target) = self.namespace_named(head.name.as_str()) {
                return self.resolve_ns_trait(path, target);
            }
        }
        let text = path.written();
        self.push(say::unknown_trait(path.span, text.as_str()));
        None
    }

    fn resolve_ns_trait(&mut self, path: &ast::Path, target: usize) -> (r: Option<TraitId>)
        requires
            path.rest.len() == 1,
        ensures
            final(self)@ == resolve_ns_trait(old(self)@, *path, target).0,
            r == resolve_ns_trait(old(self)@, *path, target).1,
    {
        proof {
            reveal(resolve_ns_trait);
        }
        let member = &path.rest[0];
        let span = path.head.span.to(member.span);
        let (kind, exported) = match self.decl(target, member.name.as_str()) {
            Some(found) => found,
            None => {
                let file = self.module_name(target);
                self.push(
                    say::import_undefined(
                        span,
                        member.name.as_str(),
                        path.head.name.as_str(),
                        file.as_str(),
                    ),
                );
                return None;
            },
        };
        if kind != DeclKind::Trait {
            let text = path.written();
            self.push(say::decl_not_trait(span, text.as_str(), kind.describe()));
            return None;
        }
        if !exported {
            self.not_exported(member.name.as_str(), path.head.name.as_str(), target, span);
            return None;
        }
        self.trait_at(target, member.name.as_str())
    }

    pub fn capability_named(&self, name: &str) -> (r: Option<Capability>)
        ensures
            r == capability_named(self@.vocabulary, name@),
    {
        proof {
            reveal(capability_named);
            reveal(Checker::view);
        }
        match copies::place(&self.vocabulary.capabilities, name) {
            Some(i) => Some(
                Capability(
                    #[verifier::truncate]
                    (i as u32),
                ),
            ),
            None => None,
        }
    }

    pub fn known_capabilities(&self) -> (r: String)
        ensures
            r@ == joined(self@.vocabulary.capabilities, ", "@),
    {
        proof {
            reveal(Checker::view);
        }
        join(&self.vocabulary.capabilities, ", ")
    }

    pub fn capability_name(&self, c: Capability) -> (r: String)
        ensures
            r@ == capability_name(self@.vocabulary, c),
    {
        proof {
            reveal(capability_name);
            reveal(Checker::view);
        }
        let at: usize = c.0 as usize;
        if at < self.vocabulary.capabilities.len() {
            self.vocabulary.capabilities[at].clone()
        } else {
            "_".to_owned()
        }
    }

    /// The capabilities a `uses` clause names.
    pub fn capabilities(&mut self, uses: &Vec<ast::Path>) -> (r: Vec<Capability>)
        ensures
            final(self)@ == capabilities(old(self)@, uses@).0,
            r@ == capabilities(old(self)@, uses@).1,
    {
        let mut r: Vec<Capability> = Vec::new();
        let ghost start = self@;
        let ghost all = uses@;
        assert(all.take(0) =~= seq![]);
        assert(r@ =~= seq![]);
        for i in 0..uses.len()
            invariant
                all == uses@,
                self@ == capabilities(start, all.take(i as int)).0,
                r@ == capabilities(start, all.take(i as int)).1,
        {
            assert(all.take(i + 1).drop_last() =~= all.take(i as int));
            let name = uses[i].written();
            match self.capability_named(name.as_str()) {
                Some(c) => add_capability(&mut r, c),
                None => {
                    let known = self.known_capabilities();
                    self.push(
                        say::unknown_capability(uses[i].span, name.as_str(), known.as_str()),
                    );
                },
            }
        }
        assert(all.take(uses.len() as int) =~= all);
        r
    }
}

/// Put a capability where it belongs in an ordered list.
pub fn add_capability(list: &mut Vec<Capability>, c: Capability)
    ensures
        final(list)@ == with_capability(old(list)@, c),
    decreases old(list).len(),
{
    let n: usize = list.len();
    if n == 0 || list[n - 1].0 < c.0 {
        list.push(c);
    } else if list[n - 1] != c {
        let top = list[n - 1];
        let _ = list.pop();
        assert(list@ =~= old(list)@.drop_last());
        add_capability(list, c);
        list.push(top);
    }
}

/// A list of capabilities without repetition, in the order of the vocabulary.
pub open spec fn ordered(list: Seq<Capability>) -> bool {
    forall|i: int, j: int|
        0 <= i < j < list.len() ==> (#[trigger] list[i]).0 < (#[trigger] list[j]).0
}

/// A `uses` clause gives an ordered list without repetition.
pub proof fn uses_are_ordered(s: State, uses: Seq<ast::Path>)
    ensures
        ordered(capabilities(s, uses).1),
    decreases uses.len(),
{
    if uses.len() > 0 {
        uses_are_ordered(s, uses.drop_last());
        let (s1, done) = capabilities(s, uses.drop_last());
        match capability_named(s1.vocabulary, uses.last().text()) {
            Some(c) => keeps_order(done, c),
            None => {},
        }
    }
}

proof fn keeps_order(list: Seq<Capability>, c: Capability)
    requires
        ordered(list),
    ensures
        ordered(with_capability(list, c)),
        with_capability(list, c).contains(c),
        forall|x: Capability| #[trigger]
            with_capability(list, c).contains(x) <==> list.contains(x) || x == c,
    decreases list.len(),
{
    let r = with_capability(list, c);
    if list.len() == 0 || list.last().0 < c.0 {
        assert(r[list.len() as int] == c);
        assert forall|x: Capability| list.contains(x) implies r.contains(x) by {
            let k = choose|k: int| 0 <= k < list.len() && list[k] == x;
            assert(r[k] == x);
        }
    } else if list.last() == c {
        assert(list[list.len() - 1] == c);
    } else {
        let front = list.drop_last();
        keeps_order(front, c);
        let inner = with_capability(front, c);
        assert(r =~= inner.push(list.last()));
        assert(inner.contains(c));
        let at = choose|k: int| 0 <= k < inner.len() && inner[k] == c;
        assert(r[at] == c);
        assert forall|i: int, j: int| 0 <= i < j < r.len() implies (#[trigger] r[i]).0 < (
        #[trigger] r[j]).0 by {
            if j == r.len() - 1 {
                assert(inner.contains(r[i]));
                if r[i] != c {
                    assert(front.contains(r[i]));
                    let k = choose|k: int| 0 <= k < front.len() && front[k] == r[i];
                    assert(list[k] == r[i]);
                    assert(list[k].0 < list[list.len() - 1].0);
                }
            }
        }
        assert forall|x: Capability| #[trigger] r.contains(x) <==> list.contains(x) || x == c by {
            if r.contains(x) {
                let k = choose|k: int| 0 <= k < r.len() && r[k] == x;
                if k < inner.len() {
                    assert(inner.contains(x));
                    if x != c {
                        let m = choose|m: int| 0 <= m < front.len() && front[m] == x;
                        assert(list[m] == x);
                    }
                } else {
                    assert(list[list.len() - 1] == x);
                }
            }
            if list.contains(x) {
                let k = choose|k: int| 0 <= k < list.len() && list[k] == x;
                if k < front.len() {
                    assert(front[k] == x);
                    assert(inner.contains(x));
                    let m = choose|m: int| 0 <= m < inner.len() && inner[m] == x;
                    assert(r[m] == x);
                } else {
                    assert(r[r.len() - 1] == x);
                }
            }
        }
    }
}

} // verus!
