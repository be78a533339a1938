//! Dotted names in expressions: locals and their fields, members of a reactor handle, variants,
//! and what a module namespace exports.

use vstd::prelude::*;
use vstd::string::*;
use crate::ast;
use crate::binding::{is_builtin_variant, owned, owned_ty};
use crate::checker::{error_expr, failed, make, maybe, Checker};
use crate::copies::{self, field_names, place_of};
use crate::hir::{
    fields_of, variants_of, EnumId, Expr, ExprKind, NodeId, ReactorId, Ty, VariantDef, OPTION,
    RESULT,
};
use crate::instances::with_opaque_note;
use crate::model;
use crate::pat::enum_example;
use crate::plan::{plan_option, plan_result, plan_variant, without_arguments};
use crate::reports;
use crate::resolve::resolve_ns;
use crate::say;
use crate::span::{texts, Report, Span};
use crate::state::{builtin_variant, NsItem, Sort, State, TypeName};
use crate::text::{join, joined, same};

verus! {

// ---------------------------------------------------------------- fields

/// A type without the `Shared` around it.
pub open spec fn unshared(t: model::Ty) -> model::Ty
    decreases t,
{
    match t {
        model::Ty::Shared(inner) => unshared(*inner),
        _ => t,
    }
}

pub open spec fn node_name(s: State, id: ReactorId, node: NodeId) -> Seq<char> {
    match s.node(id, node.0 as int) {
        Some(n) => n.name,
        None => "_"@,
    }
}

pub open spec fn node_ty(s: State, id: ReactorId, node: NodeId) -> model::Ty {
    match s.node(id, node.0 as int) {
        Some(n) => n.ty,
        None => model::Ty::Error,
    }
}

/// The names of the nodes a reactor exports.
#[verifier::opaque]
pub open spec fn export_names(s: State, id: ReactorId) -> Seq<Seq<char>> {
    Seq::new(s.reactor_exports(id).len(), |i: int| node_name(s, id, s.reactor_exports(id)[i]))
}

/// A member of a reactor handle: an input, or an exported signal.
#[verifier::opaque]
pub open spec fn handle_member(
    s: State,
    base: model::Expr,
    id: ReactorId,
    name: ast::Ident,
    span: Span,
) -> (State, model::Expr) {
    match s.input_place(id, name.name@) {
        Some(i) => (
            s,
            model::Expr {
                kind: model::ExprKind::ReactorInput { reactor: Box::new(base), index: i as usize },
                ty: model::Ty::Input(Box::new(input_ty(s, id, i))),
                span,
            },
        ),
        None => match place_of(export_names(s, id), name.name@) {
            Some(i) => (
                s,
                model::Expr {
                    kind: model::ExprKind::ReactorExport {
                        reactor: Box::new(base),
                        index: i as usize,
                    },
                    ty: model::Ty::Signal(Box::new(node_ty(s, id, s.reactor_exports(id)[i]))),
                    span,
                },
            ),
            None => (
                s.push(
                    if hidden_node(s, id, name.name@) {
                        reports::member_private(name.span, s.reactor_name(id), name.name@)
                    } else {
                        reports::member_unknown(name.span, s.reactor_name(id), name.name@)
                    },
                ),
                failed(span),
            ),
        },
    }
}

pub open spec fn input_ty(s: State, id: ReactorId, i: int) -> model::Ty {
    if 0 <= i < s.reactor_inputs(id).len() {
        s.reactor_inputs(id)[i].ty
    } else {
        model::Ty::Error
    }
}

/// Whether a name is that of a node which is not exported.
pub open spec fn hidden_node(s: State, id: ReactorId, name: Seq<char>) -> bool {
    match s.node_place(id, name) {
        Some(i) => match s.node(id, i) {
            Some(n) => !n.exported,
            None => false,
        },
        None => false,
    }
}

/// Field access reads through a borrow, and through every `Shared`.
#[verifier::opaque]
pub open spec fn field_access(s: State, base: model::Expr, name: ast::Ident, span: Span) -> (
    State,
    model::Expr,
) {
    match base.ty {
        model::Ty::Error => (s, failed(span)),
        model::Ty::Reactor(id) => handle_member(s, base, id, name, span),
        _ => match unshared(owned(base.ty)) {
            model::Ty::Struct(id) => match place_of(field_names(s.struct_fields(id)), name.name@) {
                None => (
                    s.push(reports::no_field(name.span, s.struct_name(id), name.name@)),
                    failed(span),
                ),
                Some(i) => (
                    s,
                    model::Expr {
                        kind: model::ExprKind::Field { base: Box::new(base), index: i as usize },
                        ty: s.struct_fields(id)[i].ty,
                        span,
                    },
                ),
            },
            _ => (
                s.push(
                    with_opaque_note(
                        s,
                        reports::no_fields(span, s.ty_name(base.ty), name.name@),
                        base.ty,
                    ),
                ),
                failed(span),
            ),
        },
    }
}

/// Field accesses one after the other, each from the head of the path to its own segment.
pub open spec fn project(s: State, e: model::Expr, head: Span, rest: Seq<ast::Ident>) -> (
    State,
    model::Expr,
)
    decreases rest.len(),
{
    if rest.len() == 0 {
        (s, e)
    } else {
        let (s1, e1) = project(s, e, head, rest.drop_last());
        field_access(s1, e1, rest.last(), head.joined(rest.last().span))
    }
}

// ---------------------------------------------------------------- reactor members

/// The names a signal is a function of, in the order its body takes them.
#[verifier::opaque]
pub open spec fn dep_names(s: State, id: ReactorId, node: int) -> Seq<Seq<char>> {
    match s.node(id, node) {
        Some(n) => Seq::new(n.deps.len(), |i: int| node_name(s, id, n.deps[i])),
        None => seq![],
    }
}

/// The call to write where a signal was read.
#[verifier::opaque]
pub open spec fn signal_call_hint(s: State, name: Seq<char>) -> Seq<char> {
    match s.reactor {
        None => name + "()"@,
        Some(id) => match s.node_place(id, name) {
            None => name + "()"@,
            Some(i) => name + "("@ + joined(dep_names(s, id, i), ", "@) + ")"@,
        },
    }
}

/// A reactor member that exists but is not in scope where it was written.
#[verifier::opaque]
pub open spec fn unreadable_member(s: State, name: Seq<char>, sort: Sort, span: Span) -> Report {
    match sort {
        Sort::Signal => if s.assigning {
            reports::signal_assigned(span, name)
        } else {
            reports::signal_read(span, name, signal_call_hint(s, name))
        },
        Sort::Input => reports::input_read(span, name),
        _ => reports::member_out_of_scope(span, name, sort.word()),
    }
}

// ---------------------------------------------------------------- variants

/// How a variant's fields would be written.
pub open spec fn payload_shape(v: model::VariantDef) -> Seq<Seq<char>> {
    Seq::new(
        v.fields.len(),
        |i: int|
            if v.positional {
                "…"@
            } else {
                v.fields[i].name + ": …"@
            },
    )
}

/// A dotted name that names an enum at its `first` segment: only a unit variant can be built
/// without an argument list.
#[verifier::opaque]
pub open spec fn check_variant_path(
    s: State,
    id: EnumId,
    path: ast::Path,
    first: int,
    expected: Option<model::Ty>,
    span: Span,
) -> (State, model::Expr) {
    if path.rest@.len() < first + 1 {
        (s.push(reports::names_an_enum(span, path.text(), enum_example(s, id))), failed(span))
    } else {
        let enum_name = path.segment(first).name@;
        let variant = path.segment(first + 1);
        let whole = path.rest@.len() == first + 1;
        match s.variant_place(id, variant.name@) {
            None => (
                s.push(reports::no_variant(variant.span, enum_name, variant.name@)),
                failed(span),
            ),
            Some(i) => if whole && (id == EnumId(OPTION) || id == EnumId(RESULT)) {
                bare_builtin(s, id == EnumId(OPTION), variant.name@, expected, span)
            } else {
                unit_variant(s, id, i, path, first, expected, span)
            },
        }
    }
}

/// A bare constructor of `Option` or `Result`.
#[verifier::opaque]
pub open spec fn bare_builtin(
    s: State,
    option: bool,
    name: Seq<char>,
    expected: Option<model::Ty>,
    span: Span,
) -> (State, model::Expr) {
    let (s1, plan) = if option {
        plan_option(s, name == "Some"@, seq![], expected, span)
    } else {
        plan_result(s, name == "Ok"@, seq![], expected, span)
    };
    without_arguments(s1, plan, span)
}

#[verifier::opaque]
pub open spec fn unit_variant(
    s: State,
    id: EnumId,
    index: int,
    path: ast::Path,
    first: int,
    expected: Option<model::Ty>,
    span: Span,
) -> (State, model::Expr) {
    let enum_name = path.segment(first).name@;
    let variant = path.segment(first + 1);
    let at = path.head.span.joined(variant.span);
    let v = s.enum_variants(id)[index];
    if v.fields.len() > 0 {
        (
            s.push(
                reports::carries_payload(
                    at,
                    enum_name,
                    variant.name@,
                    joined(payload_shape(v), ", "@),
                ),
            ),
            failed(span),
        )
    } else {
        let want = if path.rest@.len() == first + 1 {
            expected
        } else {
            None
        };
        let (s1, plan) = plan_variant(s, id, index as usize, seq![], want, at);
        let (s2, e) = without_arguments(s1, plan, at);
        project(s2, e, path.head.span, path.rest@.skip(first + 1))
    }
}

// ---------------------------------------------------------------- paths

/// A dotted name whose head is a namespace binding, as a value.
#[verifier::opaque]
pub open spec fn check_ns_path(
    s: State,
    path: ast::Path,
    expected: Option<model::Ty>,
    span: Span,
) -> (State, model::Expr) {
    if path.rest@.len() == 0 {
        (s.push(reports::namespace_not_value(span, path.head.name@)), failed(span))
    } else {
        let (s1, item) = resolve_ns(s, path);
        match item {
            Some(Some(NsItem::Enum(id))) => check_variant_path(s1, id, path, 1, expected, span),
            Some(Some(NsItem::Fn(_))) => (
                s1.push(reports::fn_not_value(span, path.text())),
                failed(span),
            ),
            Some(Some(NsItem::Struct(_))) => (
                s1.push(reports::struct_not_value(span, path.text())),
                failed(span),
            ),
            Some(Some(NsItem::Reactor(_))) => (
                s1.push(reports::reactor_not_value(span, path.text())),
                failed(span),
            ),
            _ => (s1, failed(span)),
        }
    }
}

/// A dotted name. A local answers before anything else could.
#[verifier::opaque]
pub open spec fn check_path(s: State, path: ast::Path, expected: Option<model::Ty>) -> (
    State,
    model::Expr,
) {
    let span = path.span;
    let head = path.head;
    match s.lookup_local(head.name@) {
        Some(local) => project(
            s,
            model::Expr {
                kind: model::ExprKind::Local(local),
                ty: s.local_ty(local),
                span: head.span,
            },
            head.span,
            path.rest@,
        ),
        None => if path.rest@.len() == 0 && builtin_variant(head.name@) {
            bare_builtin(
                s,
                head.name@ == "None"@ || head.name@ == "Some"@,
                head.name@,
                expected,
                span,
            )
        } else {
            check_far_path(s, path, expected)
        },
    }
}

/// A dotted name that no local answers for.
#[verifier::opaque]
pub open spec fn check_far_path(s: State, path: ast::Path, expected: Option<model::Ty>) -> (
    State,
    model::Expr,
) {
    let span = path.span;
    let head = path.head;
    match (s.member(head.name@), s.type_named(head.name@)) {
        (Some(sort), _) => (s.push(unreadable_member(s, head.name@, sort, span)), failed(span)),
        (None, Some(TypeName::Enum(id))) => if path.rest@.len() >= 1 {
            check_variant_path(s, id, path, 0, expected, span)
        } else {
            check_outer_path(s, path, expected)
        },
        _ => check_outer_path(s, path, expected),
    }
}

#[verifier::opaque]
pub open spec fn check_outer_path(s: State, path: ast::Path, expected: Option<model::Ty>) -> (
    State,
    model::Expr,
) {
    let span = path.span;
    let head = path.head;
    if s.namespace_named(head.name@) is Some {
        check_ns_path(s, path, expected, span)
    } else {
        (
            s.push(
                if path.rest@.len() == 0 && s.fn_named(head.name@) is Some {
                    reports::fn_not_value(span, head.name@)
                } else if s.trait_named(head.name@) is Some {
                    reports::trait_not_value(span, head.name@)
                } else {
                    reports::unknown_name(span, head.name@)
                },
            ),
            failed(span),
        )
    }
}

// ---------------------------------------------------------------- carrying it out

fn unshared_ty(t: &Ty) -> (r: &Ty)
    ensures
        r@ == unshared(t@),
    decreases t,
{
    match t {
        Ty::Shared(inner) => unshared_ty(inner),
        _ => t,
    }
}

impl Checker {
    pub fn node_name(&self, id: ReactorId, node: NodeId) -> (r: String)
        ensures
            r@ == node_name(self@, id, node),
    {
        proof {
            reveal(Checker::view);
            reveal(State::node);
            reveal(State::reactor_nodes);
        }
        if id.index() < self.program.reactors.len() {
            let nodes = &self.program.reactors[id.index()].nodes;
            if node.index() < nodes.len() {
                return nodes[node.index()].name.clone();
            }
        }
        "_".to_owned()
    }

    pub fn node_ty(&self, id: ReactorId, node: NodeId) -> (r: Ty)
        ensures
            r@ == node_ty(self@, id, node),
    {
        match self.node(id, node.index()) {
            Some((_, ty, _)) => ty,
            None => Ty::Error,
        }
    }

    pub fn node_deps(&self, id: ReactorId, node: usize) -> (r: Vec<NodeId>)
        ensures
            r@ == match self@.node(id, node as int) {
                Some(n) => n.deps,
                None => seq![],
            },
    {
        proof {
            reveal(Checker::view);
            reveal(State::node);
            reveal(State::reactor_nodes);
        }
        if id.index() < self.program.reactors.len() {
            let nodes = &self.program.reactors[id.index()].nodes;
            if node < nodes.len() {
                return copies::plain(&nodes[node].deps);
            }
        }
        let r: Vec<NodeId> = Vec::new();
        assert(r@ =~= seq![]);
        r
    }

    fn export_place(&self, id: ReactorId, name: &str) -> (r: Option<usize>)
        ensures
            copies::as_place(r) == place_of(export_names(self@, id), name@),
            r matches Some(i) ==> i < self@.reactor_exports(id).len(),
    {
        let exports = self.reactor_exports(id);
        let mut names: Vec<String> = Vec::new();
        for i in 0..exports.len()
            invariant
                exports@ == self@.reactor_exports(id),
                names.len() == i,
                forall|j: int|
                    0 <= j < i ==> #[trigger] names@[j]@ == node_name(self@, id, exports@[j]),
        {
            names.push(self.node_name(id, exports[i]));
        }
        proof {
            reveal(export_names);
        }
        assert(texts(names@) =~= export_names(self@, id));
        copies::place(&names, name)
    }

    fn hidden_node(&self, id: ReactorId, name: &str) -> (r: bool)
        ensures
            r == hidden_node(self@, id, name@),
    {
        match self.node_place(id, name) {
            Some(i) => match self.node(id, i) {
                Some((_, _, exported)) => !exported,
                None => false,
            },
            None => false,
        }
    }

    fn handle_member(&mut self, base: Expr, id: ReactorId, name: &ast::Ident, span: Span) -> (r:
        Expr)
        ensures
            final(self)@ == handle_member(old(self)@, base@, id, *name, span).0,
            r@ == handle_member(old(self)@, base@, id, *name, span).1,
    {
        proof {
            reveal(handle_member);
        }
        if let Some(index) = self.input_place(id, name.name.as_str()) {
            let ty = match self.input(id, index) {
                Some((_, ty)) => ty,
                None => Ty::Error,
            };
            assert(ty@ == input_ty(self@, id, index as int));
            return make(
                ExprKind::ReactorInput { reactor: Box::new(base), index },
                Ty::Input(Box::new(ty)),
                span,
            );
        }
        if let Some(index) = self.export_place(id, name.name.as_str()) {
            let exports = self.reactor_exports(id);
            let ty = self.node_ty(id, exports[index]);
            return make(
                ExprKind::ReactorExport { reactor: Box::new(base), index },
                Ty::Signal(Box::new(ty)),
                span,
            );
        }
        let reactor = self.reactor_name(id);
        if self.hidden_node(id, name.name.as_str()) {
            self.push(say::member_private(name.span, reactor.as_str(), name.name.as_str()));
        } else {
            self.push(say::member_unknown(name.span, reactor.as_str(), name.name.as_str()));
        }
        error_expr(span)
    }

    pub fn field_access(&mut self, base: Expr, name: &ast::Ident, span: Span) -> (r: Expr)
        ensures
            final(self)@ == field_access(old(self)@, base@, *name, span).0,
            r@ == field_access(old(self)@, base@, *name, span).1,
    {
        proof {
            reveal(field_access);
            base.look();
        }
        match &base.ty {
            Ty::Error => {
                return error_expr(span);
            },
            Ty::Reactor(id) => {
                let id = *id;
                return self.handle_member(base, id, name, span);
            },
            _ => {},
        }
        match unshared_ty(owned_ty(&base.ty)) {
            Ty::Struct(id) => {
                let fields = self.struct_fields(*id);
                let (names, types) = copies::field_lists(&fields);
                match copies::place(&names, name.name.as_str()) {
                    None => {
                        let strukt = self.struct_name(*id);
                        self.push(
                            say::no_field(name.span, strukt.as_str(), name.name.as_str()),
                        );
                        return error_expr(span);
                    },
                    Some(index) => {
                        assert(fields_of(fields@)[index as int] == fields@[index as int]@);
                        let ty = fields[index].ty.copy();
                        return make(ExprKind::Field { base: Box::new(base), index }, ty, span);
                    },
                }
            },
            _ => {
                let ty = self.ty_name(&base.ty);
                let d = say::no_fields(span, ty.as_str(), name.name.as_str());
                let d = self.with_opaque_note(d, &base.ty);
                self.push(d);
                return error_expr(span);
            },
        }
    }

    /// Field accesses over the segments of a path from `from` on.
    fn project(&mut self, e: Expr, head: Span, rest: &Vec<ast::Ident>, from: usize) -> (r: Expr)
        requires
            from <= rest.len(),
        ensures
            final(self)@ == project(old(self)@, e@, head, rest@.skip(from as int)).0,
            r@ == project(old(self)@, e@, head, rest@.skip(from as int)).1,
    {
        let ghost start = self@;
        let ghost first = e@;
        let ghost all = rest@.skip(from as int);
        let mut r = e;
        assert(all.take(0) =~= seq![]);
        for i in from..rest.len()
            invariant
                from <= i <= rest.len(),
                all == rest@.skip(from as int),
                self@ == project(start, first, head, all.take(i - from)).0,
                r@ == project(start, first, head, all.take(i - from)).1,
        {
            assert(all.take(i + 1 - from).drop_last() =~= all.take(i - from));
            assert(all.take(i + 1 - from).last() == rest@[i as int]);
            r = self.field_access(r, &rest[i], head.to(rest[i].span));
        }
        assert(all.take(rest.len() - from) =~= all);
        r
    }

    /// Field accesses over all segments but the last.
    pub fn project_front(&mut self, e: Expr, head: Span, rest: &Vec<ast::Ident>) -> (r: Expr)
        requires
            rest.len() > 0,
        ensures
            final(self)@ == project(old(self)@, e@, head, rest@.drop_last()).0,
            r@ == project(old(self)@, e@, head, rest@.drop_last()).1,
    {
        let ghost start = self@;
        let ghost first = e@;
        let ghost all = rest@.drop_last();
        let last: usize = rest.len() - 1;
        let mut r = e;
        assert(all.take(0) =~= seq![]);
        for i in 0..last
            invariant
                last == rest.len() - 1,
                all == rest@.drop_last(),
                self@ == project(start, first, head, all.take(i as int)).0,
                r@ == project(start, first, head, all.take(i as int)).1,
        {
            assert(all.take(i + 1).drop_last() =~= all.take(i as int));
            assert(all.take(i + 1).last() == rest@[i as int]);
            r = self.field_access(r, &rest[i], head.to(rest[i].span));
        }
        assert(all.take(last as int) =~= all);
        r
    }

    pub fn dep_names(&self, id: ReactorId, node: usize) -> (r: Vec<String>)
        ensures
            texts(r@) == dep_names(self@, id, node as int),
    {
        let deps = self.node_deps(id, node);
        let mut names: Vec<String> = Vec::new();
        for i in 0..deps.len()
            invariant
                names.len() == i,
                forall|j: int|
                    0 <= j < i ==> #[trigger] names@[j]@ == node_name(self@, id, deps@[j]),
        {
            names.push(self.node_name(id, deps[i]));
        }
        proof {
            reveal(dep_names);
        }
        assert(texts(names@) =~= dep_names(self@, id, node as int));
        names
    }

    fn signal_call_hint(&self, name: &str) -> (r: String)
        ensures
            r@ == signal_call_hint(self@, name@),
    {
        proof {
            reveal(signal_call_hint);
        }
        let id = match self.reactor() {
            None => {
                return name.to_owned().concat("()");
            },
            Some(id) => id,
        };
        match self.node_place(id, name) {
            None => name.to_owned().concat("()"),
            Some(i) => {
                let deps = self.dep_names(id, i);
                let list = join(&deps, ", ");
                name.to_owned().concat("(").concat(list.as_str()).concat(")")
            },
        }
    }

    pub fn unreadable_member(&mut self, name: &str, sort: Sort, span: Span)
        ensures
            final(self)@ == old(self)@.push(unreadable_member(old(self)@, name@, sort, span)),
    {
        proof {
            reveal(unreadable_member);
        }
        match sort {
            Sort::Signal => {
                if self.assigning() {
                    self.push(say::signal_assigned(span, name));
                } else {
                    let call = self.signal_call_hint(name);
                    self.push(say::signal_read(span, name, call.as_str()));
                }
            },
            Sort::Input => self.push(say::input_read(span, name)),
            _ => self.push(say::member_out_of_scope(span, name, sort.describe())),
        }
    }

    fn check_variant_path(
        &mut self,
        id: EnumId,
        path: &ast::Path,
        first: usize,
        expected: &Option<Ty>,
        span: Span,
    ) -> (r: Expr)
        requires
            first <= 1,
        ensures
            final(self)@ == check_variant_path(
                old(self)@,
                id,
                *path,
                first as int,
                maybe(*expected),
                span,
            ).0,
            r@ == check_variant_path(
                old(self)@,
                id,
                *path,
                first as int,
                maybe(*expected),
                span,
            ).1,
    {
        proof {
            reveal(check_variant_path);
        }
        if path.rest.len() < first + 1 {
            let text = path.written();
            let example = self.enum_example(id);
            self.push(say::names_an_enum(span, text.as_str(), example.as_str()));
            return error_expr(span);
        }
        let enum_name = if first == 0 {
            path.head.name.as_str()
        } else {
            path.rest[first - 1].name.as_str()
        };
        let variant = &path.rest[first];
        let index: usize = match self.variant_place(id, variant.name.as_str()) {
            None => {
                self.push(say::no_variant(variant.span, enum_name, variant.name.as_str()));
                return error_expr(span);
            },
            Some(index) => index,
        };
        if path.rest.len() == first + 1 && (id == EnumId(OPTION) || id == EnumId(RESULT)) {
            return self.bare_builtin(id == EnumId(OPTION), variant.name.as_str(), expected, span);
        }
        self.unit_variant(id, index, path, first, expected, span)
    }

    fn bare_builtin(&mut self, option: bool, name: &str, expected: &Option<Ty>, span: Span) -> (r:
        Expr)
        ensures
            final(self)@ == bare_builtin(old(self)@, option, name@, maybe(*expected), span).0,
            r@ == bare_builtin(old(self)@, option, name@, maybe(*expected), span).1,
    {
        proof {
            reveal(bare_builtin);
        }
        let none: Vec<ast::Arg> = Vec::new();
        assert(none@ =~= seq![]);
        let plan = if option {
            self.plan_option(same(name, "Some"), &none, expected, span)
        } else {
            self.plan_result(same(name, "Ok"), &none, expected, span)
        };
        self.without_arguments(plan, span)
    }

    fn unit_variant(
        &mut self,
        id: EnumId,
        index: usize,
        path: &ast::Path,
        first: usize,
        expected: &Option<Ty>,
        span: Span,
    ) -> (r: Expr)
        requires
            first <= 1,
            path.rest.len() >= first + 1,
            index < old(self)@.enum_variants(id).len(),
        ensures
            final(self)@ == unit_variant(
                old(self)@,
                id,
                index as int,
                *path,
                first as int,
                maybe(*expected),
                span,
            ).0,
            r@ == unit_variant(
                old(self)@,
                id,
                index as int,
                *path,
                first as int,
                maybe(*expected),
                span,
            ).1,
    {
        proof {
            reveal(unit_variant);
        }
        let enum_name = if first == 0 {
            path.head.name.as_str()
        } else {
            path.rest[first - 1].name.as_str()
        };
        let variant = &path.rest[first];
        let at = path.head.span.to(variant.span);
        let variants = self.enum_variants(id);
        assert(variants_of(variants@).len() == variants@.len());
        assert(variants_of(variants@)[index as int] == variants@[index as int]@);
        let shape = payload_text(&variants[index]);
        if variants[index].fields.len() > 0 {
            let list = join(&shape, ", ");
            self.push(
                say::carries_payload(at, enum_name, variant.name.as_str(), list.as_str()),
            );
            return error_expr(span);
        }
        let none: Vec<ast::Arg> = Vec::new();
        assert(none@ =~= seq![]);
        let plan = if path.rest.len() == first + 1 {
            self.plan_variant(id, index, &none, expected, at)
        } else {
            self.plan_variant(id, index, &none, &None, at)
        };
        let e = self.without_arguments(plan, at);
        self.project(e, path.head.span, &path.rest, first + 1)
    }

    fn check_ns_path(&mut self, path: &ast::Path, expected: &Option<Ty>, span: Span) -> (r: Expr)
        ensures
            final(self)@ == check_ns_path(old(self)@, *path, maybe(*expected), span).0,
            r@ == check_ns_path(old(self)@, *path, maybe(*expected), span).1,
    {
        proof {
            reveal(check_ns_path);
        }
        if path.rest.len() == 0 {
            self.push(say::namespace_not_value(span, path.head.name.as_str()));
            return error_expr(span);
        }
        let text = path.written();
        match self.resolve_ns(path) {
            Some(Some(NsItem::Enum(id))) => {
                return self.check_variant_path(id, path, 1, expected, span);
            },
            Some(Some(NsItem::Fn(_))) => self.push(say::fn_not_value(span, text.as_str())),
            Some(Some(NsItem::Struct(_))) => self.push(say::struct_not_value(span, text.as_str())),
            Some(Some(NsItem::Reactor(_))) => self.push(
                say::reactor_not_value(span, text.as_str()),
            ),
            _ => {},
        }
        error_expr(span)
    }

    /// A dotted name in an expression.
    pub fn check_path(&mut self, path: &ast::Path, expected: &Option<Ty>) -> (r: Expr)
        ensures
            final(self)@ == check_path(old(self)@, *path, maybe(*expected)).0,
            r@ == check_path(old(self)@, *path, maybe(*expected)).1,
    {
        proof {
            reveal(check_path);
        }
        let head = &path.head;
        if let Some(local) = self.lookup_local(head.name.as_str()) {
            let ty = self.local_ty(local);
            let e = make(ExprKind::Local(local), ty, head.span);
            assert(path.rest@.skip(0) =~= path.rest@);
            return self.project(e, head.span, &path.rest, 0);
        }
        if path.rest.len() == 0 && is_builtin_variant(head.name.as_str()) {
            let option = same(head.name.as_str(), "None") || same(head.name.as_str(), "Some");
            return self.bare_builtin(option, head.name.as_str(), expected, path.span);
        }
        self.check_far_path(path, expected)
    }

    fn check_far_path(&mut self, path: &ast::Path, expected: &Option<Ty>) -> (r: Expr)
        ensures
            final(self)@ == check_far_path(old(self)@, *path, maybe(*expected)).0,
            r@ == check_far_path(old(self)@, *path, maybe(*expected)).1,
    {
        proof {
            reveal(check_far_path);
        }
        let head = &path.head;
        if let Some(sort) = self.member(head.name.as_str()) {
            self.unreadable_member(head.name.as_str(), sort, path.span);
            return error_expr(path.span);
        }
        if let Some(TypeName::Enum(id)) = self.type_named(head.name.as_str()) {
            if path.rest.len() >= 1 {
                return self.check_variant_path(id, path, 0, expected, path.span);
            }
        }
        self.check_outer_path(path, expected)
    }

    fn check_outer_path(&mut self, path: &ast::Path, expected: &Option<Ty>) -> (r: Expr)
        ensures
            final(self)@ == check_outer_path(old(self)@, *path, maybe(*expected)).0,
            r@ == check_outer_path(old(self)@, *path, maybe(*expected)).1,
    {
        proof {
            reveal(check_outer_path);
        }
        let head = path.head.name.as_str();
        if self.namespace_named(head).is_some() {
            return self.check_ns_path(path, expected, path.span);
        }
        if path.rest.len() == 0 && self.fn_named(head).is_some() {
            self.push(say::fn_not_value(path.span, head));
        } else if self.trait_named(head).is_some() {
            self.push(say::trait_not_value(path.span, head));
        } else {
            self.push(say::unknown_name(path.span, head));
        }
        error_expr(path.span)
    }
}

fn payload_text(v: &VariantDef) -> (r: Vec<String>)
    ensures
        texts(r@) == payload_shape(v@),
        r.len() == v.fields.len(),
{
    let mut r: Vec<String> = Vec::new();
    for i in 0..v.fields.len()
        invariant
            r.len() == i,
            forall|j: int| 0 <= j < i ==> #[trigger] r@[j]@ == payload_shape(v@)[j],
    {
        if v.positional {
            r.push("…".to_owned());
        } else {
            r.push(v.fields[i].name.clone().concat(": …"));
        }
    }
    assert(texts(r@) =~= payload_shape(v@));
    r
}

} // verus!
