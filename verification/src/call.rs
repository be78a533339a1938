//! Calls: what a callee names, and what it then asks of its arguments.

use vstd::prelude::*;
use vstd::string::*;
use crate::ast;
use crate::binding::{is_builtin_variant, require_task_authority};
use crate::checker::{error_expr, failed, make, maybe, Checker};
use crate::copies::{self, field_names, first_halves, place_of, second_halves};
use crate::hir::{
    bindings, impls_of, named_tys, tys, Builtin, BuiltinDef, Capability, EnumId, Expr, ExprKind,
    FnId, Mode, NodeKind, ReactorId, StructId, TraitId, Ty, OPTION, RESULT,
};
use crate::instances::{
    explicit_enum_instance, explicit_struct_instance, maybe_tys, provided_as, request_trait_call,
    with_opaque_note,
};
use crate::model;
use crate::pat::{enum_example, field_suffix};
use crate::path::{dep_names, field_access, node_ty, project};
use crate::plan::{
    argument_order, each_of, in_order, named_args, plan_fn, plan_option, plan_result, plan_struct,
    plan_variant, wanted, wanted_tys, Finish, FinishMade, Plan, PlanMade,
};
use crate::reports;
use crate::resolve::resolve_ns;
use crate::say;
use crate::span::{texts, Diagnostic, Report, Span};
use crate::state::{builtin_variant, NsItem, Sort, State, TypeName};
use crate::text::{decimal, join, joined, number, same};
use crate::turns::{impure, impure_report};
use crate::types::same_ty;

verus! {

pub open spec fn over(s: State, r: Report, span: Span) -> (State, Plan) {
    (s.push(r), Plan::Done(failed(span)))
}

// ---------------------------------------------------------------- builtins

pub open spec fn builtin_names(s: Seq<model::BuiltinDef>) -> Seq<Seq<char>> {
    Seq::new(s.len(), |i: int| s[i].name)
}

/// The builtin a bare name calls. Indexing has no name of its own.
#[verifier::opaque]
pub open spec fn builtin_named(v: model::Vocabulary, name: Seq<char>) -> Option<Builtin> {
    if name == v.send.name {
        Some(Builtin::Send)
    } else if name == v.latest.name {
        Some(Builtin::Latest)
    } else if name == v.shared.name {
        Some(Builtin::Shared)
    } else if name == v.slots_new.name {
        Some(Builtin::SlotsNew)
    } else {
        match place_of(builtin_names(v.host), name) {
            Some(i) => Some(Builtin::Host(i as u32)),
            None => None,
        }
    }
}

/// A builtin's entry.
#[verifier::opaque]
pub open spec fn builtin_def(v: model::Vocabulary, b: Builtin) -> model::BuiltinDef {
    if v.knows(b) {
        v.builtin(b)
    } else {
        model::BuiltinDef {
            name: "_"@,
            params: seq![],
            ret: model::Ty::Error,
            pure_call: true,
            is_task: false,
            needs: seq![],
        }
    }
}

/// What each argument of a builtin has to be: nothing in particular where any type will do.
pub open spec fn builtin_wants(params: Seq<(model::Ty, Mode)>) -> Seq<Option<model::Ty>> {
    Seq::new(
        params.len(),
        |i: int|
            if params[i].0 is Error {
                None
            } else {
                Some(params[i].0)
            },
    )
}

#[verifier::opaque]
pub open spec fn plan_builtin(s: State, b: Builtin, args: Seq<ast::Arg>, span: Span) -> (
    State,
    Plan,
) {
    let def = builtin_def(s.vocabulary, b);
    if s.ctx.is_turn() && !def.pure_call {
        over(s, impure_report(def.name, "is something the world can see happen"@, span), span)
    } else if args.len() != def.params.len() || named_args(args) > 0 {
        over(
            s,
            reports::builtin_arity(
                span,
                def.name,
                decimal(def.params.len()),
                field_suffix(def.params.len()),
            ),
            span,
        )
    } else {
        let (s1, allowed) = if def.is_task {
            require_task_authority(s, def.name, def.needs, span)
        } else {
            (s, true)
        };
        if !allowed {
            (s1, Plan::Done(failed(span)))
        } else {
            (
                s1,
                match b {
                    Builtin::Send => Plan::Send,
                    Builtin::Latest => Plan::Latest,
                    _ => Plan::Each {
                        wants: builtin_wants(def.params),
                        order: in_order(args.len()),
                        finish: Finish::Builtin { builtin: b, ret: def.ret },
                    },
                },
            )
        }
    }
}

// ---------------------------------------------------------------- methods

pub open spec fn tail<T>(s: Seq<T>) -> Seq<T> {
    if s.len() == 0 {
        s
    } else {
        s.skip(1)
    }
}

/// A method as a plain call: the receiver becomes the first argument.
#[verifier::opaque]
pub open spec fn plan_method_of(
    s: State,
    id: FnId,
    display: Seq<char>,
    receiver: model::Expr,
    args: Seq<ast::Arg>,
    span: Span,
) -> (State, Plan) {
    let params = tail(s.signature(id).0);
    each_of(
        argument_order(s, first_halves(params), args, display, "parameter"@, span),
        wanted(second_halves(params)),
        Finish::Plain { callee: id, receiver: Some(receiver), ret: s.signature(id).1 },
        span,
    )
}

/// The traits among some bounds that have a method.
pub open spec fn providing(s: State, bounds: Seq<TraitId>, method: Seq<char>) -> Seq<TraitId>
    decreases bounds.len(),
{
    if bounds.len() == 0 {
        seq![]
    } else if s.method_place(bounds.last(), method) is Some {
        providing(s, bounds.drop_last(), method).push(bounds.last())
    } else {
        providing(s, bounds.drop_last(), method)
    }
}

pub open spec fn quoted_traits(s: State, list: Seq<TraitId>) -> Seq<Seq<char>> {
    Seq::new(list.len(), |i: int| "`"@ + s.trait_name(list[i]) + "`"@)
}

/// One note for each trait that provides the method.
pub open spec fn with_providers(s: State, r: Report, list: Seq<TraitId>) -> Report
    decreases list.len(),
{
    if list.len() == 0 {
        r
    } else {
        with_providers(s, r, list.drop_last()).note(
            "`"@ + s.trait_name(list.last()) + "` provides one"@,
        )
    }
}

/// A method of a bare type parameter comes from a declared bound.
#[verifier::opaque]
pub open spec fn plan_param_method(
    s: State,
    receiver: model::Expr,
    index: u32,
    name: Seq<char>,
    method: ast::Ident,
    args: Seq<ast::Arg>,
    span: Span,
) -> (State, Plan) {
    let bounds = s.bounds_of(index);
    let found = providing(s, bounds, method.name@);
    if bounds.len() == 0 {
        over(
            s,
            with_opaque_note(
                s,
                reports::bare_param_method(span, name, method.name@),
                receiver.ty,
            ),
            span,
        )
    } else if found.len() == 0 {
        over(
            s,
            reports::no_bound_provides(
                method.span,
                name,
                method.name@,
                joined(quoted_traits(s, bounds), ", "@),
            ),
            span,
        )
    } else if found.len() == 1 {
        let (s1, stub) = request_trait_call(s, found[0], method.name@, receiver.ty, span);
        plan_method_of(s1, stub, name + "."@ + method.name@, receiver, args, span)
    } else {
        over(
            s,
            with_providers(
                s,
                reports::ambiguous_bounds(method.span, name, method.name@),
                found,
            ),
            span,
        )
    }
}

/// Every impl that provides a method for a type, in declaration order.
pub open spec fn candidates(
    impls: Seq<model::ImplDef>,
    ty: model::Ty,
    method: Seq<char>,
) -> Seq<(TraitId, FnId)>
    decreases impls.len(),
{
    if impls.len() == 0 {
        seq![]
    } else {
        let before = candidates(impls.drop_last(), ty, method);
        let i = impls.last();
        if i.receiver.fits(ty) && ty.fits(i.receiver) {
            match provided_as(i.methods, method) {
                Some(id) => before.push((i.trait_id, id)),
                None => before,
            }
        } else {
            before
        }
    }
}

pub open spec fn traits_among(list: Seq<(TraitId, FnId)>) -> Seq<TraitId> {
    Seq::new(list.len(), |i: int| list[i].0)
}

pub open spec fn is_field(s: State, ty: model::Ty, name: Seq<char>) -> bool {
    match ty {
        model::Ty::Struct(id) => place_of(field_names(s.struct_fields(id)), name) is Some,
        _ => false,
    }
}

/// A method of a concrete type comes from the one impl that provides it.
#[verifier::opaque]
pub open spec fn plan_type_method(
    s: State,
    receiver: model::Expr,
    method: ast::Ident,
    args: Seq<ast::Arg>,
    span: Span,
) -> (State, Plan) {
    let found = candidates(s.impls, receiver.ty, method.name@);
    let ty = s.ty_name(receiver.ty);
    if found.len() == 0 {
        if is_field(s, receiver.ty, method.name@) {
            over(s, reports::field_not_method(method.span, method.name@, ty), span)
        } else {
            over(s, reports::no_method(method.span, ty, method.name@), span)
        }
    } else if found.len() == 1 {
        plan_method_of(s, found[0].1, ty + "."@ + method.name@, receiver, args, span)
    } else {
        over(
            s,
            with_providers(
                s,
                reports::ambiguous_method(method.span, ty, method.name@),
                traits_among(found),
            ).note(
                "methods share one name and functions do not: call the function form the impl delegates to"@,
            ),
            span,
        )
    }
}

/// A method call, whatever expression the value is.
#[verifier::opaque]
pub open spec fn plan_method(
    s: State,
    receiver: model::Expr,
    method: ast::Ident,
    explicit: Option<Seq<model::Ty>>,
    args: Seq<ast::Arg>,
    span: Span,
) -> (State, Plan) {
    if receiver.ty is Error {
        (s, Plan::Done(failed(span)))
    } else if explicit is Some {
        over(s, reports::method_type_args(span, method.name@), span)
    } else {
        match receiver.ty {
            model::Ty::Reactor(_) => {
                let (s1, member) = field_access(s, receiver, method, span);
                match member.ty {
                    model::Ty::Error => (s1, Plan::Done(failed(span))),
                    model::Ty::Input(_) => over(
                        s1,
                        reports::input_not_method(span, method.name@),
                        span,
                    ),
                    _ => over(s1, reports::signal_not_method(span, method.name@), span),
                }
            },
            model::Ty::Param { index, name } => plan_param_method(
                s,
                receiver,
                index,
                name,
                method,
                args,
                span,
            ),
            _ => plan_type_method(s, receiver, method, args, span),
        }
    }
}

// ---------------------------------------------------------------- reactor members

pub open spec fn dep_tys(s: State, id: ReactorId, node: int) -> Seq<model::Ty> {
    match s.node(id, node) {
        Some(n) => Seq::new(n.deps.len(), |i: int| node_ty(s, id, n.deps[i])),
        None => seq![],
    }
}

/// A reactor member in call position. Naming a signal reuses its value; calling one reuses its
/// definition, applied to the arguments written.
#[verifier::opaque]
pub open spec fn plan_member(
    s: State,
    name: Seq<char>,
    name_span: Span,
    args: Seq<ast::Arg>,
    span: Span,
) -> (State, Plan) {
    match (s.member(name), s.reactor) {
        (Some(sort), Some(id)) => match sort {
            Sort::State => over(s, reports::state_not_fn(name_span, name), span),
            Sort::Param => over(s, reports::reactor_param_not_fn(name_span, name), span),
            Sort::Input => over(s, reports::input_not_fn(name_span, name), span),
            Sort::Signal => plan_signal(s, id, name, args, span),
        },
        _ => over(s, reports::unknown_function(name_span, name), span),
    }
}

#[verifier::opaque]
pub open spec fn plan_signal(
    s: State,
    id: ReactorId,
    name: Seq<char>,
    args: Seq<ast::Arg>,
    span: Span,
) -> (State, Plan) {
    match s.node_place(id, name) {
        None => (s, Plan::Done(failed(span))),
        Some(i) => match s.node(id, i) {
            None => (s, Plan::Done(failed(span))),
            Some(n) => match n.kind {
                NodeKind::Signal { body } => each_of(
                    argument_order(
                        s,
                        dep_names(s, id, i),
                        args,
                        name,
                        "parameter"@,
                        span,
                    ),
                    wanted(dep_tys(s, id, i)),
                    Finish::Plain { callee: body, receiver: None, ret: n.ty },
                    span,
                ),
                _ => (s, Plan::Done(failed(span))),
            },
        },
    }
}

// ---------------------------------------------------------------- calls by name

/// A struct built by a call, with or without its type arguments.
#[verifier::opaque]
pub open spec fn plan_struct_call(
    s: State,
    id: StructId,
    explicit: Option<Seq<model::Ty>>,
    args: Seq<ast::Arg>,
    expected: Option<model::Ty>,
    span: Span,
) -> (State, Plan) {
    match explicit {
        None => plan_struct(s, id, args, expected, span),
        Some(types) => {
            let (s1, made) = explicit_struct_instance(s, id, types, span);
            match made {
                None => (s1, Plan::Done(failed(span))),
                Some(instance) => plan_struct(s1, instance, args, expected, span),
            }
        },
    }
}

/// A variant built by a call, with or without its enum's type arguments.
#[verifier::opaque]
pub open spec fn plan_variant_call(
    s: State,
    id: EnumId,
    index: usize,
    explicit: Option<Seq<model::Ty>>,
    args: Seq<ast::Arg>,
    expected: Option<model::Ty>,
    span: Span,
) -> (State, Plan) {
    match explicit {
        None => plan_variant(s, id, index, args, expected, span),
        Some(types) => {
            let (s1, made) = explicit_enum_instance(s, id, types, span);
            match made {
                None => (s1, Plan::Done(failed(span))),
                Some(instance) => plan_variant(s1, instance, index, args, expected, span),
            }
        },
    }
}

/// A call of a bare constructor name.
#[verifier::opaque]
pub open spec fn plan_bare(
    s: State,
    option: bool,
    name: Seq<char>,
    shown: Seq<char>,
    explicit: Option<Seq<model::Ty>>,
    args: Seq<ast::Arg>,
    expected: Option<model::Ty>,
    span: Span,
) -> (State, Plan) {
    if explicit is Some {
        over(s, reports::ctor_type_args(span, shown), span)
    } else if option {
        plan_option(s, name == "Some"@, args, expected, span)
    } else {
        plan_result(s, name == "Ok"@, args, expected, span)
    }
}

/// A call of one name, no bare constructor.
#[verifier::opaque]
pub open spec fn plan_name(
    s: State,
    name: Seq<char>,
    name_span: Span,
    explicit: Option<Seq<model::Ty>>,
    args: Seq<ast::Arg>,
    expected: Option<model::Ty>,
    span: Span,
) -> (State, Plan) {
    match builtin_named(s.vocabulary, name) {
        Some(b) => if explicit is Some {
            over(s, reports::builtin_type_args(span, name), span)
        } else {
            plan_builtin(s, b, args, span)
        },
        None => match s.fn_named(name) {
            Some(id) => plan_fn(s, id, name, explicit, args, expected, span),
            None => plan_other_name(s, name, name_span, explicit, args, expected, span),
        },
    }
}

/// A call of a name that is no function: a construction, a signal, or a mistake.
#[verifier::opaque]
pub open spec fn plan_other_name(
    s: State,
    name: Seq<char>,
    name_span: Span,
    explicit: Option<Seq<model::Ty>>,
    args: Seq<ast::Arg>,
    expected: Option<model::Ty>,
    span: Span,
) -> (State, Plan) {
    if s.type_params.contains(name) {
        over(s, reports::param_not_ctor(span, name, s.fn_name), span)
    } else {
        match s.type_named(name) {
            Some(TypeName::Struct(id)) => plan_struct_call(
                s,
                id,
                explicit,
                args,
                expected,
                span,
            ),
            Some(TypeName::Enum(id)) => over(
                s,
                reports::names_an_enum(name_span, name, enum_example(s, id)),
                span,
            ),
            Some(TypeName::Reactor(_)) => over(
                s,
                reports::reactor_not_fn(name_span, name),
                span,
            ),
            _ => if s.trait_named(name) is Some {
                over(s, reports::trait_not_fn(name_span, name), span)
            } else if explicit is Some {
                over(s, reports::no_type_args(span, name), span)
            } else {
                plan_member(s, name, name_span, args, span)
            },
        }
    }
}

/// A dotted call whose head is a namespace binding.
#[verifier::opaque]
pub open spec fn plan_ns(
    s: State,
    path: ast::Path,
    explicit: Option<Seq<model::Ty>>,
    args: Seq<ast::Arg>,
    expected: Option<model::Ty>,
    span: Span,
) -> (State, Plan) {
    let (s1, item) = resolve_ns(s, path);
    match item {
        Some(Some(item)) => if path.rest@.len() == 1 {
            match item {
                NsItem::Fn(id) => plan_fn(s1, id, path.text(), explicit, args, expected, span),
                NsItem::Struct(id) => plan_struct_call(s1, id, explicit, args, expected, span),
                NsItem::Enum(id) => over(
                    s1,
                    reports::names_an_enum(path.span, path.text(), enum_example(s1, id)),
                    span,
                ),
                NsItem::Reactor(_) => over(
                    s1,
                    reports::reactor_not_fn(path.span, path.text()),
                    span,
                ),
            }
        } else {
            match item {
                NsItem::Enum(id) => if path.rest@.len() == 2 {
                    plan_ns_variant(s1, id, path, explicit, args, expected, span)
                } else {
                    over(s1, reports::unknown_function(path.span, path.text()), span)
                },
                _ => over(s1, reports::unknown_function(path.span, path.text()), span),
            }
        },
        _ => (s1, Plan::Done(failed(span))),
    }
}

#[verifier::opaque]
pub open spec fn plan_ns_variant(
    s: State,
    id: EnumId,
    path: ast::Path,
    explicit: Option<Seq<model::Ty>>,
    args: Seq<ast::Arg>,
    expected: Option<model::Ty>,
    span: Span,
) -> (State, Plan) {
    let variant = path.rest@[1];
    match s.variant_place(id, variant.name@) {
        None => over(
            s,
            reports::no_variant(
                variant.span,
                path.head.name@ + "."@ + path.rest@[0].name@,
                variant.name@,
            ),
            span,
        ),
        Some(i) => plan_variant_call(s, id, i as usize, explicit, args, expected, span),
    }
}

/// `Enum.Variant(…)`: a construction spelled like a call.
#[verifier::opaque]
pub open spec fn plan_enum_variant(
    s: State,
    id: EnumId,
    path: ast::Path,
    explicit: Option<Seq<model::Ty>>,
    args: Seq<ast::Arg>,
    expected: Option<model::Ty>,
    span: Span,
) -> (State, Plan) {
    let head = path.head.name@;
    let variant = path.rest@[0];
    match s.variant_place(id, variant.name@) {
        None => over(s, reports::no_variant(variant.span, head, variant.name@), span),
        Some(i) => if id == EnumId(OPTION) || id == EnumId(RESULT) {
            plan_bare(
                s,
                id == EnumId(OPTION),
                variant.name@,
                head + "."@ + variant.name@,
                explicit,
                args,
                expected,
                span,
            )
        } else {
            plan_variant_call(s, id, i as usize, explicit, args, expected, span)
        },
    }
}

/// A call of a dotted name.
#[verifier::opaque]
pub open spec fn plan_path(
    s: State,
    path: ast::Path,
    explicit: Option<Seq<model::Ty>>,
    args: Seq<ast::Arg>,
    expected: Option<model::Ty>,
    span: Span,
) -> (State, Plan) {
    let head = path.head.name@;
    if path.rest@.len() == 0 {
        if builtin_variant(head) {
            plan_bare(
                s,
                head == "None"@ || head == "Some"@,
                head,
                head,
                explicit,
                args,
                expected,
                span,
            )
        } else {
            plan_name(s, head, path.span, explicit, args, expected, span)
        }
    } else {
        match s.lookup_local(head) {
            Some(local) => {
                let (s1, receiver) = project(
                    s,
                    model::Expr {
                        kind: model::ExprKind::Local(local),
                        ty: s.local_ty(local),
                        span: path.head.span,
                    },
                    path.head.span,
                    path.rest@.drop_last(),
                );
                plan_method(s1, receiver, path.last(), explicit, args, span)
            },
            None => plan_far_path(s, path, explicit, args, expected, span),
        }
    }
}

#[verifier::opaque]
pub open spec fn plan_far_path(
    s: State,
    path: ast::Path,
    explicit: Option<Seq<model::Ty>>,
    args: Seq<ast::Arg>,
    expected: Option<model::Ty>,
    span: Span,
) -> (State, Plan) {
    let enum_head = match s.type_named(path.head.name@) {
        Some(TypeName::Enum(id)) => if path.rest@.len() == 1 {
            Some(id)
        } else {
            None
        },
        _ => None,
    };
    match enum_head {
        Some(id) => plan_enum_variant(s, id, path, explicit, args, expected, span),
        None => if s.namespace_named(path.head.name@) is Some {
            plan_ns(s, path, explicit, args, expected, span)
        } else {
            over(s, reports::unknown_function(path.span, path.text()), span)
        },
    }
}

// ---------------------------------------------------------------- reactors

/// Which reactor `spawn reactor` names.
#[verifier::opaque]
pub open spec fn spawned_reactor(s: State, path: ast::Path) -> (State, Option<ReactorId>) {
    if path.rest@.len() == 0 {
        match s.reactor_named(path.head.name@) {
            Some(id) => (s, Some(id)),
            None => (s.push(reports::unknown_reactor(path.span, path.text())), None),
        }
    } else if path.rest@.len() == 1 && s.namespace_named(path.head.name@) is Some {
        let (s1, item) = resolve_ns(s, path);
        match item {
            Some(Some(NsItem::Reactor(id))) => (s1, Some(id)),
            Some(Some(_)) => (s1.push(reports::not_a_reactor(path.span, path.text())), None),
            _ => (s1, None),
        }
    } else {
        (s.push(reports::unknown_reactor(path.span, path.text())), None)
    }
}

/// `spawn reactor Gate(limit: 8)`: owned by the scope that starts it.
#[verifier::opaque]
pub open spec fn plan_spawn_reactor(
    s: State,
    path: ast::Path,
    args: Seq<ast::Arg>,
    span: Span,
) -> (State, Plan) {
    if s.ctx.is_turn() {
        over(s, impure_report("spawn reactor"@, "creates a reactor"@, span), span)
    } else if !s.ctx.may_suspend() {
        over(s, reports::spawn_reactor_outside(span), span)
    } else if s.scope_depth == 0 {
        over(s, reports::spawn_reactor_unscoped(span), span)
    } else {
        let (s1, found) = spawned_reactor(s, path);
        match found {
            None => (s1, Plan::Done(failed(span))),
            Some(id) => each_of(
                argument_order(
                    s1,
                    first_halves(s1.reactor_params(id)),
                    args,
                    path.text(),
                    "parameter"@,
                    span,
                ),
                wanted(second_halves(s1.reactor_params(id))),
                Finish::Reactor { id, name: path.text() },
                span,
            ),
        }
    }
}

// ---------------------------------------------------------------- carrying it out

fn answered(span: Span) -> (r: PlanMade)
    ensures
        r@ == Plan::Done(failed(span)),
{
    PlanMade::Done(error_expr(span))
}

fn wants_of(params: &Vec<(Ty, Mode)>) -> (r: Vec<Option<Ty>>)
    ensures
        bindings(r@) == builtin_wants(crate::hir::params_of(params@)),
{
    let ghost all = crate::hir::params_of(params@);
    let mut r: Vec<Option<Ty>> = Vec::new();
    for i in 0..params.len()
        invariant
            all == crate::hir::params_of(params@),
            r.len() == i,
            forall|j: int| 0 <= j < i ==> #[trigger] bindings(r@)[j] == builtin_wants(all)[j],
    {
        let ghost before = r@;
        let want: Option<Ty> = match &params[i].0 {
            Ty::Error => None,
            t => Some(t.copy()),
        };
        r.push(want);
        assert forall|j: int| 0 <= j < i + 1 implies #[trigger] bindings(r@)[j] == builtin_wants(
            all,
        )[j] by {
            if j < i {
                assert(bindings(before)[j] == builtin_wants(all)[j]);
                assert(r@[j] == before[j]);
            } else {
                assert(all[i as int].0 == params@[i as int].0@);
            }
        }
    }
    assert(bindings(r@) =~= builtin_wants(all));
    r
}

fn first_places(n: usize) -> (r: Vec<usize>)
    ensures
        r@ == in_order(n as nat),
{
    let mut r: Vec<usize> = Vec::new();
    for i in 0..n
        invariant
            r.len() == i,
            forall|j: int| 0 <= j < i ==> #[trigger] r@[j] == j,
    {
        r.push(i);
    }
    assert(r@ =~= in_order(n as nat));
    r
}

fn any_named(args: &Vec<ast::Arg>) -> (r: bool)
    ensures
        r == (named_args(args@) > 0),
{
    let ghost all = args@;
    let mut found: bool = false;
    assert(all.take(0) =~= seq![]);
    for i in 0..args.len()
        invariant
            all == args@,
            found == (named_args(all.take(i as int)) > 0),
    {
        assert(all.take(i + 1).drop_last() =~= all.take(i as int));
        if args[i].name.is_some() {
            found = true;
        }
    }
    assert(all.take(args.len() as int) =~= all);
    found
}

fn ending(n: usize) -> (r: &'static str)
    ensures
        r@ == field_suffix(n as nat),
{
    if n == 1 {
        ""
    } else {
        "s"
    }
}

/// What a builtin's entry says, in parts.
pub struct BuiltinParts {
    pub name: String,
    pub wants: Vec<Option<Ty>>,
    pub ret: Ty,
    pub pure_call: bool,
    pub is_task: bool,
    pub needs: Vec<Capability>,
}

pub open spec fn describes(p: BuiltinParts, d: model::BuiltinDef) -> bool {
    &&& p.name@ == d.name
    &&& bindings(p.wants@) == builtin_wants(d.params)
    &&& p.wants@.len() == d.params.len()
    &&& p.ret@ == d.ret
    &&& p.pure_call == d.pure_call
    &&& p.is_task == d.is_task
    &&& p.needs@ == d.needs
}

fn parts_of(d: &BuiltinDef) -> (r: BuiltinParts)
    ensures
        describes(r, d@),
{
    assert(crate::hir::params_of(d.params@).len() == d.params@.len());
    let wants = wants_of(&d.params);
    assert(bindings(wants@).len() == wants@.len());
    BuiltinParts {
        name: d.name.clone(),
        wants,
        ret: d.ret.copy(),
        pure_call: d.pure_call,
        is_task: d.is_task,
        needs: copies::plain(&d.needs),
    }
}

impl Checker {
    pub fn builtin_named(&self, name: &str) -> (r: Option<Builtin>)
        ensures
            r == builtin_named(self@.vocabulary, name@),
    {
        proof {
            reveal(Checker::view);
            reveal(builtin_named);
        }
        let v = &self.vocabulary;
        if same(name, v.send.name.as_str()) {
            return Some(Builtin::Send);
        }
        if same(name, v.latest.name.as_str()) {
            return Some(Builtin::Latest);
        }
        if same(name, v.shared.name.as_str()) {
            return Some(Builtin::Shared);
        }
        if same(name, v.slots_new.name.as_str()) {
            return Some(Builtin::SlotsNew);
        }
        let ghost names = builtin_names(self@.vocabulary.host);
        for i in 0..v.host.len()
            invariant
                names == builtin_names(self@.vocabulary.host),
                self@.vocabulary == v@,
                name@ != v.send.name@,
                name@ != v.latest.name@,
                name@ != v.shared.name@,
                name@ != v.slots_new.name@,
                forall|j: int| 0 <= j < i ==> #[trigger] names[j] != name@,
        {
            assert(names[i as int] == v.host@[i as int].name@);
            if same(v.host[i].name.as_str(), name) {
                proof {
                    reveal(builtin_named);
                    copies::place_is_unique(names, name@, i as int);
                }
                return Some(
                    Builtin::Host(
                        #[verifier::truncate]
                        (i as u32),
                    ),
                );
            }
        }
        proof {
            copies::place_is_first(names, name@);
        }
        None
    }

    fn builtin_def(&self, b: Builtin) -> (r: BuiltinParts)
        ensures
            describes(r, builtin_def(self@.vocabulary, b)),
    {
        proof {
            reveal(Checker::view);
            reveal(builtin_def);
        }
        let v = &self.vocabulary;
        match b {
            Builtin::Send => parts_of(&v.send),
            Builtin::Latest => parts_of(&v.latest),
            Builtin::BytesAt => parts_of(&v.bytes_at),
            Builtin::Shared => parts_of(&v.shared),
            Builtin::SlotsNew => parts_of(&v.slots_new),
            Builtin::Host(index) => {
                let at: usize = index as usize;
                if at < v.host.len() {
                    parts_of(&v.host[at])
                } else {
                    let wants: Vec<Option<Ty>> = Vec::new();
                    assert(bindings(wants@) =~= builtin_wants(seq![]));
                    BuiltinParts {
                        name: "_".to_owned(),
                        wants,
                        ret: Ty::Error,
                        pure_call: true,
                        is_task: false,
                        needs: Vec::new(),
                    }
                }
            },
        }
    }

    fn plan_builtin(&mut self, b: Builtin, args: &Vec<ast::Arg>, span: Span) -> (r: PlanMade)
        ensures
            final(self)@ == plan_builtin(old(self)@, b, args@, span).0,
            r@ == plan_builtin(old(self)@, b, args@, span).1,
    {
        proof {
            reveal(plan_builtin);
        }
        let def = self.builtin_def(b);
        if self.ctx().in_turn() && !def.pure_call {
            self.push(impure(def.name.as_str(), "is something the world can see happen", span));
            return answered(span);
        }
        if args.len() != def.wants.len() || any_named(args) {
            let want = number(def.wants.len());
            self.push(
                say::builtin_arity(
                    span,
                    def.name.as_str(),
                    want.as_str(),
                    ending(def.wants.len()),
                ),
            );
            return answered(span);
        }
        if def.is_task {
            if !self.require_task_authority(def.name.as_str(), &def.needs, span) {
                return answered(span);
            }
        }
        match b {
            Builtin::Send => PlanMade::Send,
            Builtin::Latest => PlanMade::Latest,
            _ => PlanMade::Each {
                wants: def.wants,
                order: first_places(args.len()),
                finish: FinishMade::Builtin { builtin: b, ret: def.ret },
            },
        }
    }

    fn plan_method_of(
        &mut self,
        id: FnId,
        display: &str,
        receiver: Expr,
        args: &Vec<ast::Arg>,
        span: Span,
    ) -> (r: PlanMade)
        ensures
            final(self)@ == plan_method_of(
                old(self)@,
                id,
                display@,
                receiver@,
                args@,
                span,
            ).0,
            r@ == plan_method_of(old(self)@, id, display@, receiver@, args@, span).1,
    {
        proof {
            reveal(plan_method_of);
        }
        let (params, ret) = self.signature(id);
        let rest = after_first(&params);
        let (names, types) = copies::named_lists(&rest);
        match self.argument_order(&names, args, display, "parameter", span) {
            None => answered(span),
            Some(order) => PlanMade::Each {
                wants: wanted_tys(types),
                order,
                finish: FinishMade::Plain { callee: id, receiver: Some(receiver), ret },
            },
        }
    }

    fn providing(&self, bounds: &Vec<TraitId>, method: &str) -> (r: Vec<TraitId>)
        ensures
            r@ == providing(self@, bounds@, method@),
    {
        let ghost all = bounds@;
        let mut r: Vec<TraitId> = Vec::new();
        assert(all.take(0) =~= seq![]);
        assert(r@ =~= seq![]);
        for i in 0..bounds.len()
            invariant
                all == bounds@,
                r@ == providing(self@, all.take(i as int), method@),
        {
            assert(all.take(i + 1).drop_last() =~= all.take(i as int));
            if self.method_place(bounds[i], method).is_some() {
                r.push(bounds[i]);
            }
        }
        assert(all.take(bounds.len() as int) =~= all);
        r
    }

    fn quoted_traits(&self, list: &Vec<TraitId>) -> (r: Vec<String>)
        ensures
            texts(r@) == quoted_traits(self@, list@),
    {
        let mut r: Vec<String> = Vec::new();
        for i in 0..list.len()
            invariant
                r.len() == i,
                forall|j: int| 0 <= j < i ==> #[trigger] r@[j]@ == quoted_traits(self@, list@)[j],
        {
            let name = self.trait_name(list[i]);
            r.push("`".to_owned().concat(name.as_str()).concat("`"));
        }
        assert(texts(r@) =~= quoted_traits(self@, list@));
        r
    }

    fn with_providers(&self, d: Diagnostic, list: &Vec<TraitId>) -> (r: Diagnostic)
        ensures
            r@ == with_providers(self@, d@, list@),
    {
        let ghost all = list@;
        let ghost start = d@;
        let mut r = d;
        assert(all.take(0) =~= seq![]);
        for i in 0..list.len()
            invariant
                all == list@,
                r@ == with_providers(self@, start, all.take(i as int)),
        {
            assert(all.take(i + 1).drop_last() =~= all.take(i as int));
            let name = self.trait_name(list[i]);
            let note = "`".to_owned().concat(name.as_str()).concat("` provides one");
            r = r.note(note.as_str());
        }
        assert(all.take(list.len() as int) =~= all);
        r
    }

    fn plan_param_method(
        &mut self,
        receiver: Expr,
        index: u32,
        name: &str,
        method: &ast::Ident,
        args: &Vec<ast::Arg>,
        span: Span,
    ) -> (r: PlanMade)
        ensures
            final(self)@ == plan_param_method(
                old(self)@,
                receiver@,
                index,
                name@,
                *method,
                args@,
                span,
            ).0,
            r@ == plan_param_method(
                old(self)@,
                receiver@,
                index,
                name@,
                *method,
                args@,
                span,
            ).1,
    {
        proof {
            reveal(plan_param_method);
            receiver.look();
        }
        let bounds = self.bounds_of(index);
        let found = self.providing(&bounds, method.name.as_str());
        if bounds.len() == 0 {
            let d = say::bare_param_method(span, name, method.name.as_str());
            let d = self.with_opaque_note(d, &receiver.ty);
            self.push(d);
            return answered(span);
        }
        if found.len() == 0 {
            let roster = self.quoted_traits(&bounds);
            let list = join(&roster, ", ");
            self.push(
                say::no_bound_provides(method.span, name, method.name.as_str(), list.as_str()),
            );
            return answered(span);
        }
        if found.len() == 1 {
            let stub = self.request_trait_call(
                found[0],
                method.name.as_str(),
                receiver.ty.copy(),
                span,
            );
            let display = name.to_owned().concat(".").concat(method.name.as_str());
            return self.plan_method_of(stub, display.as_str(), receiver, args, span);
        }
        let d = say::ambiguous_bounds(method.span, name, method.name.as_str());
        let d = self.with_providers(d, &found);
        self.push(d);
        answered(span)
    }

    fn candidates(&self, ty: &Ty, method: &str) -> (r: Vec<(TraitId, FnId)>)
        ensures
            r@ == candidates(self@.impls, ty@, method@),
    {
        proof {
            reveal(Checker::view);
        }
        let ghost all = impls_of(self.impls@);
        let mut r: Vec<(TraitId, FnId)> = Vec::new();
        assert(all.take(0) =~= seq![]);
        assert(r@ =~= seq![]);
        for i in 0..self.impls.len()
            invariant
                all == impls_of(self.impls@),
                r@ == candidates(all.take(i as int), ty@, method@),
        {
            assert(all.take(i + 1).drop_last() =~= all.take(i as int));
            assert(all.take(i + 1).last() == self.impls@[i as int]@);
            if same_ty(&self.impls[i].receiver, ty) {
                match crate::instances::provided_under(&self.impls[i].methods, method) {
                    Some(id) => r.push((self.impls[i].trait_id, id)),
                    None => {},
                }
            }
        }
        assert(all.take(self.impls.len() as int) =~= all);
        r
    }

    fn is_field(&self, ty: &Ty, name: &str) -> (r: bool)
        ensures
            r == is_field(self@, ty@, name@),
    {
        match ty {
            Ty::Struct(id) => {
                let fields = self.struct_fields(*id);
                let (names, _) = copies::field_lists(&fields);
                copies::place(&names, name).is_some()
            },
            _ => false,
        }
    }

    fn plan_type_method(
        &mut self,
        receiver: Expr,
        method: &ast::Ident,
        args: &Vec<ast::Arg>,
        span: Span,
    ) -> (r: PlanMade)
        ensures
            final(self)@ == plan_type_method(old(self)@, receiver@, *method, args@, span).0,
            r@ == plan_type_method(old(self)@, receiver@, *method, args@, span).1,
    {
        proof {
            reveal(plan_type_method);
            receiver.look();
        }
        let found = self.candidates(&receiver.ty, method.name.as_str());
        let ty = self.ty_name(&receiver.ty);
        if found.len() == 0 {
            if self.is_field(&receiver.ty, method.name.as_str()) {
                self.push(
                    say::field_not_method(method.span, method.name.as_str(), ty.as_str()),
                );
            } else {
                self.push(say::no_method(method.span, ty.as_str(), method.name.as_str()));
            }
            return answered(span);
        }
        if found.len() == 1 {
            let display = ty.concat(".").concat(method.name.as_str());
            return self.plan_method_of(found[0].1, display.as_str(), receiver, args, span);
        }
        let traits = first_of_each(&found);
        let d = say::ambiguous_method(method.span, ty.as_str(), method.name.as_str());
        let d = self.with_providers(d, &traits);
        let d = d.note(
            "methods share one name and functions do not: call the function form the impl delegates to",
        );
        self.push(d);
        answered(span)
    }

    pub fn plan_method(
        &mut self,
        receiver: Expr,
        method: &ast::Ident,
        explicit: Option<Vec<Ty>>,
        args: &Vec<ast::Arg>,
        span: Span,
    ) -> (r: PlanMade)
        ensures
            final(self)@ == plan_method(
                old(self)@,
                receiver@,
                *method,
                maybe_tys(explicit),
                args@,
                span,
            ).0,
            r@ == plan_method(
                old(self)@,
                receiver@,
                *method,
                maybe_tys(explicit),
                args@,
                span,
            ).1,
    {
        proof {
            reveal(plan_method);
            receiver.look();
        }
        if crate::binding::is_error(&receiver.ty) {
            return answered(span);
        }
        if explicit.is_some() {
            self.push(say::method_type_args(span, method.name.as_str()));
            return answered(span);
        }
        match &receiver.ty {
            Ty::Reactor(_) => {
                let member = self.field_access(receiver, method, span);
                proof {
                    member.look();
                }
                match &member.ty {
                    Ty::Error => {},
                    Ty::Input(_) => self.push(say::input_not_method(span, method.name.as_str())),
                    _ => self.push(say::signal_not_method(span, method.name.as_str())),
                }
                return answered(span);
            },
            Ty::Param { index, name } => {
                let index: u32 = *index;
                let name = name.clone();
                return self.plan_param_method(receiver, index, name.as_str(), method, args, span);
            },
            _ => {},
        }
        self.plan_type_method(receiver, method, args, span)
    }

    fn plan_member(&mut self, name: &str, name_span: Span, args: &Vec<ast::Arg>, span: Span) -> (r:
        PlanMade)
        ensures
            final(self)@ == plan_member(old(self)@, name@, name_span, args@, span).0,
            r@ == plan_member(old(self)@, name@, name_span, args@, span).1,
    {
        proof {
            reveal(plan_member);
        }
        let (sort, id) = match (self.member(name), self.reactor()) {
            (Some(sort), Some(id)) => (sort, id),
            _ => {
                self.push(say::unknown_function(name_span, name));
                return answered(span);
            },
        };
        match sort {
            Sort::State => self.push(say::state_not_fn(name_span, name)),
            Sort::Param => self.push(say::reactor_param_not_fn(name_span, name)),
            Sort::Input => self.push(say::input_not_fn(name_span, name)),
            Sort::Signal => {
                return self.plan_signal(id, name, args, span);
            },
        }
        answered(span)
    }

    fn plan_signal(&mut self, id: ReactorId, name: &str, args: &Vec<ast::Arg>, span: Span) -> (r:
        PlanMade)
        ensures
            final(self)@ == plan_signal(old(self)@, id, name@, args@, span).0,
            r@ == plan_signal(old(self)@, id, name@, args@, span).1,
    {
        proof {
            reveal(plan_signal);
        }
        let i: usize = match self.node_place(id, name) {
            None => {
                return answered(span);
            },
            Some(i) => i,
        };
        let (kind, ret) = match self.node(id, i) {
            None => {
                return answered(span);
            },
            Some((kind, ret, _)) => (kind, ret),
        };
        let body = match kind {
            NodeKind::Signal { body } => body,
            _ => {
                return answered(span);
            },
        };
        let names = self.dep_names(id, i);
        let types = self.dep_tys(id, i);
        match self.argument_order(&names, args, name, "parameter", span) {
            None => answered(span),
            Some(order) => PlanMade::Each {
                wants: wanted_tys(types),
                order,
                finish: FinishMade::Plain { callee: body, receiver: None, ret },
            },
        }
    }

    fn dep_tys(&self, id: ReactorId, node: usize) -> (r: Vec<Ty>)
        ensures
            tys(r@) == dep_tys(self@, id, node as int),
    {
        let deps = self.node_deps(id, node);
        let mut r: Vec<Ty> = Vec::new();
        for i in 0..deps.len()
            invariant
                r.len() == i,
                forall|j: int| 0 <= j < i ==> #[trigger] r@[j]@ == node_ty(self@, id, deps@[j]),
        {
            r.push(self.node_ty(id, deps[i]));
        }
        assert(tys(r@) =~= dep_tys(self@, id, node as int));
        r
    }

    fn plan_struct_call(
        &mut self,
        id: StructId,
        explicit: Option<Vec<Ty>>,
        args: &Vec<ast::Arg>,
        expected: &Option<Ty>,
        span: Span,
    ) -> (r: PlanMade)
        ensures
            final(self)@ == plan_struct_call(
                old(self)@,
                id,
                maybe_tys(explicit),
                args@,
                maybe(*expected),
                span,
            ).0,
            r@ == plan_struct_call(
                old(self)@,
                id,
                maybe_tys(explicit),
                args@,
                maybe(*expected),
                span,
            ).1,
    {
        proof {
            reveal(plan_struct_call);
        }
        match explicit {
            None => self.plan_struct(id, args, expected, span),
            Some(types) => match self.explicit_struct_instance(id, types, span) {
                None => answered(span),
                Some(instance) => self.plan_struct(instance, args, expected, span),
            },
        }
    }

    fn plan_variant_call(
        &mut self,
        id: EnumId,
        index: usize,
        explicit: Option<Vec<Ty>>,
        args: &Vec<ast::Arg>,
        expected: &Option<Ty>,
        span: Span,
    ) -> (r: PlanMade)
        ensures
            final(self)@ == plan_variant_call(
                old(self)@,
                id,
                index,
                maybe_tys(explicit),
                args@,
                maybe(*expected),
                span,
            ).0,
            r@ == plan_variant_call(
                old(self)@,
                id,
                index,
                maybe_tys(explicit),
                args@,
                maybe(*expected),
                span,
            ).1,
    {
        proof {
            reveal(plan_variant_call);
        }
        match explicit {
            None => self.plan_variant(id, index, args, expected, span),
            Some(types) => match self.explicit_enum_instance(id, types, span) {
                None => answered(span),
                Some(instance) => self.plan_variant(instance, index, args, expected, span),
            },
        }
    }

    fn plan_bare(
        &mut self,
        option: bool,
        name: &str,
        shown: &str,
        explicit: &Option<Vec<Ty>>,
        args: &Vec<ast::Arg>,
        expected: &Option<Ty>,
        span: Span,
    ) -> (r: PlanMade)
        ensures
            final(self)@ == plan_bare(
                old(self)@,
                option,
                name@,
                shown@,
                maybe_tys(*explicit),
                args@,
                maybe(*expected),
                span,
            ).0,
            r@ == plan_bare(
                old(self)@,
                option,
                name@,
                shown@,
                maybe_tys(*explicit),
                args@,
                maybe(*expected),
                span,
            ).1,
    {
        proof {
            reveal(plan_bare);
        }
        if explicit.is_some() {
            self.push(say::ctor_type_args(span, shown));
            return answered(span);
        }
        if option {
            self.plan_option(same(name, "Some"), args, expected, span)
        } else {
            self.plan_result(same(name, "Ok"), args, expected, span)
        }
    }

    fn plan_name(
        &mut self,
        name: &str,
        name_span: Span,
        explicit: Option<Vec<Ty>>,
        args: &Vec<ast::Arg>,
        expected: &Option<Ty>,
        span: Span,
    ) -> (r: PlanMade)
        ensures
            final(self)@ == plan_name(
                old(self)@,
                name@,
                name_span,
                maybe_tys(explicit),
                args@,
                maybe(*expected),
                span,
            ).0,
            r@ == plan_name(
                old(self)@,
                name@,
                name_span,
                maybe_tys(explicit),
                args@,
                maybe(*expected),
                span,
            ).1,
    {
        proof {
            reveal(plan_name);
        }
        if let Some(b) = self.builtin_named(name) {
            if explicit.is_some() {
                self.push(say::builtin_type_args(span, name));
                return answered(span);
            }
            return self.plan_builtin(b, args, span);
        }
        match self.fn_named(name) {
            Some(id) => self.plan_fn(id, name, explicit, args, expected, span),
            None => self.plan_other_name(name, name_span, explicit, args, expected, span),
        }
    }

    fn plan_other_name(
        &mut self,
        name: &str,
        name_span: Span,
        explicit: Option<Vec<Ty>>,
        args: &Vec<ast::Arg>,
        expected: &Option<Ty>,
        span: Span,
    ) -> (r: PlanMade)
        ensures
            final(self)@ == plan_other_name(
                old(self)@,
                name@,
                name_span,
                maybe_tys(explicit),
                args@,
                maybe(*expected),
                span,
            ).0,
            r@ == plan_other_name(
                old(self)@,
                name@,
                name_span,
                maybe_tys(explicit),
                args@,
                maybe(*expected),
                span,
            ).1,
    {
        proof {
            reveal(plan_other_name);
        }
        let params = self.type_params();
        if copies::holds(&params, name) {
            let fn_name = self.fn_name();
            self.push(say::param_not_ctor(span, name, fn_name.as_str()));
            return answered(span);
        }
        match self.type_named(name) {
            Some(TypeName::Struct(id)) => {
                return self.plan_struct_call(id, explicit, args, expected, span);
            },
            Some(TypeName::Enum(id)) => {
                let example = self.enum_example(id);
                self.push(say::names_an_enum(name_span, name, example.as_str()));
                return answered(span);
            },
            Some(TypeName::Reactor(_)) => {
                self.push(say::reactor_not_fn(name_span, name));
                return answered(span);
            },
            _ => {},
        }
        if self.trait_named(name).is_some() {
            self.push(say::trait_not_fn(name_span, name));
            return answered(span);
        }
        if explicit.is_some() {
            self.push(say::no_type_args(span, name));
            return answered(span);
        }
        self.plan_member(name, name_span, args, span)
    }

    fn plan_ns(
        &mut self,
        path: &ast::Path,
        explicit: Option<Vec<Ty>>,
        args: &Vec<ast::Arg>,
        expected: &Option<Ty>,
        span: Span,
    ) -> (r: PlanMade)
        ensures
            final(self)@ == plan_ns(
                old(self)@,
                *path,
                maybe_tys(explicit),
                args@,
                maybe(*expected),
                span,
            ).0,
            r@ == plan_ns(
                old(self)@,
                *path,
                maybe_tys(explicit),
                args@,
                maybe(*expected),
                span,
            ).1,
    {
        proof {
            reveal(plan_ns);
        }
        let item = match self.resolve_ns(path) {
            Some(Some(item)) => item,
            _ => {
                return answered(span);
            },
        };
        let text = path.written();
        if path.rest.len() == 1 {
            match item {
                NsItem::Fn(id) => {
                    return self.plan_fn(id, text.as_str(), explicit, args, expected, span);
                },
                NsItem::Struct(id) => {
                    return self.plan_struct_call(id, explicit, args, expected, span);
                },
                NsItem::Enum(id) => {
                    let example = self.enum_example(id);
                    self.push(say::names_an_enum(path.span, text.as_str(), example.as_str()));
                    return answered(span);
                },
                NsItem::Reactor(_) => {
                    self.push(say::reactor_not_fn(path.span, text.as_str()));
                    return answered(span);
                },
            }
        }
        if let NsItem::Enum(id) = item {
            if path.rest.len() == 2 {
                return self.plan_ns_variant(id, path, explicit, args, expected, span);
            }
        }
        self.push(say::unknown_function(path.span, text.as_str()));
        answered(span)
    }

    fn plan_ns_variant(
        &mut self,
        id: EnumId,
        path: &ast::Path,
        explicit: Option<Vec<Ty>>,
        args: &Vec<ast::Arg>,
        expected: &Option<Ty>,
        span: Span,
    ) -> (r: PlanMade)
        requires
            path.rest.len() == 2,
        ensures
            final(self)@ == plan_ns_variant(
                old(self)@,
                id,
                *path,
                maybe_tys(explicit),
                args@,
                maybe(*expected),
                span,
            ).0,
            r@ == plan_ns_variant(
                old(self)@,
                id,
                *path,
                maybe_tys(explicit),
                args@,
                maybe(*expected),
                span,
            ).1,
    {
        proof {
            reveal(plan_ns_variant);
        }
        let variant = &path.rest[1];
        match self.variant_place(id, variant.name.as_str()) {
            None => {
                let head = path.head.name.clone().concat(".").concat(path.rest[0].name.as_str());
                self.push(say::no_variant(variant.span, head.as_str(), variant.name.as_str()));
                answered(span)
            },
            Some(i) => self.plan_variant_call(id, i, explicit, args, expected, span),
        }
    }

    fn plan_enum_variant(
        &mut self,
        id: EnumId,
        path: &ast::Path,
        explicit: Option<Vec<Ty>>,
        args: &Vec<ast::Arg>,
        expected: &Option<Ty>,
        span: Span,
    ) -> (r: PlanMade)
        requires
            path.rest.len() == 1,
        ensures
            final(self)@ == plan_enum_variant(
                old(self)@,
                id,
                *path,
                maybe_tys(explicit),
                args@,
                maybe(*expected),
                span,
            ).0,
            r@ == plan_enum_variant(
                old(self)@,
                id,
                *path,
                maybe_tys(explicit),
                args@,
                maybe(*expected),
                span,
            ).1,
    {
        proof {
            reveal(plan_enum_variant);
        }
        let head = path.head.name.as_str();
        let variant = &path.rest[0];
        let i: usize = match self.variant_place(id, variant.name.as_str()) {
            None => {
                self.push(say::no_variant(variant.span, head, variant.name.as_str()));
                return answered(span);
            },
            Some(i) => i,
        };
        if id == EnumId(OPTION) || id == EnumId(RESULT) {
            let shown = head.to_owned().concat(".").concat(variant.name.as_str());
            return self.plan_bare(
                id == EnumId(OPTION),
                variant.name.as_str(),
                shown.as_str(),
                &explicit,
                args,
                expected,
                span,
            );
        }
        self.plan_variant_call(id, i, explicit, args, expected, span)
    }

    /// A call of a dotted name.
    pub fn plan_path(
        &mut self,
        path: &ast::Path,
        explicit: Option<Vec<Ty>>,
        args: &Vec<ast::Arg>,
        expected: &Option<Ty>,
        span: Span,
    ) -> (r: PlanMade)
        ensures
            final(self)@ == plan_path(
                old(self)@,
                *path,
                maybe_tys(explicit),
                args@,
                maybe(*expected),
                span,
            ).0,
            r@ == plan_path(
                old(self)@,
                *path,
                maybe_tys(explicit),
                args@,
                maybe(*expected),
                span,
            ).1,
    {
        proof {
            reveal(plan_path);
        }
        let head = path.head.name.as_str();
        if path.rest.len() == 0 {
            if is_builtin_variant(head) {
                let option = same(head, "None") || same(head, "Some");
                return self.plan_bare(option, head, head, &explicit, args, expected, span);
            }
            return self.plan_name(head, path.span, explicit, args, expected, span);
        }
        if let Some(local) = self.lookup_local(head) {
            let ty = self.local_ty(local);
            let e = make(ExprKind::Local(local), ty, path.head.span);
            let receiver = self.project_front(e, path.head.span, &path.rest);
            return self.plan_method(receiver, path.last_segment(), explicit, args, span);
        }
        self.plan_far_path(path, explicit, args, expected, span)
    }

    fn plan_far_path(
        &mut self,
        path: &ast::Path,
        explicit: Option<Vec<Ty>>,
        args: &Vec<ast::Arg>,
        expected: &Option<Ty>,
        span: Span,
    ) -> (r: PlanMade)
        ensures
            final(self)@ == plan_far_path(
                old(self)@,
                *path,
                maybe_tys(explicit),
                args@,
                maybe(*expected),
                span,
            ).0,
            r@ == plan_far_path(
                old(self)@,
                *path,
                maybe_tys(explicit),
                args@,
                maybe(*expected),
                span,
            ).1,
    {
        proof {
            reveal(plan_far_path);
        }
        let head = path.head.name.as_str();
        if let Some(TypeName::Enum(id)) = self.type_named(head) {
            if path.rest.len() == 1 {
                return self.plan_enum_variant(id, path, explicit, args, expected, span);
            }
        }
        if self.namespace_named(head).is_some() {
            return self.plan_ns(path, explicit, args, expected, span);
        }
        let text = path.written();
        self.push(say::unknown_function(path.span, text.as_str()));
        answered(span)
    }

    fn spawned_reactor(&mut self, path: &ast::Path) -> (r: Option<ReactorId>)
        ensures
            final(self)@ == spawned_reactor(old(self)@, *path).0,
            r == spawned_reactor(old(self)@, *path).1,
    {
        proof {
            reveal(spawned_reactor);
        }
        let head = path.head.name.as_str();
        let text = path.written();
        if path.rest.len() == 0 {
            if let Some(id) = self.reactor_named(head) {
                return Some(id);
            }
        } else if path.rest.len() == 1 && self.namespace_named(head).is_some() {
            match self.resolve_ns(path) {
                Some(Some(NsItem::Reactor(id))) => {
                    return Some(id);
                },
                Some(Some(_)) => {
                    self.push(say::not_a_reactor(path.span, text.as_str()));
                    return None;
                },
                _ => {
                    return None;
                },
            }
        }
        self.push(say::unknown_reactor(path.span, text.as_str()));
        None
    }

    pub fn plan_spawn_reactor(&mut self, path: &ast::Path, args: &Vec<ast::Arg>, span: Span) -> (r:
        PlanMade)
        ensures
            final(self)@ == plan_spawn_reactor(old(self)@, *path, args@, span).0,
            r@ == plan_spawn_reactor(old(self)@, *path, args@, span).1,
    {
        proof {
            reveal(plan_spawn_reactor);
        }
        let ctx = self.ctx();
        if ctx.in_turn() {
            self.push(impure("spawn reactor", "creates a reactor", span));
            return answered(span);
        }
        if !ctx.suspends() {
            self.push(say::spawn_reactor_outside(span));
            return answered(span);
        }
        if self.scope_depth() == 0 {
            self.push(say::spawn_reactor_unscoped(span));
            return answered(span);
        }
        let id = match self.spawned_reactor(path) {
            None => {
                return answered(span);
            },
            Some(id) => id,
        };
        let text = path.written();
        let params = self.reactor_params(id);
        let (names, types) = copies::named_lists(&params);
        match self.argument_order(&names, args, text.as_str(), "parameter", span) {
            None => answered(span),
            Some(order) => PlanMade::Each {
                wants: wanted_tys(types),
                order,
                finish: FinishMade::Reactor { id, name: text },
            },
        }
    }
}

fn after_first(v: &Vec<(String, Ty)>) -> (r: Vec<(String, Ty)>)
    ensures
        named_tys(r@) == tail(named_tys(v@)),
{
    let mut r: Vec<(String, Ty)> = Vec::new();
    if v.len() == 0 {
        assert(named_tys(r@) =~= named_tys(v@));
        return r;
    }
    for i in 1..v.len()
        invariant
            1 <= i <= v.len(),
            r.len() == i - 1,
            forall|j: int|
                0 <= j < i - 1 ==> (#[trigger] r@[j]).0@ == v@[j + 1].0@ && r@[j].1@ == v@[j
                    + 1].1@,
    {
        r.push((v[i].0.clone(), v[i].1.copy()));
    }
    assert(named_tys(r@) =~= named_tys(v@).skip(1));
    r
}

fn first_of_each(v: &Vec<(TraitId, FnId)>) -> (r: Vec<TraitId>)
    ensures
        r@ == traits_among(v@),
{
    let mut r: Vec<TraitId> = Vec::new();
    for i in 0..v.len()
        invariant
            r.len() == i,
            forall|j: int| 0 <= j < i ==> #[trigger] r@[j] == v@[j].0,
    {
        r.push(v[i].0);
    }
    assert(r@ =~= traits_among(v@));
    r
}

} // verus!
