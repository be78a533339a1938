//! Declarations: the names a file declares, the types and signatures behind them, and the bodies
//! of its functions.

use vstd::prelude::*;
use vstd::string::*;
use crate::ast;
use crate::binding::{declare_role, is_builtin_variant};
use crate::call::builtin_named;
use crate::checker::{bounds_list, error_expr, failed, Checker};
use crate::copies;
use crate::expr::body;
use crate::hir::{
    fields_of, locals_of, named_tys, variants_of, EnumDef, EnumId, FieldDef, FnDef, FnId, InputDef,
    LocalDef, LocalRole, Mode, Node, ReactorDef, Resource, StructDef, TraitDef, TraitId,
    TraitMethod, Ty, VariantDef, IO_ERROR, OPTION, RESULT, EQ,
};
use crate::instances::{holds_trait, FnParts, NewFn};
use crate::model;
use crate::reports;
use crate::resolve::{capabilities, resolve_param_ty, resolve_trait, resolve_ty};
use crate::say;
use crate::span::{texts, Report, Span};
use crate::state::{builtin_variant, Ctx, Scalar, State, TypeName};
use crate::table::Table;
use crate::text::{decimal, number, same};

verus! {

// ---------------------------------------------------------------- names

/// The types every file can name without declaring them.
#[verifier::opaque]
pub open spec fn seeded(s: State) -> State {
    s.naming_type("I64"@, TypeName::Builtin(Scalar::I64)).naming_type(
        "F64"@,
        TypeName::Builtin(Scalar::F64),
    ).naming_type("Bool"@, TypeName::Builtin(Scalar::Bool)).naming_type(
        "String"@,
        TypeName::Builtin(Scalar::Str),
    ).naming_type("Bytes"@, TypeName::Builtin(Scalar::Bytes)).naming_type(
        "Listener"@,
        TypeName::Builtin(Scalar::Resource(Resource::Listener)),
    ).naming_type(
        "Connection"@,
        TypeName::Builtin(Scalar::Resource(Resource::Connection)),
    ).naming_type("File"@, TypeName::Builtin(Scalar::Resource(Resource::File))).naming_type(
        "Flow"@,
        TypeName::Builtin(Scalar::Resource(Resource::Flow)),
    ).naming_type("IoError"@, TypeName::Enum(EnumId(IO_ERROR))).naming_type(
        "Option"@,
        TypeName::Enum(EnumId(OPTION)),
    ).naming_type("Result"@, TypeName::Enum(EnumId(RESULT))).naming_trait(
        "Eq"@,
        TraitId(EQ),
    )
}

/// Whether a name already declares a type or a trait here.
pub open spec fn taken(s: State, name: Seq<char>) -> bool {
    s.type_named(name) is Some || s.trait_named(name) is Some
}

/// The type parameters that survive: neither `Self` nor a second of the same name.
pub open spec fn kept_params(s: State, params: Seq<ast::TypeParam>) -> (State, Seq<usize>)
    decreases params.len(),
{
    if params.len() == 0 {
        (s, seq![])
    } else {
        let (s1, kept) = kept_params(s, params.drop_last());
        let name = params.last().name;
        if name.name@ == "Self"@ {
            (s1.push(reports::self_type_param(name.span)), kept)
        } else if names_at(params, kept).contains(name.name@) {
            (s1.push(reports::type_param_twice(name.span, name.name@)), kept)
        } else {
            (s1, kept.push((params.len() - 1) as usize))
        }
    }
}

/// The names of the type parameters at some places.
pub open spec fn names_at(params: Seq<ast::TypeParam>, kept: Seq<usize>) -> Seq<Seq<char>> {
    Seq::new(kept.len(), |i: int| params[kept[i] as int].name.name@)
}

/// Bounds are meaningful on a function's parameters alone.
pub open spec fn refuse_bounds(s: State, params: Seq<ast::TypeParam>) -> State
    decreases params.len(),
{
    if params.len() == 0 {
        s
    } else {
        let s1 = refuse_bounds(s, params.drop_last());
        if params.last().bounds@.len() == 0 {
            s1
        } else {
            s1.push(reports::bound_refused(params.last().span, params.last().name.name@))
        }
    }
}

/// The type parameters of a struct or enum.
#[verifier::opaque]
pub open spec fn type_param_names(s: State, params: Seq<ast::TypeParam>) -> (
    State,
    Seq<Seq<char>>,
) {
    let (s1, kept) = kept_params(s, params);
    (refuse_bounds(s1, params), names_at(params, kept))
}

#[verifier::opaque]
pub open spec fn declare_struct(s: State, decl: ast::StructDecl) -> State {
    if taken(s, decl.name.name@) {
        s.push(reports::declared_twice(decl.name.span, decl.name.name@, "duplicate type"@))
    } else {
        let (s1, type_params) = type_param_names(s, decl.type_params@);
        s1.with_new_struct(
            model::StructDef {
                name: decl.name.name@,
                type_params,
                fields: seq![],
                span: decl.span,
            },
        ).naming_type(decl.name.name@, TypeName::Struct(s1.next_struct()))
    }
}

#[verifier::opaque]
pub open spec fn declare_enum(s: State, decl: ast::EnumDecl) -> State {
    if taken(s, decl.name.name@) {
        s.push(reports::declared_twice(decl.name.span, decl.name.name@, "duplicate type"@))
    } else {
        let (s1, type_params) = type_param_names(s, decl.type_params@);
        s1.with_new_enum(
            model::EnumDef {
                name: decl.name.name@,
                type_params,
                variants: seq![],
                span: decl.span,
            },
        ).naming_type(decl.name.name@, TypeName::Enum(s1.next_enum()))
    }
}

pub open spec fn empty_reactor(name: Seq<char>, span: Span) -> model::ReactorDef {
    model::ReactorDef {
        name,
        params: seq![],
        uses: seq![],
        inputs: seq![],
        nodes: seq![],
        slots: seq![],
        order: seq![],
        exports: seq![],
        init: None,
        span,
    }
}

/// A reactor's name is both a type and something to spawn.
#[verifier::opaque]
pub open spec fn declare_reactor(s: State, decl: ast::ReactorDecl) -> State {
    if taken(s, decl.name.name@) {
        s.push(reports::declared_twice(decl.name.span, decl.name.name@, "duplicate type"@))
    } else {
        s.with_new_reactor(empty_reactor(s.qualified(decl.name.name@), decl.span)).naming_reactor(
            decl.name.name@,
            s.next_reactor(),
        ).naming_type(decl.name.name@, TypeName::Reactor(s.next_reactor()))
    }
}

#[verifier::opaque]
pub open spec fn declare_trait(s: State, decl: ast::TraitDecl) -> State {
    if taken(s, decl.name.name@) {
        s.push(
            reports::declared_twice(decl.name.span, decl.name.name@, "duplicate declaration"@),
        )
    } else {
        s.with_trait(
            model::TraitDef {
                name: s.qualified(decl.name.name@),
                module: s.current,
                methods: seq![],
            },
        ).naming_trait(decl.name.name@, s.next_trait())
    }
}

pub open spec fn declare_type(s: State, item: ast::Item) -> State {
    match item {
        ast::Item::Struct(decl) => declare_struct(s, decl),
        ast::Item::Enum(decl) => declare_enum(s, decl),
        ast::Item::Reactor(decl) => declare_reactor(s, decl),
        ast::Item::Trait(decl) => declare_trait(s, decl),
        _ => s,
    }
}

pub open spec fn declare_types_of(s: State, items: Seq<ast::Item>) -> State
    decreases items.len(),
{
    if items.len() == 0 {
        s
    } else {
        declare_type(declare_types_of(s, items.drop_last()), items.last())
    }
}

/// Every type name exists before any type is resolved.
#[verifier::opaque]
pub open spec fn declare_types(s: State, module: ast::Module) -> State {
    declare_types_of(seeded(s), module.items@)
}

// ---------------------------------------------------------------- types

/// The fields of a struct; a second of the same name is refused.
pub open spec fn define_fields(s: State, decls: Seq<ast::FieldDecl>) -> (
    State,
    Seq<model::FieldDef>,
)
    decreases decls.len(),
{
    if decls.len() == 0 {
        (s, seq![])
    } else {
        let (s1, done) = define_fields(s, decls.drop_last());
        let d = decls.last();
        if copies::field_names(done).contains(d.name.name@) {
            (s1.push(reports::field_twice(d.name.span, d.name.name@)), done)
        } else {
            let (s2, ty) = resolve_ty(s1, d.ty);
            (s2, done.push(model::FieldDef { name: d.name.name@, ty, span: d.span }))
        }
    }
}

/// The payload of a tuple variant: its fields are known by their place.
pub open spec fn tuple_fields(s: State, types: Seq<ast::Type>) -> (State, Seq<model::FieldDef>)
    decreases types.len(),
{
    if types.len() == 0 {
        (s, seq![])
    } else {
        let (s1, done) = tuple_fields(s, types.drop_last());
        let (s2, ty) = resolve_ty(s1, types.last());
        (
            s2,
            done.push(
                model::FieldDef {
                    name: decimal((types.len() - 1) as nat),
                    ty,
                    span: types.last().span,
                },
            ),
        )
    }
}

/// The payload of a variant with named fields.
pub open spec fn record_fields(s: State, decls: Seq<ast::FieldDecl>) -> (
    State,
    Seq<model::FieldDef>,
)
    decreases decls.len(),
{
    if decls.len() == 0 {
        (s, seq![])
    } else {
        let (s1, done) = record_fields(s, decls.drop_last());
        let d = decls.last();
        let (s2, ty) = resolve_ty(s1, d.ty);
        (s2, done.push(model::FieldDef { name: d.name.name@, ty, span: d.span }))
    }
}

#[verifier::opaque]
pub open spec fn payload(s: State, p: ast::VariantPayload) -> (State, Seq<model::FieldDef>) {
    match p {
        ast::VariantPayload::Unit => (s, seq![]),
        ast::VariantPayload::Tuple(types) => tuple_fields(s, types@),
        ast::VariantPayload::Struct(decls) => record_fields(s, decls@),
    }
}

pub open spec fn define_variants(s: State, decls: Seq<ast::VariantDecl>) -> (
    State,
    Seq<model::VariantDef>,
)
    decreases decls.len(),
{
    if decls.len() == 0 {
        (s, seq![])
    } else {
        let (s1, done) = define_variants(s, decls.drop_last());
        let d = decls.last();
        let (s2, fields) = payload(s1, d.payload);
        (
            s2,
            done.push(
                model::VariantDef {
                    name: d.name.name@,
                    fields,
                    positional: !(d.payload is Struct),
                    span: d.span,
                },
            ),
        )
    }
}

/// A declaration's fields or payloads, its own type parameters in scope.
#[verifier::opaque]
pub open spec fn define_type(s: State, item: ast::Item) -> State {
    match item {
        ast::Item::Struct(decl) => match s.type_named(decl.name.name@) {
            Some(TypeName::Struct(id)) => {
                let (s1, fields) = define_fields(
                    s.with_type_params(s.struct_params(id)),
                    decl.fields@,
                );
                s1.with_struct_fields(id, fields)
            },
            _ => s,
        },
        ast::Item::Enum(decl) => match s.type_named(decl.name.name@) {
            Some(TypeName::Enum(id)) => {
                let (s1, variants) = define_variants(
                    s.with_type_params(s.enum_params(id)),
                    decl.variants@,
                );
                s1.with_variants(id, variants)
            },
            _ => s,
        },
        _ => s,
    }
}

pub open spec fn define_types_of(s: State, items: Seq<ast::Item>) -> State
    decreases items.len(),
{
    if items.len() == 0 {
        s
    } else {
        define_type(
            define_types_of(s, items.drop_last()).with_type_params(seq![]),
            items.last(),
        )
    }
}

#[verifier::opaque]
pub open spec fn define_types(s: State, module: ast::Module) -> State {
    define_types_of(s, module.items@).with_type_params(seq![])
}

// ---------------------------------------------------------------- functions

/// The traits a list of bounds names, each once.
pub open spec fn resolve_bounds(s: State, paths: Seq<ast::Path>) -> (State, Seq<TraitId>)
    decreases paths.len(),
{
    if paths.len() == 0 {
        (s, seq![])
    } else {
        let (s1, done) = resolve_bounds(s, paths.drop_last());
        let (s2, found) = resolve_trait(s1, paths.last());
        match found {
            Some(id) => if done.contains(id) {
                (s2, done)
            } else {
                (s2, done.push(id))
            },
            None => (s2, done),
        }
    }
}

/// The bounds of each type parameter that survived.
pub open spec fn bounds_at(s: State, params: Seq<ast::TypeParam>, kept: Seq<usize>) -> (
    State,
    Seq<Seq<TraitId>>,
)
    decreases kept.len(),
{
    if kept.len() == 0 {
        (s, seq![])
    } else {
        let (s1, done) = bounds_at(s, params, kept.drop_last());
        let (s2, found) = if kept.last() < params.len() {
            resolve_bounds(s1, params[kept.last() as int].bounds@)
        } else {
            (s1, seq![])
        };
        (s2, done.push(found))
    }
}

pub open spec fn resolve_params(s: State, params: Seq<ast::Param>) -> (
    State,
    Seq<(Seq<char>, model::Ty)>,
)
    decreases params.len(),
{
    if params.len() == 0 {
        (s, seq![])
    } else {
        let (s1, done) = resolve_params(s, params.drop_last());
        let (s2, ty) = resolve_param_ty(s1, params.last().ty);
        (s2, done.push((params.last().name.name@, ty)))
    }
}

/// A return type: `()` where none is written.
#[verifier::opaque]
pub open spec fn return_ty(s: State, ret: Option<ast::Type>) -> (State, model::Ty) {
    match ret {
        Some(t) => resolve_ty(s, t),
        None => (s, model::Ty::Unit),
    }
}

pub open spec fn written_mode(m: ast::ParamMode) -> Mode {
    match m {
        ast::ParamMode::Read => Mode::Read,
        ast::ParamMode::Sink(_) => Mode::Sink,
        ast::ParamMode::Mut(_) => Mode::Mut,
    }
}

/// The modes written before parameters.
pub open spec fn written_modes(params: Seq<ast::Param>) -> Seq<Mode> {
    Seq::new(params.len(), |i: int| written_mode(params[i].mode))
}

/// A written mode is kept; where none is written, inference may choose.
pub open spec fn written_pins(params: Seq<ast::Param>) -> Seq<bool> {
    Seq::new(params.len(), |i: int| !(params[i].mode is Read))
}

/// Why a function cannot have its name, if it cannot.
#[verifier::opaque]
pub open spec fn fn_refused(s: State, name: Seq<char>, span: Span) -> Option<Report> {
    if builtin_named(s.vocabulary, name) is Some {
        Some(reports::builtin_fn_redefined(span, name))
    } else if builtin_variant(name) {
        Some(reports::builtin_ctor_redefined(span, name))
    } else {
        match s.type_named(name) {
            Some(TypeName::Struct(_)) => Some(reports::fn_clashes(span, name, "struct"@)),
            Some(TypeName::Enum(_)) => Some(reports::fn_clashes(span, name, "enum"@)),
            Some(TypeName::Reactor(_)) => Some(reports::fn_clashes(span, name, "reactor"@)),
            _ => if s.fn_named(name) is Some {
                Some(reports::declared_twice(span, name, "duplicate function"@))
            } else {
                None
            },
        }
    }
}

/// A function's signature.
#[verifier::opaque]
pub open spec fn declare_fn(s: State, decl: ast::FnDecl) -> (State, Option<FnId>) {
    match fn_refused(s, decl.name.name@, decl.name.span) {
        Some(r) => (s.push(r), None),
        None => {
            let (s1, kept) = kept_params(s, decl.type_params@);
            let type_params = names_at(decl.type_params@, kept);
            let (s2, bounds) = bounds_at(s1, decl.type_params@, kept);
            let (s3, params) = resolve_params(s2.with_type_params(type_params), decl.params@);
            let (s4, ret) = return_ty(s3, decl.ret);
            let (s5, uses) = capabilities(s4.with_type_params(seq![]), decl.uses@);
            let id = s5.next_fn();
            let s6 = s5.with_fn(
                NewFn {
                    def: model::FnDef {
                        name: s5.qualified(decl.name.name@),
                        type_params,
                        is_task: decl.is_task,
                        uses,
                        params: params.len() as usize,
                        modes: seq![],
                        locals: seq![],
                        ret,
                        body: failed(decl.span),
                        inert: false,
                        span: decl.span,
                    },
                    owner: s5.current,
                    bounds,
                    params,
                    modes: written_modes(decl.params@),
                    pins: written_pins(decl.params@),
                },
            ).naming_fn(decl.name.name@, id);
            (entry_point(s6, decl, id, type_params.len()), Some(id))
        },
    }
}

/// Only the first file's `main` is an entry point, and it cannot be generic.
#[verifier::opaque]
pub open spec fn entry_point(s: State, decl: ast::FnDecl, id: FnId, type_params: nat) -> State {
    if decl.name.name@ == "main"@ && s.current == 0 {
        if type_params == 0 {
            s.with_main(id)
        } else {
            s.push(reports::generic_main(decl.name.span))
        }
    } else {
        s
    }
}

pub open spec fn declare_fns_of(s: State, items: Seq<ast::Item>) -> (State, Seq<Option<FnId>>)
    decreases items.len(),
{
    if items.len() == 0 {
        (s, seq![])
    } else {
        let (s1, done) = declare_fns_of(s, items.drop_last());
        match items.last() {
            ast::Item::Fn(decl) => {
                let (s2, id) = declare_fn(s1, decl);
                (s2, done.push(id))
            },
            _ => (s1, done.push(None)),
        }
    }
}

#[verifier::opaque]
pub open spec fn declare_fns(s: State, module: ast::Module) -> State {
    let (s1, list) = declare_fns_of(s, module.items@);
    s1.with_fn_of_item(list)
}

// ---------------------------------------------------------------- bodies

/// Parameters as locals, as many as were both declared and resolved.
pub open spec fn bind_params_of(
    s: State,
    params: Seq<(Seq<char>, model::Ty)>,
    decls: Seq<ast::Param>,
) -> State
    decreases params.len(),
{
    if params.len() == 0 {
        s
    } else {
        let s1 = bind_params_of(s, params.drop_last(), decls);
        let k = params.len() - 1;
        if k < decls.len() {
            declare_role(
                s1,
                params[k].0,
                params[k].1,
                false,
                LocalRole::Ordinary,
                decls[k].name.span,
            ).0
        } else {
            s1
        }
    }
}

/// The state a function's body is checked in.
#[verifier::opaque]
pub open spec fn entering(s: State, id: FnId, is_task: bool, display: Seq<char>) -> State {
    s.fresh().with_ret(s.signature(id).1).with_fn_name(display).with_ctx(
        if is_task {
            Ctx::Task
        } else {
            Ctx::Plain
        },
    ).with_members(Map::empty()).with_reactor(None).with_in_handler(false).with_uses(
        s.fn_uses(id),
    ).with_scope_depth(0).with_type_params(s.fn_type_params(id)).with_bounds(
        s.fn_param_bounds(id),
    )
}

/// One function body, whatever declared it.
#[verifier::opaque]
pub open spec fn check_fn_body(
    s: State,
    id: FnId,
    decl: ast::FnDecl,
    display: Seq<char>,
) -> State {
    let s1 = if !decl.is_task && decl.uses@.len() > 0 {
        s.push(reports::uses_on_plain_fn(decl.span))
    } else {
        s
    };
    let (params, ret) = s1.signature(id);
    let s2 = bind_params_of(entering(s1, id, decl.is_task, display), params, decl.params@);
    let (s3, b) = body(s2, decl.body, Some(ret));
    s3.with_type_params(seq![]).with_bounds(seq![]).with_body(id, b)
}

/// The functions an impl wrote, each with `Self` meaning the receiver.
pub open spec fn check_impl_fns(
    s: State,
    receiver: model::Ty,
    methods: Seq<(Seq<char>, Option<FnId>)>,
    fns: Seq<ast::FnDecl>,
) -> State
    decreases methods.len(),
{
    if methods.len() == 0 {
        s
    } else {
        let s1 = check_impl_fns(s, receiver, methods.drop_last(), fns);
        let k = methods.len() - 1;
        match methods[k].1 {
            Some(id) => if k < fns.len() {
                check_fn_body(
                    s1.with_self_ty(Some(receiver)),
                    id,
                    fns[k],
                    s1.fn_display(id),
                ).with_self_ty(None)
            } else {
                s1
            },
            None => s1,
        }
    }
}

/// The impl an item of the file being looked at declared.
pub open spec fn impl_of_item(impls: Seq<model::ImplDef>, module: usize, item: int) -> Option<
    model::ImplDef,
>
    decreases impls.len(),
{
    if impls.len() == 0 {
        None
    } else {
        match impl_of_item(impls.drop_last(), module, item) {
            Some(i) => Some(i),
            None => if impls.last().module == module && impls.last().item == item {
                Some(impls.last())
            } else {
                None
            },
        }
    }
}

/// The bodies one item holds.
#[verifier::opaque]
pub open spec fn check_item(s: State, item: ast::Item, index: int) -> State {
    match item {
        ast::Item::Fn(decl) => match s.item_fn(index) {
            Some(id) => check_fn_body(s, id, decl, decl.name.name@),
            None => s,
        },
        ast::Item::Impl(decl) => match impl_of_item(s.impls, s.current, index) {
            Some(i) => check_impl_fns(s, i.receiver, i.methods, decl.fns@),
            None => s,
        },
        _ => s,
    }
}

pub open spec fn check_items(s: State, items: Seq<ast::Item>) -> State
    decreases items.len(),
{
    if items.len() == 0 {
        s
    } else {
        check_item(check_items(s, items.drop_last()), items.last(), items.len() - 1)
    }
}

#[verifier::opaque]
pub open spec fn check_fns(s: State, module: ast::Module) -> State {
    check_items(s, module.items@)
}

/// A function lifted out of a reactor rather than written as one.
#[verifier::opaque]
pub open spec fn declare_lifted(s: State, name: Seq<char>, span: Span) -> (State, FnId) {
    (
        s.with_fn(
            NewFn {
                def: crate::instances::bodiless(name, false, 0, model::Ty::Error, span),
                owner: s.current,
                bounds: seq![],
                params: seq![],
                modes: seq![],
                pins: seq![],
            },
        ),
        s.next_fn(),
    )
}

// ---------------------------------------------------------------- carrying it out

fn kept_names(params: &Vec<ast::TypeParam>, kept: &Vec<usize>) -> (r: Vec<String>)
    requires
        forall|i: int| 0 <= i < kept@.len() ==> kept@[i] < params.len(),
    ensures
        texts(r@) == names_at(params@, kept@),
{
    let mut r: Vec<String> = Vec::new();
    for i in 0..kept.len()
        invariant
            forall|i: int| 0 <= i < kept@.len() ==> kept@[i] < params.len(),
            r.len() == i,
            forall|j: int| 0 <= j < i ==> #[trigger] r@[j]@ == names_at(params@, kept@)[j],
    {
        r.push(params[kept[i]].name.name.clone());
    }
    assert(texts(r@) =~= names_at(params@, kept@));
    r
}

pub fn modes_and_pins(params: &Vec<ast::Param>) -> (r: (Vec<Mode>, Vec<bool>))
    ensures
        r.0@ == written_modes(params@),
        r.1@ == written_pins(params@),
{
    let mut modes: Vec<Mode> = Vec::new();
    let mut pins: Vec<bool> = Vec::new();
    for i in 0..params.len()
        invariant
            modes.len() == i,
            pins.len() == i,
            forall|j: int| 0 <= j < i ==> #[trigger] modes@[j] == written_modes(params@)[j],
            forall|j: int| 0 <= j < i ==> #[trigger] pins@[j] == written_pins(params@)[j],
    {
        match params[i].mode {
            ast::ParamMode::Read => {
                modes.push(Mode::Read);
                pins.push(false);
            },
            ast::ParamMode::Sink(_) => {
                modes.push(Mode::Sink);
                pins.push(true);
            },
            ast::ParamMode::Mut(_) => {
                modes.push(Mode::Mut);
                pins.push(true);
            },
        }
    }
    assert(modes@ =~= written_modes(params@));
    assert(pins@ =~= written_pins(params@));
    (modes, pins)
}

pub open spec fn maybe_report(r: Option<crate::span::Diagnostic>) -> Option<Report> {
    match r {
        Some(d) => Some(d@),
        None => None,
    }
}

fn holds_field(fields: &Vec<FieldDef>, name: &str) -> (r: bool)
    ensures
        r == copies::field_names(fields_of(fields@)).contains(name@),
{
    let ghost names = copies::field_names(fields_of(fields@));
    for i in 0..fields.len()
        invariant
            names == copies::field_names(fields_of(fields@)),
            forall|j: int| 0 <= j < i ==> #[trigger] names[j] != name@,
    {
        assert(names[i as int] == fields@[i as int].name@);
        if same(fields[i].name.as_str(), name) {
            return true;
        }
    }
    false
}

impl Checker {
    fn seed_types(&mut self)
        ensures
            final(self)@ == seeded(old(self)@),
    {
        proof {
            reveal(seeded);
        }
        self.name_type("I64", TypeName::Builtin(Scalar::I64));
        self.name_type("F64", TypeName::Builtin(Scalar::F64));
        self.name_type("Bool", TypeName::Builtin(Scalar::Bool));
        self.name_type("String", TypeName::Builtin(Scalar::Str));
        self.name_type("Bytes", TypeName::Builtin(Scalar::Bytes));
        self.name_type("Listener", TypeName::Builtin(Scalar::Resource(Resource::Listener)));
        self.name_type("Connection", TypeName::Builtin(Scalar::Resource(Resource::Connection)));
        self.name_type("File", TypeName::Builtin(Scalar::Resource(Resource::File)));
        self.name_type("Flow", TypeName::Builtin(Scalar::Resource(Resource::Flow)));
        self.name_type("IoError", TypeName::Enum(EnumId(IO_ERROR)));
        self.name_type("Option", TypeName::Enum(EnumId(OPTION)));
        self.name_type("Result", TypeName::Enum(EnumId(RESULT)));
        self.name_trait("Eq", TraitId(EQ));
    }

    fn taken(&self, name: &str) -> (r: bool)
        ensures
            r == taken(self@, name@),
    {
        self.type_named(name).is_some() || self.trait_named(name).is_some()
    }

    pub fn kept_params(&mut self, params: &Vec<ast::TypeParam>) -> (r: Vec<usize>)
        ensures
            final(self)@ == kept_params(old(self)@, params@).0,
            r@ == kept_params(old(self)@, params@).1,
            forall|i: int| 0 <= i < r@.len() ==> r@[i] < params.len(),
    {
        let mut kept: Vec<usize> = Vec::new();
        let ghost start = self@;
        let ghost all = params@;
        assert(all.take(0) =~= seq![]);
        assert(kept@ =~= seq![]);
        for i in 0..params.len()
            invariant
                all == params@,
                self@ == kept_params(start, all.take(i as int)).0,
                kept@ == kept_params(start, all.take(i as int)).1,
                forall|j: int| 0 <= j < kept@.len() ==> kept@[j] < i,
        {
            let ghost front = all.take(i + 1);
            assert(front.drop_last() =~= all.take(i as int));
            assert(front.last() == params@[i as int]);
            let name = &params[i].name;
            let names = kept_names(params, &kept);
            assert(names_at(params@, kept@) =~= names_at(front, kept@));
            if same(name.name.as_str(), "Self") {
                self.push(say::self_type_param(name.span));
            } else if copies::holds(&names, name.name.as_str()) {
                self.push(say::type_param_twice(name.span, name.name.as_str()));
            } else {
                kept.push(i);
            }
        }
        assert(all.take(params.len() as int) =~= all);
        kept
    }

    fn refuse_bounds(&mut self, params: &Vec<ast::TypeParam>)
        ensures
            final(self)@ == refuse_bounds(old(self)@, params@),
    {
        let ghost start = self@;
        let ghost all = params@;
        assert(all.take(0) =~= seq![]);
        for i in 0..params.len()
            invariant
                all == params@,
                self@ == refuse_bounds(start, all.take(i as int)),
        {
            assert(all.take(i + 1).drop_last() =~= all.take(i as int));
            if params[i].bounds.len() > 0 {
                self.push(say::bound_refused(params[i].span, params[i].name.name.as_str()));
            }
        }
        assert(all.take(params.len() as int) =~= all);
    }

    fn type_param_names(&mut self, params: &Vec<ast::TypeParam>) -> (r: Vec<String>)
        ensures
            final(self)@ == type_param_names(old(self)@, params@).0,
            texts(r@) == type_param_names(old(self)@, params@).1,
    {
        proof {
            reveal(type_param_names);
        }
        let kept = self.kept_params(params);
        let names = kept_names(params, &kept);
        self.refuse_bounds(params);
        names
    }

    fn declare_struct(&mut self, decl: &ast::StructDecl)
        ensures
            final(self)@ == declare_struct(old(self)@, *decl),
    {
        proof {
            reveal(declare_struct);
        }
        let name = decl.name.name.as_str();
        if self.taken(name) {
            self.push(say::declared_twice(decl.name.span, name, "duplicate type"));
            return ;
        }
        let type_params = self.type_param_names(&decl.type_params);
        let fields: Vec<FieldDef> = Vec::new();
        assert(fields_of(fields@) =~= seq![]);
        let id = self.add_struct(
            StructDef { name: decl.name.name.clone(), type_params, fields, span: decl.span },
        );
        self.name_type(name, TypeName::Struct(id));
    }

    fn declare_enum(&mut self, decl: &ast::EnumDecl)
        ensures
            final(self)@ == declare_enum(old(self)@, *decl),
    {
        proof {
            reveal(declare_enum);
        }
        let name = decl.name.name.as_str();
        if self.taken(name) {
            self.push(say::declared_twice(decl.name.span, name, "duplicate type"));
            return ;
        }
        let type_params = self.type_param_names(&decl.type_params);
        let variants: Vec<VariantDef> = Vec::new();
        assert(variants_of(variants@) =~= seq![]);
        let id = self.add_enum(
            EnumDef { name: decl.name.name.clone(), type_params, variants, span: decl.span },
        );
        self.name_type(name, TypeName::Enum(id));
    }

    fn declare_reactor(&mut self, decl: &ast::ReactorDecl)
        ensures
            final(self)@ == declare_reactor(old(self)@, *decl),
    {
        proof {
            reveal(declare_reactor);
        }
        let name = decl.name.name.as_str();
        if self.taken(name) {
            self.push(say::declared_twice(decl.name.span, name, "duplicate type"));
            return ;
        }
        let params: Vec<(String, Ty)> = Vec::new();
        let inputs: Vec<InputDef> = Vec::new();
        let nodes: Vec<Node> = Vec::new();
        assert(named_tys(params@) =~= seq![]);
        assert(crate::hir::inputs_of(inputs@) =~= seq![]);
        assert(crate::hir::nodes_of(nodes@) =~= seq![]);
        let def = ReactorDef {
            name: self.qualified(name),
            params,
            uses: Vec::new(),
            inputs,
            nodes,
            slots: Vec::new(),
            order: Vec::new(),
            exports: Vec::new(),
            init: None,
            span: decl.span,
        };
        assert(def@ == empty_reactor(self@.qualified(name@), decl.span));
        let id = self.add_reactor(def);
        self.name_reactor(name, id);
        self.name_type(name, TypeName::Reactor(id));
    }

    fn declare_trait(&mut self, decl: &ast::TraitDecl)
        ensures
            final(self)@ == declare_trait(old(self)@, *decl),
    {
        proof {
            reveal(declare_trait);
        }
        let name = decl.name.name.as_str();
        if self.taken(name) {
            self.push(say::declared_twice(decl.name.span, name, "duplicate declaration"));
            return ;
        }
        let methods: Vec<TraitMethod> = Vec::new();
        assert(crate::hir::methods_of(methods@) =~= seq![]);
        let def = TraitDef { name: self.qualified(name), module: self.current(), methods };
        let id = self.add_trait(def);
        self.name_trait(name, id);
    }

    pub fn declare_types(&mut self, module: &ast::Module)
        ensures
            final(self)@ == declare_types(old(self)@, *module),
    {
        proof {
            reveal(declare_types);
        }
        self.seed_types();
        let ghost start = self@;
        let ghost all = module.items@;
        assert(all.take(0) =~= seq![]);
        for i in 0..module.items.len()
            invariant
                all == module.items@,
                self@ == declare_types_of(start, all.take(i as int)),
        {
            assert(all.take(i + 1).drop_last() =~= all.take(i as int));
            match &module.items[i] {
                ast::Item::Struct(decl) => self.declare_struct(decl),
                ast::Item::Enum(decl) => self.declare_enum(decl),
                ast::Item::Reactor(decl) => self.declare_reactor(decl),
                ast::Item::Trait(decl) => self.declare_trait(decl),
                _ => {},
            }
        }
        assert(all.take(module.items.len() as int) =~= all);
    }

    fn define_fields(&mut self, decls: &Vec<ast::FieldDecl>) -> (r: Vec<FieldDef>)
        ensures
            final(self)@ == define_fields(old(self)@, decls@).0,
            fields_of(r@) == define_fields(old(self)@, decls@).1,
    {
        let mut r: Vec<FieldDef> = Vec::new();
        let ghost start = self@;
        let ghost all = decls@;
        assert(all.take(0) =~= seq![]);
        assert(fields_of(r@) =~= seq![]);
        for i in 0..decls.len()
            invariant
                all == decls@,
                self@ == define_fields(start, all.take(i as int)).0,
                fields_of(r@) == define_fields(start, all.take(i as int)).1,
        {
            let ghost before = fields_of(r@);
            assert(all.take(i + 1).drop_last() =~= all.take(i as int));
            let name = &decls[i].name;
            if holds_field(&r, name.name.as_str()) {
                self.push(say::field_twice(name.span, name.name.as_str()));
            } else {
                let ty = self.resolve_ty(&decls[i].ty);
                let field = FieldDef { name: name.name.clone(), ty, span: decls[i].span };
                let ghost view = field@;
                r.push(field);
                assert(fields_of(r@) =~= before.push(view));
            }
        }
        assert(all.take(decls.len() as int) =~= all);
        r
    }

    fn tuple_fields(&mut self, types: &Vec<ast::Type>) -> (r: Vec<FieldDef>)
        ensures
            final(self)@ == tuple_fields(old(self)@, types@).0,
            fields_of(r@) == tuple_fields(old(self)@, types@).1,
    {
        let mut r: Vec<FieldDef> = Vec::new();
        let ghost start = self@;
        let ghost all = types@;
        assert(all.take(0) =~= seq![]);
        assert(fields_of(r@) =~= seq![]);
        for i in 0..types.len()
            invariant
                all == types@,
                self@ == tuple_fields(start, all.take(i as int)).0,
                fields_of(r@) == tuple_fields(start, all.take(i as int)).1,
        {
            let ghost before = fields_of(r@);
            assert(all.take(i + 1).drop_last() =~= all.take(i as int));
            let ty = self.resolve_ty(&types[i]);
            let field = FieldDef { name: number(i), ty, span: types[i].span };
            let ghost view = field@;
            r.push(field);
            assert(fields_of(r@) =~= before.push(view));
        }
        assert(all.take(types.len() as int) =~= all);
        r
    }

    fn record_fields(&mut self, decls: &Vec<ast::FieldDecl>) -> (r: Vec<FieldDef>)
        ensures
            final(self)@ == record_fields(old(self)@, decls@).0,
            fields_of(r@) == record_fields(old(self)@, decls@).1,
    {
        let mut r: Vec<FieldDef> = Vec::new();
        let ghost start = self@;
        let ghost all = decls@;
        assert(all.take(0) =~= seq![]);
        assert(fields_of(r@) =~= seq![]);
        for i in 0..decls.len()
            invariant
                all == decls@,
                self@ == record_fields(start, all.take(i as int)).0,
                fields_of(r@) == record_fields(start, all.take(i as int)).1,
        {
            let ghost before = fields_of(r@);
            assert(all.take(i + 1).drop_last() =~= all.take(i as int));
            let ty = self.resolve_ty(&decls[i].ty);
            let field = FieldDef { name: decls[i].name.name.clone(), ty, span: decls[i].span };
            let ghost view = field@;
            r.push(field);
            assert(fields_of(r@) =~= before.push(view));
        }
        assert(all.take(decls.len() as int) =~= all);
        r
    }

    fn payload(&mut self, p: &ast::VariantPayload) -> (r: Vec<FieldDef>)
        ensures
            final(self)@ == payload(old(self)@, *p).0,
            fields_of(r@) == payload(old(self)@, *p).1,
    {
        proof {
            reveal(payload);
        }
        match p {
            ast::VariantPayload::Unit => {
                let r: Vec<FieldDef> = Vec::new();
                assert(fields_of(r@) =~= seq![]);
                r
            },
            ast::VariantPayload::Tuple(types) => self.tuple_fields(types),
            ast::VariantPayload::Struct(decls) => self.record_fields(decls),
        }
    }

    fn define_variants(&mut self, decls: &Vec<ast::VariantDecl>) -> (r: Vec<VariantDef>)
        ensures
            final(self)@ == define_variants(old(self)@, decls@).0,
            variants_of(r@) == define_variants(old(self)@, decls@).1,
    {
        let mut r: Vec<VariantDef> = Vec::new();
        let ghost start = self@;
        let ghost all = decls@;
        assert(all.take(0) =~= seq![]);
        assert(variants_of(r@) =~= seq![]);
        for i in 0..decls.len()
            invariant
                all == decls@,
                self@ == define_variants(start, all.take(i as int)).0,
                variants_of(r@) == define_variants(start, all.take(i as int)).1,
        {
            let ghost before = variants_of(r@);
            assert(all.take(i + 1).drop_last() =~= all.take(i as int));
            let fields = self.payload(&decls[i].payload);
            let positional = match &decls[i].payload {
                ast::VariantPayload::Struct(_) => false,
                _ => true,
            };
            let variant = VariantDef {
                name: decls[i].name.name.clone(),
                fields,
                positional,
                span: decls[i].span,
            };
            let ghost view = variant@;
            r.push(variant);
            assert(variants_of(r@) =~= before.push(view));
        }
        assert(all.take(decls.len() as int) =~= all);
        r
    }

    fn define_type(&mut self, item: &ast::Item)
        ensures
            final(self)@ == define_type(old(self)@, *item),
    {
        proof {
            reveal(define_type);
        }
        match item {
            ast::Item::Struct(decl) => {
                if let Some(TypeName::Struct(id)) = self.type_named(decl.name.name.as_str()) {
                    let params = self.struct_params(id);
                    self.set_type_params(params);
                    let fields = self.define_fields(&decl.fields);
                    self.set_struct_fields(id, fields);
                }
            },
            ast::Item::Enum(decl) => {
                if let Some(TypeName::Enum(id)) = self.type_named(decl.name.name.as_str()) {
                    let params = self.enum_params(id);
                    self.set_type_params(params);
                    let variants = self.define_variants(&decl.variants);
                    self.set_variants(id, variants);
                }
            },
            _ => {},
        }
    }

    fn no_type_params(&mut self)
        ensures
            final(self)@ == old(self)@.with_type_params(seq![]),
    {
        let none: Vec<String> = Vec::new();
        assert(texts(none@) =~= seq![]);
        self.set_type_params(none);
    }

    fn no_bounds(&mut self)
        ensures
            final(self)@ == old(self)@.with_bounds(seq![]),
    {
        let none: Vec<Vec<TraitId>> = Vec::new();
        assert(bounds_list(none@) =~= seq![]);
        self.set_bounds(none);
    }

    pub fn define_types(&mut self, module: &ast::Module)
        ensures
            final(self)@ == define_types(old(self)@, *module),
    {
        proof {
            reveal(define_types);
        }
        let ghost start = self@;
        let ghost all = module.items@;
        assert(all.take(0) =~= seq![]);
        for i in 0..module.items.len()
            invariant
                all == module.items@,
                self@ == define_types_of(start, all.take(i as int)),
        {
            assert(all.take(i + 1).drop_last() =~= all.take(i as int));
            self.no_type_params();
            self.define_type(&module.items[i]);
        }
        assert(all.take(module.items.len() as int) =~= all);
        self.no_type_params();
    }

    fn resolve_bounds(&mut self, paths: &Vec<ast::Path>) -> (r: Vec<TraitId>)
        ensures
            final(self)@ == resolve_bounds(old(self)@, paths@).0,
            r@ == resolve_bounds(old(self)@, paths@).1,
    {
        let mut r: Vec<TraitId> = Vec::new();
        let ghost start = self@;
        let ghost all = paths@;
        assert(all.take(0) =~= seq![]);
        assert(r@ =~= seq![]);
        for i in 0..paths.len()
            invariant
                all == paths@,
                self@ == resolve_bounds(start, all.take(i as int)).0,
                r@ == resolve_bounds(start, all.take(i as int)).1,
        {
            assert(all.take(i + 1).drop_last() =~= all.take(i as int));
            if let Some(id) = self.resolve_trait(&paths[i]) {
                if !holds_trait(&r, id) {
                    r.push(id);
                }
            }
        }
        assert(all.take(paths.len() as int) =~= all);
        r
    }

    fn bounds_at(&mut self, params: &Vec<ast::TypeParam>, kept: &Vec<usize>) -> (r: Vec<
        Vec<TraitId>,
    >)
        ensures
            final(self)@ == bounds_at(old(self)@, params@, kept@).0,
            bounds_list(r@) == bounds_at(old(self)@, params@, kept@).1,
    {
        let mut r: Vec<Vec<TraitId>> = Vec::new();
        let ghost start = self@;
        let ghost all = kept@;
        assert(all.take(0) =~= seq![]);
        assert(bounds_list(r@) =~= seq![]);
        for i in 0..kept.len()
            invariant
                all == kept@,
                self@ == bounds_at(start, params@, all.take(i as int)).0,
                bounds_list(r@) == bounds_at(start, params@, all.take(i as int)).1,
        {
            let ghost before = bounds_list(r@);
            assert(all.take(i + 1).drop_last() =~= all.take(i as int));
            let found = if kept[i] < params.len() {
                self.resolve_bounds(&params[kept[i]].bounds)
            } else {
                Vec::new()
            };
            let ghost view = found@;
            r.push(found);
            assert(bounds_list(r@) =~= before.push(view));
        }
        assert(all.take(kept.len() as int) =~= all);
        r
    }

    pub fn resolve_params(&mut self, params: &Vec<ast::Param>) -> (r: Vec<(String, Ty)>)
        ensures
            final(self)@ == resolve_params(old(self)@, params@).0,
            named_tys(r@) == resolve_params(old(self)@, params@).1,
    {
        let mut r: Vec<(String, Ty)> = Vec::new();
        let ghost start = self@;
        let ghost all = params@;
        assert(all.take(0) =~= seq![]);
        assert(named_tys(r@) =~= seq![]);
        for i in 0..params.len()
            invariant
                all == params@,
                self@ == resolve_params(start, all.take(i as int)).0,
                named_tys(r@) == resolve_params(start, all.take(i as int)).1,
        {
            let ghost before = named_tys(r@);
            assert(all.take(i + 1).drop_last() =~= all.take(i as int));
            let ty = self.resolve_param_ty(&params[i].ty);
            let ghost pair = (params@[i as int].name.name@, ty@);
            r.push((params[i].name.name.clone(), ty));
            assert(named_tys(r@) =~= before.push(pair));
        }
        assert(all.take(params.len() as int) =~= all);
        r
    }

    pub fn return_ty(&mut self, ret: &Option<ast::Type>) -> (r: Ty)
        ensures
            final(self)@ == return_ty(old(self)@, *ret).0,
            r@ == return_ty(old(self)@, *ret).1,
    {
        proof {
            reveal(return_ty);
        }
        match ret {
            Some(t) => self.resolve_ty(t),
            None => Ty::Unit,
        }
    }

    fn fn_refused(&self, name: &str, span: Span) -> (r: Option<crate::span::Diagnostic>)
        ensures
            maybe_report(r) == fn_refused(self@, name@, span),
    {
        proof {
            reveal(fn_refused);
        }
        if self.builtin_named(name).is_some() {
            return Some(say::builtin_fn_redefined(span, name));
        }
        if is_builtin_variant(name) {
            return Some(say::builtin_ctor_redefined(span, name));
        }
        match self.type_named(name) {
            Some(TypeName::Struct(_)) => {
                return Some(say::fn_clashes(span, name, "struct"));
            },
            Some(TypeName::Enum(_)) => {
                return Some(say::fn_clashes(span, name, "enum"));
            },
            Some(TypeName::Reactor(_)) => {
                return Some(say::fn_clashes(span, name, "reactor"));
            },
            _ => {},
        }
        if self.fn_named(name).is_some() {
            return Some(say::declared_twice(span, name, "duplicate function"));
        }
        None
    }

    fn entry_point(&mut self, decl: &ast::FnDecl, id: FnId, type_params: usize)
        ensures
            final(self)@ == entry_point(old(self)@, *decl, id, type_params as nat),
    {
        proof {
            reveal(entry_point);
        }
        if same(decl.name.name.as_str(), "main") && self.current() == 0 {
            if type_params == 0 {
                self.set_main(id);
            } else {
                self.push(say::generic_main(decl.name.span));
            }
        }
    }

    fn declare_fn(&mut self, decl: &ast::FnDecl) -> (r: Option<FnId>)
        ensures
            final(self)@ == declare_fn(old(self)@, *decl).0,
            r == declare_fn(old(self)@, *decl).1,
    {
        proof {
            reveal(declare_fn);
        }
        let name = decl.name.name.as_str();
        if let Some(d) = self.fn_refused(name, decl.name.span) {
            self.push(d);
            return None;
        }
        let kept = self.kept_params(&decl.type_params);
        let type_params = kept_names(&decl.type_params, &kept);
        assert(texts(type_params@).len() == type_params@.len());
        let count: usize = type_params.len();
        let bounds = self.bounds_at(&decl.type_params, &kept);
        self.set_type_params(copies::strings(&type_params));
        let params = self.resolve_params(&decl.params);
        let ret = self.return_ty(&decl.ret);
        self.no_type_params();
        let uses = self.capabilities(&decl.uses);
        let id = self.next_fn();
        let (modes, pins) = modes_and_pins(&decl.params);
        let locals: Vec<LocalDef> = Vec::new();
        let no_modes: Vec<Mode> = Vec::new();
        assert(locals_of(locals@) =~= seq![]);
        assert(no_modes@ =~= seq![]);
        assert(named_tys(params@).len() == params@.len());
        let def = FnDef {
            name: self.qualified(name),
            type_params,
            is_task: decl.is_task,
            uses,
            params: params.len(),
            modes: no_modes,
            locals,
            ret,
            body: error_expr(decl.span),
            inert: false,
            span: decl.span,
        };
        let owner: usize = self.current();
        self.add_fn(FnParts { def, owner, bounds, params, modes, pins });
        self.name_fn(name, id);
        self.entry_point(decl, id, count);
        Some(id)
    }

    pub fn declare_fns(&mut self, module: &ast::Module)
        ensures
            final(self)@ == declare_fns(old(self)@, *module),
    {
        proof {
            reveal(declare_fns);
        }
        let mut list: Vec<Option<FnId>> = Vec::new();
        let ghost start = self@;
        let ghost all = module.items@;
        assert(all.take(0) =~= seq![]);
        assert(list@ =~= seq![]);
        for i in 0..module.items.len()
            invariant
                all == module.items@,
                self@ == declare_fns_of(start, all.take(i as int)).0,
                list@ == declare_fns_of(start, all.take(i as int)).1,
        {
            assert(all.take(i + 1).drop_last() =~= all.take(i as int));
            match &module.items[i] {
                ast::Item::Fn(decl) => {
                    let id = self.declare_fn(decl);
                    list.push(id);
                },
                _ => list.push(None),
            }
        }
        assert(all.take(module.items.len() as int) =~= all);
        self.set_fn_of_item(list);
    }

    fn bind_params_of(&mut self, params: &Vec<(String, Ty)>, decls: &Vec<ast::Param>)
        ensures
            final(self)@ == bind_params_of(old(self)@, named_tys(params@), decls@),
    {
        let ghost start = self@;
        let ghost all = named_tys(params@);
        assert(all.take(0) =~= seq![]);
        for i in 0..params.len()
            invariant
                all == named_tys(params@),
                self@ == bind_params_of(start, all.take(i as int), decls@),
        {
            assert(all.take(i + 1).drop_last() =~= all.take(i as int));
            assert(all.take(i + 1)[i as int] == (params@[i as int].0@, params@[i as int].1@));
            if i < decls.len() {
                let _ = self.declare_param(
                    params[i].0.as_str(),
                    params[i].1.copy(),
                    decls[i].name.span,
                );
            }
        }
        assert(all.take(params.len() as int) =~= all);
    }

    fn enter(&mut self, id: FnId, is_task: bool, display: String)
        ensures
            final(self)@ == entering(old(self)@, id, is_task, display@),
    {
        proof {
            reveal(entering);
        }
        let (_, ret) = self.signature(id);
        let uses = self.fn_uses(id);
        let type_params = self.fn_type_params(id);
        let bounds = self.fn_param_bounds(id);
        self.start_fresh();
        self.set_ret(ret);
        self.set_fn_name(display);
        let ctx = if is_task {
            Ctx::Task
        } else {
            Ctx::Plain
        };
        self.set_ctx(ctx);
        self.set_members(Table::new());
        self.set_reactor(None);
        self.set_in_handler(false);
        self.set_uses(uses);
        self.set_scope_depth(0);
        self.set_type_params(type_params);
        self.set_bounds(bounds);
    }

    fn check_fn_body(&mut self, id: FnId, decl: &ast::FnDecl, display: String)
        ensures
            final(self)@ == check_fn_body(old(self)@, id, *decl, display@),
    {
        proof {
            reveal(check_fn_body);
        }
        if !decl.is_task && decl.uses.len() > 0 {
            self.push(say::uses_on_plain_fn(decl.span));
        }
        let (params, ret) = self.signature(id);
        self.enter(id, decl.is_task, display);
        self.bind_params_of(&params, &decl.params);
        let b = self.body(&decl.body, &Some(ret));
        self.no_type_params();
        self.no_bounds();
        self.set_body(id, b);
    }

    fn check_impl_fns(
        &mut self,
        receiver: &Ty,
        methods: &Vec<(String, Option<FnId>)>,
        fns: &Vec<ast::FnDecl>,
    )
        ensures
            final(self)@ == check_impl_fns(
                old(self)@,
                receiver@,
                crate::hir::provided(methods@),
                fns@,
            ),
    {
        let ghost start = self@;
        let ghost all = crate::hir::provided(methods@);
        assert(all.take(0) =~= seq![]);
        for i in 0..methods.len()
            invariant
                all == crate::hir::provided(methods@),
                self@ == check_impl_fns(start, receiver@, all.take(i as int), fns@),
        {
            assert(all.take(i + 1).drop_last() =~= all.take(i as int));
            assert(all.take(i + 1)[i as int].1 == methods@[i as int].1);
            if let Some(id) = methods[i].1 {
                if i < fns.len() {
                    let display = self.fn_display(id);
                    self.set_self_ty(Some(receiver.copy()));
                    self.check_fn_body(id, &fns[i], display);
                    self.set_self_ty(None);
                }
            }
        }
        assert(all.take(methods.len() as int) =~= all);
    }

    fn impl_of_item(&self, item: usize) -> (r: Option<(Ty, Vec<(String, Option<FnId>)>)>)
        ensures
            match impl_of_item(self@.impls, self@.current, item as int) {
                Some(i) => r matches Some(got) && got.0@ == i.receiver && crate::hir::provided(
                    got.1@,
                ) == i.methods,
                None => r is None,
            },
    {
        proof {
            reveal(Checker::view);
        }
        let ghost all = crate::hir::impls_of(self.impls@);
        assert(all.take(0) =~= seq![]);
        let mut found: Option<usize> = None;
        for k in 0..self.impls.len()
            invariant
                all == crate::hir::impls_of(self.impls@),
                match impl_of_item(all.take(k as int), self.current, item as int) {
                    Some(i) => found matches Some(at) && at < self.impls.len() && i
                        == self.impls@[at as int]@,
                    None => found is None,
                },
        {
            assert(all.take(k + 1).drop_last() =~= all.take(k as int));
            assert(all.take(k + 1).last() == self.impls@[k as int]@);
            if found.is_none() && self.impls[k].module == self.current && self.impls[k].item
                == item {
                found = Some(k);
            }
        }
        assert(all.take(self.impls.len() as int) =~= all);
        match found {
            Some(at) => {
                let i = &self.impls[at];
                Some((i.receiver.copy(), copy_provided(&i.methods)))
            },
            None => None,
        }
    }

    fn check_item(&mut self, item: &ast::Item, index: usize)
        ensures
            final(self)@ == check_item(old(self)@, *item, index as int),
    {
        proof {
            reveal(check_item);
        }
        match item {
            ast::Item::Fn(decl) => {
                if let Some(id) = self.item_fn(index) {
                    self.check_fn_body(id, decl, decl.name.name.clone());
                }
            },
            ast::Item::Impl(decl) => {
                if let Some((receiver, methods)) = self.impl_of_item(index) {
                    self.check_impl_fns(&receiver, &methods, &decl.fns);
                }
            },
            _ => {},
        }
    }

    pub fn check_fns(&mut self, module: &ast::Module)
        ensures
            final(self)@ == check_fns(old(self)@, *module),
    {
        proof {
            reveal(check_fns);
        }
        let ghost start = self@;
        let ghost all = module.items@;
        assert(all.take(0) =~= seq![]);
        for i in 0..module.items.len()
            invariant
                all == module.items@,
                self@ == check_items(start, all.take(i as int)),
        {
            assert(all.take(i + 1).drop_last() =~= all.take(i as int));
            self.check_item(&module.items[i], i);
        }
        assert(all.take(module.items.len() as int) =~= all);
    }

    pub fn declare_lifted(&mut self, name: String, span: Span) -> (r: FnId)
        ensures
            final(self)@ == declare_lifted(old(self)@, name@, span).0,
            r == declare_lifted(old(self)@, name@, span).1,
    {
        proof {
            reveal(declare_lifted);
        }
        let id = self.next_fn();
        let owner: usize = self.current();
        let def = crate::instances::bodiless_fn(name, false, 0, Ty::Error, span);
        let bounds: Vec<Vec<TraitId>> = Vec::new();
        let params: Vec<(String, Ty)> = Vec::new();
        assert(bounds_list(bounds@) =~= seq![]);
        assert(named_tys(params@) =~= seq![]);
        self.add_fn(
            FnParts { def, owner, bounds, params, modes: Vec::new(), pins: Vec::new() },
        );
        id
    }
}

fn copy_provided(v: &Vec<(String, Option<FnId>)>) -> (r: Vec<(String, Option<FnId>)>)
    ensures
        crate::hir::provided(r@) == crate::hir::provided(v@),
{
    let mut r: Vec<(String, Option<FnId>)> = Vec::new();
    for i in 0..v.len()
        invariant
            r.len() == i,
            forall|j: int|
                0 <= j < i ==> (#[trigger] r@[j]).0@ == v@[j].0@ && r@[j].1 == v@[j].1,
    {
        r.push((v[i].0.clone(), v[i].1));
    }
    assert(crate::hir::provided(r@) =~= crate::hir::provided(v@));
    r
}

} // verus!
