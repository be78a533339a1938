//! What checking a program keeps track of, as plain values.

use vstd::prelude::*;
use crate::copies::place_of;
use crate::hir::{
    Capability, EnumId, FnId, LocalId, LocalRole, Mode, NodeId, ReactorId, Resource, StructId,
    TraitId,
};
use crate::model;
use crate::span::{Report, Span};
use crate::table::find;

verus! {

/// What kind of thing a file declares under a name.
#[derive(Clone, Copy, PartialEq, Eq, Structural, Debug)]
pub enum DeclKind {
    Fn,
    Struct,
    Enum,
    Trait,
    Reactor,
}

impl DeclKind {
    pub open spec fn word(self) -> Seq<char> {
        match self {
            DeclKind::Fn => "function"@,
            DeclKind::Struct => "struct"@,
            DeclKind::Enum => "enum"@,
            DeclKind::Trait => "trait"@,
            DeclKind::Reactor => "reactor"@,
        }
    }

    pub fn describe(self) -> (r: &'static str)
        ensures
            r@ == self.word(),
    {
        match self {
            DeclKind::Fn => "function",
            DeclKind::Struct => "struct",
            DeclKind::Enum => "enum",
            DeclKind::Trait => "trait",
            DeclKind::Reactor => "reactor",
        }
    }
}

/// What a reactor member is, for the sake of a diagnostic about reading it in the wrong place.
#[derive(Clone, Copy, PartialEq, Eq, Structural, Debug)]
pub enum Sort {
    Param,
    Input,
    State,
    Signal,
}

impl Sort {
    pub open spec fn word(self) -> Seq<char> {
        match self {
            Sort::Param => "parameter"@,
            Sort::Input => "input"@,
            Sort::State => "state"@,
            Sort::Signal => "signal"@,
        }
    }

    pub fn describe(self) -> (r: &'static str)
        ensures
            r@ == self.word(),
    {
        match self {
            Sort::Param => "parameter",
            Sort::Input => "input",
            Sort::State => "state",
            Sort::Signal => "signal",
        }
    }
}

/// What kind of expression is being checked, and therefore what it is allowed to do.
#[derive(Clone, Copy, PartialEq, Eq, Structural, Debug)]
pub enum Ctx {
    /// An ordinary `fn`.
    Plain,
    /// A `task fn`.
    Task,
    /// A signal body, a state initialiser, or an `on` handler.
    Turn,
    /// The operand of `after`: evaluated during the turn, started after it.
    Effect,
}

impl Ctx {
    pub open spec fn may_build(self) -> bool {
        self == Ctx::Task || self == Ctx::Effect
    }

    pub open spec fn may_suspend(self) -> bool {
        self == Ctx::Task
    }

    pub open spec fn is_turn(self) -> bool {
        self == Ctx::Turn || self == Ctx::Effect
    }

    /// Whether a task may be *built* here. Building is not running, which is the whole reason
    /// `after` can describe an effect without performing one.
    pub fn builds_tasks(self) -> (r: bool)
        ensures
            r == self.may_build(),
    {
        match self {
            Ctx::Task | Ctx::Effect => true,
            _ => false,
        }
    }

    /// Whether execution may suspend here.
    pub fn suspends(self) -> (r: bool)
        ensures
            r == self.may_suspend(),
    {
        match self {
            Ctx::Task => true,
            _ => false,
        }
    }

    /// Whether this runs inside a turn, and so may not be observable from outside it.
    pub fn in_turn(self) -> (r: bool)
        ensures
            r == self.is_turn(),
    {
        match self {
            Ctx::Turn | Ctx::Effect => true,
            _ => false,
        }
    }
}

/// Where execution may suspend, a task may be built, and no turn runs there: a turn can describe
/// work and never wait for it.
pub proof fn turns_never_suspend(ctx: Ctx)
    ensures
        ctx.may_suspend() ==> ctx.may_build() && !ctx.is_turn(),
{
}

/// A built-in type that a bare name spells.
#[derive(Clone, Copy, PartialEq, Eq, Structural, Debug)]
pub enum Scalar {
    I64,
    F64,
    Bool,
    Str,
    Bytes,
    Resource(Resource),
}

impl Scalar {
    pub open spec fn ty(self) -> model::Ty {
        match self {
            Scalar::I64 => model::Ty::I64,
            Scalar::F64 => model::Ty::F64,
            Scalar::Bool => model::Ty::Bool,
            Scalar::Str => model::Ty::Str,
            Scalar::Bytes => model::Ty::Bytes,
            Scalar::Resource(r) => model::Ty::Resource(r),
        }
    }

    pub fn spelled(self) -> (r: crate::hir::Ty)
        ensures
            r@ == self.ty(),
    {
        match self {
            Scalar::I64 => crate::hir::Ty::I64,
            Scalar::F64 => crate::hir::Ty::F64,
            Scalar::Bool => crate::hir::Ty::Bool,
            Scalar::Str => crate::hir::Ty::Str,
            Scalar::Bytes => crate::hir::Ty::Bytes,
            Scalar::Resource(r) => crate::hir::Ty::Resource(r),
        }
    }
}

/// What a name at the head of a path refers to in type position.
#[derive(Clone, Copy, PartialEq, Eq, Structural, Debug)]
pub enum TypeName {
    Struct(StructId),
    Enum(EnumId),
    Reactor(ReactorId),
    Builtin(Scalar),
}

/// What a name reached through a module namespace refers to.
#[derive(Clone, Copy, PartialEq, Eq, Structural, Debug)]
pub enum NsItem {
    Fn(FnId),
    Struct(StructId),
    Enum(EnumId),
    Reactor(ReactorId),
}

/// A type instance whose fields still need substituting, and the depth that resumes at.
#[derive(Clone, Copy, PartialEq, Eq, Structural, Debug)]
pub enum Fill {
    Struct(usize, usize),
    Enum(usize, usize),
}

/// One module's namespaces.
pub struct Ns {
    pub types: Map<Seq<char>, TypeName>,
    pub fns: Map<Seq<char>, FnId>,
    pub reactors: Map<Seq<char>, ReactorId>,
    pub traits: Map<Seq<char>, TraitId>,
    pub namespaces: Map<Seq<char>, usize>,
}

/// One enclosing loop, as `break` and `continue` see it.
pub struct Loop {
    /// `loop` rather than `while`. Only a `loop` may be left with a value.
    pub is_loop: bool,
    /// What a `loop` produces: the expectation when there is one, else what the first `break`
    /// with a value settled.
    pub result: Option<model::Ty>,
    pub saw_break: bool,
    /// Where the first `break` with a value is.
    pub first_value: Option<Span>,
}

/// A struct template at given arguments. `serial` counts the instances made before it.
pub struct StructInstance {
    pub template: StructId,
    pub args: Seq<model::Ty>,
    pub id: StructId,
    pub module: usize,
    pub at: Span,
    pub serial: usize,
}

pub struct EnumInstance {
    pub template: EnumId,
    pub args: Seq<model::Ty>,
    pub id: EnumId,
    pub module: usize,
    pub at: Span,
    pub serial: usize,
}

/// A generic function at given arguments. `symbolic` marks arguments that still mention a type
/// parameter.
pub struct FnInstance {
    pub template: FnId,
    pub args: Seq<model::Ty>,
    pub id: FnId,
    pub module: usize,
    pub at: Span,
    pub symbolic: bool,
    pub depth: usize,
}

/// A method call on a bounded type parameter, until its receiver is known.
pub struct Stub {
    pub trait_id: TraitId,
    pub method: Seq<char>,
    pub receiver: model::Ty,
    pub id: FnId,
}

/// Everything the checker knows at one point.
pub struct State {
    pub vocabulary: model::Vocabulary,
    pub program: model::Program,
    pub errors: Seq<Seq<Report>>,
    pub ns: Seq<Ns>,
    pub current: usize,
    pub fn_owner: Seq<usize>,
    pub reactor_owner: Seq<usize>,
    pub struct_owner: Seq<usize>,
    pub enum_owner: Seq<usize>,
    pub fn_of_item: Seq<Seq<Option<FnId>>>,
    pub names: Seq<Seq<char>>,
    pub keys: Seq<Seq<char>>,
    pub stems: Seq<Seq<char>>,
    pub key_index: Map<Seq<char>, usize>,
    pub decls: Seq<Map<Seq<char>, (DeclKind, bool)>>,
    pub import_target: Seq<Seq<Option<usize>>>,
    pub pending_fn_imports: Seq<(usize, Seq<char>, usize, Seq<char>)>,
    pub signatures: Seq<(Seq<(Seq<char>, model::Ty)>, model::Ty)>,
    pub param_modes: Seq<Seq<Mode>>,
    pub mode_pinned: Seq<Seq<bool>>,
    pub fn_bounds: Seq<Seq<Seq<TraitId>>>,
    pub traits: Seq<model::TraitDef>,
    pub impls: Seq<model::ImplDef>,
    pub locals: Seq<model::LocalDef>,
    pub scopes: Seq<Seq<(Seq<char>, LocalId)>>,
    pub loops: Seq<Loop>,
    pub ret: model::Ty,
    pub fn_name: Seq<char>,
    pub ctx: Ctx,
    pub uses: Seq<Capability>,
    pub scope_depth: usize,
    pub members: Map<Seq<char>, Sort>,
    pub reactor: Option<ReactorId>,
    pub in_handler: bool,
    pub assigning: bool,
    pub type_params: Seq<Seq<char>>,
    pub bounds: Seq<Seq<TraitId>>,
    pub self_ty: Option<model::Ty>,
    pub struct_instances: Seq<StructInstance>,
    pub enum_instances: Seq<EnumInstance>,
    pub fn_instances: Seq<FnInstance>,
    pub stubs: Seq<Stub>,
    pub fill_queue: Seq<Fill>,
    pub fill_cursor: usize,
    pub worklist: Seq<FnId>,
    pub work_cursor: usize,
    pub defining_types: bool,
    pub cap_reported: bool,
}

/// The four constructor names that stay bare, and in exchange are unbindable.
pub open spec fn builtin_variant(name: Seq<char>) -> bool {
    name == "None"@ || name == "Some"@ || name == "Ok"@ || name == "Err"@
}

pub open spec fn no_span() -> Span {
    Span { start: 0, end: 0 }
}

impl State {
    /// One more diagnostic for the file being looked at.
    #[verifier::opaque]
    pub open spec fn push(self, r: Report) -> State {
        if self.current < self.errors.len() {
            State {
                errors: self.errors.update(
                    self.current as int,
                    self.errors[self.current as int].push(r),
                ),
                ..self
            }
        } else {
            self
        }
    }

    /// The namespaces of the file being looked at.
    #[verifier::opaque]
    pub open spec fn here(self) -> Ns {
        self.at(self.current)
    }

    #[verifier::opaque]
    pub open spec fn at(self, module: usize) -> Ns {
        if module < self.ns.len() {
            self.ns[module as int]
        } else {
            Ns {
                types: Map::empty(),
                fns: Map::empty(),
                reactors: Map::empty(),
                traits: Map::empty(),
                namespaces: Map::empty(),
            }
        }
    }

    #[verifier::opaque]
    pub open spec fn type_named(self, name: Seq<char>) -> Option<TypeName> {
        find(self.here().types, name)
    }

    #[verifier::opaque]
    pub open spec fn fn_named(self, name: Seq<char>) -> Option<FnId> {
        find(self.here().fns, name)
    }

    #[verifier::opaque]
    pub open spec fn namespace_named(self, name: Seq<char>) -> Option<usize> {
        find(self.here().namespaces, name)
    }

    #[verifier::opaque]
    pub open spec fn trait_named(self, name: Seq<char>) -> Option<TraitId> {
        find(self.here().traits, name)
    }

    #[verifier::opaque]
    pub open spec fn reactor_named(self, name: Seq<char>) -> Option<ReactorId> {
        find(self.here().reactors, name)
    }

    /// What a module declares under a name, and whether it exports it.
    #[verifier::opaque]
    pub open spec fn decl(self, module: usize, name: Seq<char>) -> Option<(DeclKind, bool)> {
        if module < self.decls.len() {
            find(self.decls[module as int], name)
        } else {
            None
        }
    }

    /// How a module is named in a diagnostic.
    #[verifier::opaque]
    pub open spec fn module_name(self, module: usize) -> Seq<char> {
        if module < self.names.len() {
            self.names[module as int]
        } else {
            ""@
        }
    }

    #[verifier::opaque]
    pub open spec fn member(self, name: Seq<char>) -> Option<Sort> {
        find(self.members, name)
    }

    #[verifier::opaque]
    pub open spec fn ty_name(self, t: model::Ty) -> Seq<char> {
        crate::types::ty_name(self.program, t)
    }

    // ------------------------------------------------------------ declarations by id

    #[verifier::opaque]
    pub open spec fn struct_name(self, id: StructId) -> Seq<char> {
        if id.0 < self.program.structs.len() {
            self.program.structs[id.0 as int].name
        } else {
            "_"@
        }
    }

    #[verifier::opaque]
    pub open spec fn struct_fields(self, id: StructId) -> Seq<model::FieldDef> {
        if id.0 < self.program.structs.len() {
            self.program.structs[id.0 as int].fields
        } else {
            seq![]
        }
    }

    #[verifier::opaque]
    pub open spec fn struct_params(self, id: StructId) -> Seq<Seq<char>> {
        if id.0 < self.program.structs.len() {
            self.program.structs[id.0 as int].type_params
        } else {
            seq![]
        }
    }

    #[verifier::opaque]
    pub open spec fn struct_span(self, id: StructId) -> Span {
        if id.0 < self.program.structs.len() {
            self.program.structs[id.0 as int].span
        } else {
            no_span()
        }
    }

    #[verifier::opaque]
    pub open spec fn enum_name(self, id: EnumId) -> Seq<char> {
        if id.0 < self.program.enums.len() {
            self.program.enums[id.0 as int].name
        } else {
            "_"@
        }
    }

    #[verifier::opaque]
    pub open spec fn enum_variants(self, id: EnumId) -> Seq<model::VariantDef> {
        if id.0 < self.program.enums.len() {
            self.program.enums[id.0 as int].variants
        } else {
            seq![]
        }
    }

    #[verifier::opaque]
    pub open spec fn enum_params(self, id: EnumId) -> Seq<Seq<char>> {
        if id.0 < self.program.enums.len() {
            self.program.enums[id.0 as int].type_params
        } else {
            seq![]
        }
    }

    #[verifier::opaque]
    pub open spec fn enum_span(self, id: EnumId) -> Span {
        if id.0 < self.program.enums.len() {
            self.program.enums[id.0 as int].span
        } else {
            no_span()
        }
    }

    /// Which variant of an enum a name names.
    #[verifier::opaque]
    pub open spec fn variant_place(self, id: EnumId, name: Seq<char>) -> Option<int> {
        place_of(variant_names(self.enum_variants(id)), name)
    }

    #[verifier::opaque]
    pub open spec fn variant_fields(self, id: EnumId, index: int) -> Seq<model::FieldDef> {
        if 0 <= index < self.enum_variants(id).len() {
            self.enum_variants(id)[index].fields
        } else {
            seq![]
        }
    }

    #[verifier::opaque]
    pub open spec fn variant_name(self, id: EnumId, index: int) -> Seq<char> {
        if 0 <= index < self.enum_variants(id).len() {
            self.enum_variants(id)[index].name
        } else {
            "_"@
        }
    }

    #[verifier::opaque]
    pub open spec fn struct_module(self, id: StructId) -> usize {
        if id.0 < self.struct_owner.len() {
            self.struct_owner[id.0 as int]
        } else {
            usize::MAX
        }
    }

    #[verifier::opaque]
    pub open spec fn enum_module(self, id: EnumId) -> usize {
        if id.0 < self.enum_owner.len() {
            self.enum_owner[id.0 as int]
        } else {
            usize::MAX
        }
    }

    #[verifier::opaque]
    pub open spec fn signature(self, id: FnId) -> (Seq<(Seq<char>, model::Ty)>, model::Ty) {
        if id.0 < self.signatures.len() {
            self.signatures[id.0 as int]
        } else {
            (seq![], model::Ty::Error)
        }
    }

    #[verifier::opaque]
    pub open spec fn fn_type_params(self, id: FnId) -> Seq<Seq<char>> {
        if id.0 < self.program.fns.len() {
            self.program.fns[id.0 as int].type_params
        } else {
            seq![]
        }
    }

    #[verifier::opaque]
    pub open spec fn fn_is_task(self, id: FnId) -> bool {
        id.0 < self.program.fns.len() && self.program.fns[id.0 as int].is_task
    }

    #[verifier::opaque]
    pub open spec fn fn_uses(self, id: FnId) -> Seq<Capability> {
        if id.0 < self.program.fns.len() {
            self.program.fns[id.0 as int].uses
        } else {
            seq![]
        }
    }

    #[verifier::opaque]
    pub open spec fn fn_display(self, id: FnId) -> Seq<char> {
        if id.0 < self.program.fns.len() {
            self.program.fns[id.0 as int].name
        } else {
            "_"@
        }
    }

    #[verifier::opaque]
    pub open spec fn fn_at(self, id: FnId) -> Span {
        if id.0 < self.program.fns.len() {
            self.program.fns[id.0 as int].span
        } else {
            no_span()
        }
    }

    #[verifier::opaque]
    pub open spec fn fn_module(self, id: FnId) -> usize {
        if id.0 < self.fn_owner.len() {
            self.fn_owner[id.0 as int]
        } else {
            usize::MAX
        }
    }

    #[verifier::opaque]
    pub open spec fn fn_param_bounds(self, id: FnId) -> Seq<Seq<TraitId>> {
        if id.0 < self.fn_bounds.len() {
            self.fn_bounds[id.0 as int]
        } else {
            seq![]
        }
    }

    #[verifier::opaque]
    pub open spec fn fn_modes(self, id: FnId) -> Seq<Mode> {
        if id.0 < self.param_modes.len() {
            self.param_modes[id.0 as int]
        } else {
            seq![]
        }
    }

    #[verifier::opaque]
    pub open spec fn fn_pins(self, id: FnId) -> Seq<bool> {
        if id.0 < self.mode_pinned.len() {
            self.mode_pinned[id.0 as int]
        } else {
            seq![]
        }
    }

    #[verifier::opaque]
    pub open spec fn reactor_name(self, id: ReactorId) -> Seq<char> {
        if id.0 < self.program.reactors.len() {
            self.program.reactors[id.0 as int].name
        } else {
            "_"@
        }
    }

    #[verifier::opaque]
    pub open spec fn reactor_params(self, id: ReactorId) -> Seq<(Seq<char>, model::Ty)> {
        if id.0 < self.program.reactors.len() {
            self.program.reactors[id.0 as int].params
        } else {
            seq![]
        }
    }

    #[verifier::opaque]
    pub open spec fn reactor_uses(self, id: ReactorId) -> Seq<Capability> {
        if id.0 < self.program.reactors.len() {
            self.program.reactors[id.0 as int].uses
        } else {
            seq![]
        }
    }

    #[verifier::opaque]
    pub open spec fn reactor_inputs(self, id: ReactorId) -> Seq<model::InputDef> {
        if id.0 < self.program.reactors.len() {
            self.program.reactors[id.0 as int].inputs
        } else {
            seq![]
        }
    }

    #[verifier::opaque]
    pub open spec fn reactor_nodes(self, id: ReactorId) -> Seq<model::Node> {
        if id.0 < self.program.reactors.len() {
            self.program.reactors[id.0 as int].nodes
        } else {
            seq![]
        }
    }

    #[verifier::opaque]
    pub open spec fn reactor_exports(self, id: ReactorId) -> Seq<NodeId> {
        if id.0 < self.program.reactors.len() {
            self.program.reactors[id.0 as int].exports
        } else {
            seq![]
        }
    }

    #[verifier::opaque]
    pub open spec fn reactor_slots(self, id: ReactorId) -> Seq<NodeId> {
        if id.0 < self.program.reactors.len() {
            self.program.reactors[id.0 as int].slots
        } else {
            seq![]
        }
    }

    /// Which input of a reactor a name names.
    #[verifier::opaque]
    pub open spec fn input_place(self, id: ReactorId, name: Seq<char>) -> Option<int> {
        place_of(input_names(self.reactor_inputs(id)), name)
    }

    /// Which node of a reactor a name names.
    #[verifier::opaque]
    pub open spec fn node_place(self, id: ReactorId, name: Seq<char>) -> Option<int> {
        place_of(node_names(self.reactor_nodes(id)), name)
    }

    #[verifier::opaque]
    pub open spec fn node(self, id: ReactorId, index: int) -> Option<model::Node> {
        if 0 <= index < self.reactor_nodes(id).len() {
            Some(self.reactor_nodes(id)[index])
        } else {
            None
        }
    }

    #[verifier::opaque]
    pub open spec fn trait_name(self, id: TraitId) -> Seq<char> {
        if id.0 < self.traits.len() {
            self.traits[id.0 as int].name
        } else {
            "_"@
        }
    }

    #[verifier::opaque]
    pub open spec fn trait_methods(self, id: TraitId) -> Seq<model::TraitMethod> {
        if id.0 < self.traits.len() {
            self.traits[id.0 as int].methods
        } else {
            seq![]
        }
    }

    #[verifier::opaque]
    pub open spec fn trait_module(self, id: TraitId) -> usize {
        if id.0 < self.traits.len() {
            self.traits[id.0 as int].module
        } else {
            usize::MAX
        }
    }

    /// Which member of a trait a name names.
    #[verifier::opaque]
    pub open spec fn method_place(self, id: TraitId, name: Seq<char>) -> Option<int> {
        place_of(method_names(self.trait_methods(id)), name)
    }

    // ------------------------------------------------------------ locals

    #[verifier::opaque]
    pub open spec fn local_ty(self, id: LocalId) -> model::Ty {
        if id.0 < self.locals.len() {
            self.locals[id.0 as int].ty
        } else {
            model::Ty::Error
        }
    }

    /// The innermost binding of a name.
    #[verifier::opaque]
    pub open spec fn lookup_local(self, name: Seq<char>) -> Option<LocalId> {
        lookup_in(self.scopes, name)
    }

    /// One more local, bound in the innermost scope.
    #[verifier::opaque]
    pub open spec fn bound(
        self,
        name: Seq<char>,
        ty: model::Ty,
        mutable: bool,
        role: LocalRole,
        span: Span,
    ) -> State {
        State {
            locals: self.locals.push(model::LocalDef { name, ty, mutable, role, span }),
            scopes: if self.scopes.len() == 0 {
                self.scopes
            } else {
                self.scopes.drop_last().push(
                    self.scopes.last().push((name, LocalId(self.locals.len() as u32))),
                )
            },
            ..self
        }
    }

    #[verifier::opaque]
    pub open spec fn open_scope(self) -> State {
        State { scopes: self.scopes.push(seq![]), ..self }
    }

    #[verifier::opaque]
    pub open spec fn close_scope(self) -> State {
        State {
            scopes: if self.scopes.len() == 0 {
                self.scopes
            } else {
                self.scopes.drop_last()
            },
            ..self
        }
    }

    /// The bounds a type parameter in scope declared.
    #[verifier::opaque]
    pub open spec fn bounds_of(self, index: u32) -> Seq<TraitId> {
        if index < self.bounds.len() {
            self.bounds[index as int]
        } else {
            seq![]
        }
    }
}

// One part of the state replaced, the rest as it was.
impl State {
    #[verifier::opaque]
    pub open spec fn with_current(self, v: usize) -> State {
        State { current: v, ..self }
    }

    #[verifier::opaque]
    pub open spec fn with_ctx(self, v: Ctx) -> State {
        State { ctx: v, ..self }
    }

    #[verifier::opaque]
    pub open spec fn with_scope_depth(self, v: usize) -> State {
        State { scope_depth: v, ..self }
    }

    #[verifier::opaque]
    pub open spec fn with_reactor(self, v: Option<ReactorId>) -> State {
        State { reactor: v, ..self }
    }

    #[verifier::opaque]
    pub open spec fn with_in_handler(self, v: bool) -> State {
        State { in_handler: v, ..self }
    }

    #[verifier::opaque]
    pub open spec fn with_assigning(self, v: bool) -> State {
        State { assigning: v, ..self }
    }

    #[verifier::opaque]
    pub open spec fn with_fill_cursor(self, v: usize) -> State {
        State { fill_cursor: v, ..self }
    }

    #[verifier::opaque]
    pub open spec fn with_work_cursor(self, v: usize) -> State {
        State { work_cursor: v, ..self }
    }

    #[verifier::opaque]
    pub open spec fn with_defining_types(self, v: bool) -> State {
        State { defining_types: v, ..self }
    }

    #[verifier::opaque]
    pub open spec fn with_cap_reported(self, v: bool) -> State {
        State { cap_reported: v, ..self }
    }

    #[verifier::opaque]
    pub open spec fn with_ret(self, v: model::Ty) -> State {
        State { ret: v, ..self }
    }

    #[verifier::opaque]
    pub open spec fn with_fn_name(self, v: Seq<char>) -> State {
        State { fn_name: v, ..self }
    }

    #[verifier::opaque]
    pub open spec fn with_uses(self, v: Seq<Capability>) -> State {
        State { uses: v, ..self }
    }

    #[verifier::opaque]
    pub open spec fn with_type_params(self, v: Seq<Seq<char>>) -> State {
        State { type_params: v, ..self }
    }

    #[verifier::opaque]
    pub open spec fn with_bounds(self, v: Seq<Seq<TraitId>>) -> State {
        State { bounds: v, ..self }
    }

    #[verifier::opaque]
    pub open spec fn with_self_ty(self, v: Option<model::Ty>) -> State {
        State { self_ty: v, ..self }
    }

    #[verifier::opaque]
    pub open spec fn with_members(self, v: Map<Seq<char>, Sort>) -> State {
        State { members: v, ..self }
    }
}

pub open spec fn lookup_frame(frame: Seq<(Seq<char>, LocalId)>, name: Seq<char>) -> Option<LocalId>
    decreases frame.len(),
{
    if frame.len() == 0 {
        None
    } else if frame.last().0 == name {
        Some(frame.last().1)
    } else {
        lookup_frame(frame.drop_last(), name)
    }
}

pub open spec fn lookup_in(
    scopes: Seq<Seq<(Seq<char>, LocalId)>>,
    name: Seq<char>,
) -> Option<LocalId>
    decreases scopes.len(),
{
    if scopes.len() == 0 {
        None
    } else {
        match lookup_frame(scopes.last(), name) {
            Some(id) => Some(id),
            None => lookup_in(scopes.drop_last(), name),
        }
    }
}

pub open spec fn variant_names(s: Seq<model::VariantDef>) -> Seq<Seq<char>> {
    Seq::new(s.len(), |i: int| s[i].name)
}

pub open spec fn input_names(s: Seq<model::InputDef>) -> Seq<Seq<char>> {
    Seq::new(s.len(), |i: int| s[i].name)
}

pub open spec fn node_names(s: Seq<model::Node>) -> Seq<Seq<char>> {
    Seq::new(s.len(), |i: int| s[i].name)
}

pub open spec fn method_names(s: Seq<model::TraitMethod>) -> Seq<Seq<char>> {
    Seq::new(s.len(), |i: int| s[i].name)
}

/// A binding shadows every earlier one of its name, and is what the name then means.
pub proof fn newest_binding_wins(
    s: State,
    name: Seq<char>,
    ty: model::Ty,
    mutable: bool,
    role: LocalRole,
    span: Span,
)
    requires
        s.scopes.len() > 0,
    ensures
        s.bound(name, ty, mutable, role, span).lookup_local(name) == Some(
            LocalId(s.locals.len() as u32),
        ),
{
    reveal(State::bound);
    reveal(State::lookup_local);
}

/// What a scope bound is gone when it closes, and what was bound before it means what it did.
pub proof fn closing_a_scope_forgets_it(
    s: State,
    name: Seq<char>,
    ty: model::Ty,
    mutable: bool,
    role: LocalRole,
    span: Span,
    asked: Seq<char>,
)
    ensures
        s.open_scope().bound(name, ty, mutable, role, span).close_scope().lookup_local(asked)
            == s.lookup_local(asked),
{
    reveal(State::bound);
    reveal(State::lookup_local);
    reveal(State::open_scope);
    reveal(State::close_scope);
    let inner = s.open_scope().bound(name, ty, mutable, role, span);
    assert(s.open_scope().scopes.drop_last() =~= s.scopes);
    assert(inner.scopes.drop_last() =~= s.scopes);
}

} // verus!
