//! The checker's working state. Everything it knows is behind small methods whose contracts speak
//! of the plain [`State`].

use vstd::prelude::*;
use vstd::string::*;
use crate::copies;
use crate::hir::{
    impls_of, locals_of, named_tys, traits_of, tys, variants_of, Capability, EnumId, Expr, ExprKind,
    FieldDef, FnId, ImplDef, LocalDef, LocalId, LocalRole, Mode, NodeId, NodeKind, Program,
    ReactorId, StructId, TraitDef, TraitId, TraitMethod, Ty, VariantDef, Vocabulary,
};
use crate::model;
use crate::span::{reports, texts, Diagnostic, Report, Span};
use crate::state::{
    input_names, lookup_frame, lookup_in, method_names, node_names, variant_names, Ctx, DeclKind,
    EnumInstance, Fill, FnInstance, Loop, Ns, Sort, State, StructInstance, Stub, TypeName,
};
use crate::table::Table;
use crate::text::same;
use crate::types::Affinity;

verus! {

/// One module's namespaces. Every name a file can mention resolves through its own; what another
/// file declared only enters through an import binding.
#[derive(Debug)]
pub struct ModuleNs {
    pub types: Table<TypeName>,
    pub fns: Table<FnId>,
    pub reactors: Table<ReactorId>,
    pub traits: Table<TraitId>,
    /// `import * as fmt` bindings: local name to module index.
    pub namespaces: Table<usize>,
}

impl ModuleNs {
    pub open spec fn view(&self) -> Ns {
        Ns {
            types: self.types@,
            fns: self.fns@,
            reactors: self.reactors@,
            traits: self.traits@,
            namespaces: self.namespaces@,
        }
    }

    pub fn new() -> (r: ModuleNs)
        ensures
            r@ == (Ns {
                types: Map::empty(),
                fns: Map::empty(),
                reactors: Map::empty(),
                traits: Map::empty(),
                namespaces: Map::empty(),
            }),
    {
        ModuleNs {
            types: Table::new(),
            fns: Table::new(),
            reactors: Table::new(),
            traits: Table::new(),
            namespaces: Table::new(),
        }
    }
}

/// One enclosing loop.
#[derive(Debug)]
pub struct LoopCtx {
    pub is_loop: bool,
    pub result: Option<Ty>,
    pub saw_break: bool,
    pub first_value: Option<Span>,
}

/// What an optional type holds.
pub open spec fn maybe(t: Option<Ty>) -> Option<model::Ty> {
    match t {
        Some(t) => Some(t@),
        None => None,
    }
}

pub fn copy_maybe(t: &Option<Ty>) -> (r: Option<Ty>)
    ensures
        maybe(r) == maybe(*t),
{
    match t {
        Some(t) => Some(t.copy()),
        None => None,
    }
}

impl LoopCtx {
    pub open spec fn view(&self) -> Loop {
        Loop {
            is_loop: self.is_loop,
            result: maybe(self.result),
            saw_break: self.saw_break,
            first_value: self.first_value,
        }
    }
}

#[derive(Debug)]
pub struct StructMade {
    pub template: StructId,
    pub args: Vec<Ty>,
    pub id: StructId,
    pub module: usize,
    pub at: Span,
    pub serial: usize,
}

impl StructMade {
    pub open spec fn view(&self) -> StructInstance {
        StructInstance {
            template: self.template,
            args: tys(self.args@),
            id: self.id,
            module: self.module,
            at: self.at,
            serial: self.serial,
        }
    }
}

#[derive(Debug)]
pub struct EnumMade {
    pub template: EnumId,
    pub args: Vec<Ty>,
    pub id: EnumId,
    pub module: usize,
    pub at: Span,
    pub serial: usize,
}

impl EnumMade {
    pub open spec fn view(&self) -> EnumInstance {
        EnumInstance {
            template: self.template,
            args: tys(self.args@),
            id: self.id,
            module: self.module,
            at: self.at,
            serial: self.serial,
        }
    }
}

#[derive(Debug)]
pub struct FnMade {
    pub template: FnId,
    pub args: Vec<Ty>,
    pub id: FnId,
    pub module: usize,
    pub at: Span,
    pub symbolic: bool,
    pub depth: usize,
}

impl FnMade {
    pub open spec fn view(&self) -> FnInstance {
        FnInstance {
            template: self.template,
            args: tys(self.args@),
            id: self.id,
            module: self.module,
            at: self.at,
            symbolic: self.symbolic,
            depth: self.depth,
        }
    }
}

#[derive(Debug)]
pub struct StubMade {
    pub trait_id: TraitId,
    pub method: String,
    pub receiver: Ty,
    pub id: FnId,
}

impl StubMade {
    pub open spec fn view(&self) -> Stub {
        Stub {
            trait_id: self.trait_id,
            method: self.method@,
            receiver: self.receiver@,
            id: self.id,
        }
    }
}

pub open spec fn frame_of(s: Seq<(String, LocalId)>) -> Seq<(Seq<char>, LocalId)> {
    Seq::new(s.len(), |i: int| (s[i].0@, s[i].1))
}

pub open spec fn ns_of(s: Seq<ModuleNs>) -> Seq<Ns> {
    Seq::new(s.len(), |i: int| s[i]@)
}

pub open spec fn items_of(s: Seq<Vec<Option<FnId>>>) -> Seq<Seq<Option<FnId>>> {
    Seq::new(s.len(), |i: int| s[i]@)
}

pub open spec fn decls_of(
    s: Seq<Table<(DeclKind, bool)>>,
) -> Seq<Map<Seq<char>, (DeclKind, bool)>> {
    Seq::new(s.len(), |i: int| s[i]@)
}

pub open spec fn targets_of(s: Seq<Vec<Option<usize>>>) -> Seq<Seq<Option<usize>>> {
    Seq::new(s.len(), |i: int| s[i]@)
}

pub open spec fn pending_of(
    s: Seq<(usize, String, usize, String)>,
) -> Seq<(usize, Seq<char>, usize, Seq<char>)> {
    Seq::new(s.len(), |i: int| (s[i].0, s[i].1@, s[i].2, s[i].3@))
}

pub open spec fn signatures_of(
    s: Seq<(Vec<(String, Ty)>, Ty)>,
) -> Seq<(Seq<(Seq<char>, model::Ty)>, model::Ty)> {
    Seq::new(s.len(), |i: int| (named_tys(s[i].0@), s[i].1@))
}

pub open spec fn modes_of(s: Seq<Vec<Mode>>) -> Seq<Seq<Mode>> {
    Seq::new(s.len(), |i: int| s[i]@)
}

pub open spec fn pins_of(s: Seq<Vec<bool>>) -> Seq<Seq<bool>> {
    Seq::new(s.len(), |i: int| s[i]@)
}

pub open spec fn bounds_list(s: Seq<Vec<TraitId>>) -> Seq<Seq<TraitId>> {
    Seq::new(s.len(), |i: int| s[i]@)
}

pub open spec fn fn_bounds_of(s: Seq<Vec<Vec<TraitId>>>) -> Seq<Seq<Seq<TraitId>>> {
    Seq::new(s.len(), |i: int| bounds_list(s[i]@))
}

pub open spec fn scopes_of(s: Seq<Vec<(String, LocalId)>>) -> Seq<Seq<(Seq<char>, LocalId)>> {
    Seq::new(s.len(), |i: int| frame_of(s[i]@))
}

pub open spec fn loops_of(s: Seq<LoopCtx>) -> Seq<Loop> {
    Seq::new(s.len(), |i: int| s[i]@)
}

pub open spec fn structs_made(s: Seq<StructMade>) -> Seq<StructInstance> {
    Seq::new(s.len(), |i: int| s[i]@)
}

pub open spec fn enums_made(s: Seq<EnumMade>) -> Seq<EnumInstance> {
    Seq::new(s.len(), |i: int| s[i]@)
}

pub open spec fn fns_made(s: Seq<FnMade>) -> Seq<FnInstance> {
    Seq::new(s.len(), |i: int| s[i]@)
}

pub open spec fn stubs_made(s: Seq<StubMade>) -> Seq<Stub> {
    Seq::new(s.len(), |i: int| s[i]@)
}

pub open spec fn reports_each(s: Seq<Vec<Diagnostic>>) -> Seq<Seq<Report>> {
    Seq::new(s.len(), |i: int| reports(s[i]@))
}

/// Lists of bounds, again.
pub fn copy_bounds(v: &Vec<Vec<TraitId>>) -> (r: Vec<Vec<TraitId>>)
    ensures
        bounds_list(r@) == bounds_list(v@),
{
    let mut r: Vec<Vec<TraitId>> = Vec::new();
    for i in 0..v.len()
        invariant
            r.len() == i,
            forall|j: int| 0 <= j < i ==> #[trigger] r@[j]@ == v@[j]@,
    {
        r.push(copies::plain(&v[i]));
    }
    assert(bounds_list(r@) =~= bounds_list(v@));
    r
}

/// The checker: see [`State`] for what each field means.
pub struct Checker {
    pub vocabulary: Vocabulary,
    pub program: Program,
    pub errors: Vec<Vec<Diagnostic>>,
    pub ns: Vec<ModuleNs>,
    pub current: usize,
    pub fn_owner: Vec<usize>,
    pub reactor_owner: Vec<usize>,
    pub struct_owner: Vec<usize>,
    pub enum_owner: Vec<usize>,
    pub fn_of_item: Vec<Vec<Option<FnId>>>,
    pub names: Vec<String>,
    pub keys: Vec<String>,
    pub stems: Vec<String>,
    pub key_index: Table<usize>,
    pub decls: Vec<Table<(DeclKind, bool)>>,
    pub import_target: Vec<Vec<Option<usize>>>,
    pub pending_fn_imports: Vec<(usize, String, usize, String)>,
    pub signatures: Vec<(Vec<(String, Ty)>, Ty)>,
    pub param_modes: Vec<Vec<Mode>>,
    pub mode_pinned: Vec<Vec<bool>>,
    pub fn_bounds: Vec<Vec<Vec<TraitId>>>,
    pub traits: Vec<TraitDef>,
    pub impls: Vec<ImplDef>,
    pub locals: Vec<LocalDef>,
    pub scopes: Vec<Vec<(String, LocalId)>>,
    pub loops: Vec<LoopCtx>,
    pub ret: Ty,
    pub fn_name: String,
    pub ctx: Ctx,
    pub uses: Vec<Capability>,
    pub scope_depth: usize,
    pub members: Table<Sort>,
    pub reactor: Option<ReactorId>,
    pub in_handler: bool,
    pub assigning: bool,
    pub type_params: Vec<String>,
    pub bounds: Vec<Vec<TraitId>>,
    pub self_ty: Option<Ty>,
    pub struct_instances: Vec<StructMade>,
    pub enum_instances: Vec<EnumMade>,
    pub fn_instances: Vec<FnMade>,
    pub stubs: Vec<StubMade>,
    pub fill_queue: Vec<Fill>,
    pub fill_cursor: usize,
    pub worklist: Vec<FnId>,
    pub work_cursor: usize,
    pub defining_types: bool,
    pub cap_reported: bool,
}

impl Checker {
    /// What the checker knows.
    #[verifier::opaque]
    pub open spec fn view(&self) -> State {
        State {
            vocabulary: self.vocabulary@,
            program: self.program@,
            errors: reports_each(self.errors@),
            ns: ns_of(self.ns@),
            current: self.current,
            fn_owner: self.fn_owner@,
            reactor_owner: self.reactor_owner@,
            struct_owner: self.struct_owner@,
            enum_owner: self.enum_owner@,
            fn_of_item: items_of(self.fn_of_item@),
            names: texts(self.names@),
            keys: texts(self.keys@),
            stems: texts(self.stems@),
            key_index: self.key_index@,
            decls: decls_of(self.decls@),
            import_target: targets_of(self.import_target@),
            pending_fn_imports: pending_of(self.pending_fn_imports@),
            signatures: signatures_of(self.signatures@),
            param_modes: modes_of(self.param_modes@),
            mode_pinned: pins_of(self.mode_pinned@),
            fn_bounds: fn_bounds_of(self.fn_bounds@),
            traits: traits_of(self.traits@),
            impls: impls_of(self.impls@),
            locals: locals_of(self.locals@),
            scopes: scopes_of(self.scopes@),
            loops: loops_of(self.loops@),
            ret: self.ret@,
            fn_name: self.fn_name@,
            ctx: self.ctx,
            uses: self.uses@,
            scope_depth: self.scope_depth,
            members: self.members@,
            reactor: self.reactor,
            in_handler: self.in_handler,
            assigning: self.assigning,
            type_params: texts(self.type_params@),
            bounds: bounds_list(self.bounds@),
            self_ty: maybe(self.self_ty),
            struct_instances: structs_made(self.struct_instances@),
            enum_instances: enums_made(self.enum_instances@),
            fn_instances: fns_made(self.fn_instances@),
            stubs: stubs_made(self.stubs@),
            fill_queue: self.fill_queue@,
            fill_cursor: self.fill_cursor,
            worklist: self.worklist@,
            work_cursor: self.work_cursor,
            defining_types: self.defining_types,
            cap_reported: self.cap_reported,
        }
    }

    pub fn current(&self) -> (r: usize)
        ensures
            r == self@.current,
    {
        proof {
            reveal(Checker::view);
        }
        self.current
    }

    pub fn set_current(&mut self, v: usize)
        ensures
            final(self)@ == old(self)@.with_current(v),
    {
        proof {
            reveal(Checker::view);
            reveal(State::with_current);
        }
        self.current = v;
    }

    pub fn ctx(&self) -> (r: Ctx)
        ensures
            r == self@.ctx,
    {
        proof {
            reveal(Checker::view);
        }
        self.ctx
    }

    pub fn set_ctx(&mut self, v: Ctx)
        ensures
            final(self)@ == old(self)@.with_ctx(v),
    {
        proof {
            reveal(Checker::view);
            reveal(State::with_ctx);
        }
        self.ctx = v;
    }

    pub fn scope_depth(&self) -> (r: usize)
        ensures
            r == self@.scope_depth,
    {
        proof {
            reveal(Checker::view);
        }
        self.scope_depth
    }

    pub fn set_scope_depth(&mut self, v: usize)
        ensures
            final(self)@ == old(self)@.with_scope_depth(v),
    {
        proof {
            reveal(Checker::view);
            reveal(State::with_scope_depth);
        }
        self.scope_depth = v;
    }

    pub fn reactor(&self) -> (r: Option<ReactorId>)
        ensures
            r == self@.reactor,
    {
        proof {
            reveal(Checker::view);
        }
        self.reactor
    }

    pub fn set_reactor(&mut self, v: Option<ReactorId>)
        ensures
            final(self)@ == old(self)@.with_reactor(v),
    {
        proof {
            reveal(Checker::view);
            reveal(State::with_reactor);
        }
        self.reactor = v;
    }

    pub fn in_handler(&self) -> (r: bool)
        ensures
            r == self@.in_handler,
    {
        proof {
            reveal(Checker::view);
        }
        self.in_handler
    }

    pub fn set_in_handler(&mut self, v: bool)
        ensures
            final(self)@ == old(self)@.with_in_handler(v),
    {
        proof {
            reveal(Checker::view);
            reveal(State::with_in_handler);
        }
        self.in_handler = v;
    }

    pub fn assigning(&self) -> (r: bool)
        ensures
            r == self@.assigning,
    {
        proof {
            reveal(Checker::view);
        }
        self.assigning
    }

    pub fn set_assigning(&mut self, v: bool)
        ensures
            final(self)@ == old(self)@.with_assigning(v),
    {
        proof {
            reveal(Checker::view);
            reveal(State::with_assigning);
        }
        self.assigning = v;
    }

    pub fn fill_cursor(&self) -> (r: usize)
        ensures
            r == self@.fill_cursor,
    {
        proof {
            reveal(Checker::view);
        }
        self.fill_cursor
    }

    pub fn set_fill_cursor(&mut self, v: usize)
        ensures
            final(self)@ == old(self)@.with_fill_cursor(v),
    {
        proof {
            reveal(Checker::view);
            reveal(State::with_fill_cursor);
        }
        self.fill_cursor = v;
    }

    pub fn work_cursor(&self) -> (r: usize)
        ensures
            r == self@.work_cursor,
    {
        proof {
            reveal(Checker::view);
        }
        self.work_cursor
    }

    pub fn set_work_cursor(&mut self, v: usize)
        ensures
            final(self)@ == old(self)@.with_work_cursor(v),
    {
        proof {
            reveal(Checker::view);
            reveal(State::with_work_cursor);
        }
        self.work_cursor = v;
    }

    pub fn defining_types(&self) -> (r: bool)
        ensures
            r == self@.defining_types,
    {
        proof {
            reveal(Checker::view);
        }
        self.defining_types
    }

    pub fn set_defining_types(&mut self, v: bool)
        ensures
            final(self)@ == old(self)@.with_defining_types(v),
    {
        proof {
            reveal(Checker::view);
            reveal(State::with_defining_types);
        }
        self.defining_types = v;
    }

    pub fn cap_reported(&self) -> (r: bool)
        ensures
            r == self@.cap_reported,
    {
        proof {
            reveal(Checker::view);
        }
        self.cap_reported
    }

    pub fn set_cap_reported(&mut self, v: bool)
        ensures
            final(self)@ == old(self)@.with_cap_reported(v),
    {
        proof {
            reveal(Checker::view);
            reveal(State::with_cap_reported);
        }
        self.cap_reported = v;
    }

    pub fn ret(&self) -> (r: Ty)
        ensures
            r@ == self@.ret,
    {
        proof {
            reveal(Checker::view);
        }
        self.ret.copy()
    }

    pub fn set_ret(&mut self, v: Ty)
        ensures
            final(self)@ == old(self)@.with_ret(v@),
    {
        proof {
            reveal(Checker::view);
            reveal(State::with_ret);
        }
        self.ret = v;
    }

    pub fn fn_name(&self) -> (r: String)
        ensures
            r@ == self@.fn_name,
    {
        proof {
            reveal(Checker::view);
        }
        self.fn_name.clone()
    }

    pub fn set_fn_name(&mut self, v: String)
        ensures
            final(self)@ == old(self)@.with_fn_name(v@),
    {
        proof {
            reveal(Checker::view);
            reveal(State::with_fn_name);
        }
        self.fn_name = v;
    }

    pub fn uses(&self) -> (r: Vec<Capability>)
        ensures
            r@ == self@.uses,
    {
        proof {
            reveal(Checker::view);
        }
        copies::plain(&self.uses)
    }

    pub fn set_uses(&mut self, v: Vec<Capability>)
        ensures
            final(self)@ == old(self)@.with_uses(v@),
    {
        proof {
            reveal(Checker::view);
            reveal(State::with_uses);
        }
        self.uses = v;
    }

    pub fn type_params(&self) -> (r: Vec<String>)
        ensures
            texts(r@) == self@.type_params,
    {
        proof {
            reveal(Checker::view);
        }
        copies::strings(&self.type_params)
    }

    pub fn set_type_params(&mut self, v: Vec<String>)
        ensures
            final(self)@ == old(self)@.with_type_params(texts(v@)),
    {
        proof {
            reveal(Checker::view);
            reveal(State::with_type_params);
        }
        self.type_params = v;
    }

    pub fn bounds(&self) -> (r: Vec<Vec<TraitId>>)
        ensures
            bounds_list(r@) == self@.bounds,
    {
        proof {
            reveal(Checker::view);
        }
        copy_bounds(&self.bounds)
    }

    pub fn set_bounds(&mut self, v: Vec<Vec<TraitId>>)
        ensures
            final(self)@ == old(self)@.with_bounds(bounds_list(v@)),
    {
        proof {
            reveal(Checker::view);
            reveal(State::with_bounds);
        }
        self.bounds = v;
    }

    pub fn self_ty(&self) -> (r: Option<Ty>)
        ensures
            maybe(r) == self@.self_ty,
    {
        proof {
            reveal(Checker::view);
        }
        copy_maybe(&self.self_ty)
    }

    pub fn set_self_ty(&mut self, v: Option<Ty>)
        ensures
            final(self)@ == old(self)@.with_self_ty(maybe(v)),
    {
        proof {
            reveal(Checker::view);
            reveal(State::with_self_ty);
        }
        self.self_ty = v;
    }

    pub fn set_members(&mut self, v: Table<Sort>)
        ensures
            final(self)@ == old(self)@.with_members(v@),
    {
        proof {
            reveal(Checker::view);
            reveal(State::with_members);
        }
        self.members = v;
    }

    pub fn type_at(&self, module: usize, name: &str) -> (r: Option<TypeName>)
        ensures
            r == crate::table::find(self@.at(module).types, name@),
    {
        proof {
            reveal(Checker::view);
            reveal(State::at);
        }
        if module < self.ns.len() {
            self.ns[module].types.get(name)
        } else {
            None
        }
    }

    pub fn type_named(&self, name: &str) -> (r: Option<TypeName>)
        ensures
            r == self@.type_named(name@),
    {
        proof {
            reveal(Checker::view);
            reveal(State::here);
            reveal(State::type_named);
        }
        self.type_at(self.current, name)
    }

    pub fn fn_at(&self, module: usize, name: &str) -> (r: Option<FnId>)
        ensures
            r == crate::table::find(self@.at(module).fns, name@),
    {
        proof {
            reveal(Checker::view);
            reveal(State::at);
        }
        if module < self.ns.len() {
            self.ns[module].fns.get(name)
        } else {
            None
        }
    }

    pub fn fn_named(&self, name: &str) -> (r: Option<FnId>)
        ensures
            r == self@.fn_named(name@),
    {
        proof {
            reveal(Checker::view);
            reveal(State::here);
            reveal(State::fn_at);
            reveal(State::fn_named);
        }
        self.fn_at(self.current, name)
    }

    pub fn namespace_at(&self, module: usize, name: &str) -> (r: Option<usize>)
        ensures
            r == crate::table::find(self@.at(module).namespaces, name@),
    {
        proof {
            reveal(Checker::view);
            reveal(State::at);
        }
        if module < self.ns.len() {
            self.ns[module].namespaces.get(name)
        } else {
            None
        }
    }

    pub fn namespace_named(&self, name: &str) -> (r: Option<usize>)
        ensures
            r == self@.namespace_named(name@),
    {
        proof {
            reveal(Checker::view);
            reveal(State::here);
            reveal(State::namespace_named);
        }
        self.namespace_at(self.current, name)
    }

    pub fn trait_at(&self, module: usize, name: &str) -> (r: Option<TraitId>)
        ensures
            r == crate::table::find(self@.at(module).traits, name@),
    {
        proof {
            reveal(Checker::view);
            reveal(State::at);
        }
        if module < self.ns.len() {
            self.ns[module].traits.get(name)
        } else {
            None
        }
    }

    pub fn trait_named(&self, name: &str) -> (r: Option<TraitId>)
        ensures
            r == self@.trait_named(name@),
    {
        proof {
            reveal(Checker::view);
            reveal(State::here);
            reveal(State::trait_named);
        }
        self.trait_at(self.current, name)
    }

    pub fn reactor_at(&self, module: usize, name: &str) -> (r: Option<ReactorId>)
        ensures
            r == crate::table::find(self@.at(module).reactors, name@),
    {
        proof {
            reveal(Checker::view);
            reveal(State::at);
        }
        if module < self.ns.len() {
            self.ns[module].reactors.get(name)
        } else {
            None
        }
    }

    pub fn reactor_named(&self, name: &str) -> (r: Option<ReactorId>)
        ensures
            r == self@.reactor_named(name@),
    {
        proof {
            reveal(Checker::view);
            reveal(State::here);
            reveal(State::reactor_named);
        }
        self.reactor_at(self.current, name)
    }

    pub fn decl(&self, module: usize, name: &str) -> (r: Option<(DeclKind, bool)>)
        ensures
            r == self@.decl(module, name@),
    {
        proof {
            reveal(Checker::view);
            reveal(State::decl);
        }
        if module < self.decls.len() {
            self.decls[module].get(name)
        } else {
            None
        }
    }

    pub fn module_name(&self, module: usize) -> (r: String)
        ensures
            r@ == self@.module_name(module),
    {
        proof {
            reveal(Checker::view);
            reveal(State::module_name);
        }
        if module < self.names.len() {
            self.names[module].clone()
        } else {
            "".to_owned()
        }
    }

    pub fn member(&self, name: &str) -> (r: Option<Sort>)
        ensures
            r == self@.member(name@),
    {
        proof {
            reveal(Checker::view);
            reveal(State::member);
        }
        self.members.get(name)
    }

    pub fn ty_name(&self, t: &Ty) -> (r: String)
        ensures
            r@ == self@.ty_name(t@),
    {
        proof {
            reveal(Checker::view);
            reveal(State::ty_name);
        }
        self.program.ty_name(t)
    }

    pub fn affine(&self, t: &Ty) -> (r: bool)
        ensures
            r == crate::types::affine(self@.program, t@),
    {
        proof {
            reveal(Checker::view);
        }
        let affinity = Affinity::of(&self.program);
        affinity.holds(Ghost(self.program@), t)
    }

    pub fn struct_name(&self, id: StructId) -> (r: String)
        ensures
            r@ == self@.struct_name(id),
    {
        proof {
            reveal(Checker::view);
            reveal(State::struct_name);
        }
        if id.index() < self.program.structs.len() {
            self.program.structs[id.index()].name.clone()
        } else {
            "_".to_owned()
        }
    }

    pub fn struct_fields(&self, id: StructId) -> (r: Vec<FieldDef>)
        ensures
            crate::hir::fields_of(r@) == self@.struct_fields(id),
    {
        proof {
            reveal(Checker::view);
            reveal(State::struct_fields);
        }
        if id.index() < self.program.structs.len() {
            copies::fields(&self.program.structs[id.index()].fields)
        } else {
            let r: Vec<FieldDef> = Vec::new();
            assert(crate::hir::fields_of(r@) =~= seq![]);
            r
        }
    }

    pub fn struct_params(&self, id: StructId) -> (r: Vec<String>)
        ensures
            texts(r@) == self@.struct_params(id),
    {
        proof {
            reveal(Checker::view);
            reveal(State::struct_params);
        }
        if id.index() < self.program.structs.len() {
            copies::strings(&self.program.structs[id.index()].type_params)
        } else {
            let r: Vec<String> = Vec::new();
            assert(texts(r@) =~= seq![]);
            r
        }
    }

    pub fn struct_span(&self, id: StructId) -> (r: Span)
        ensures
            r == self@.struct_span(id),
    {
        proof {
            reveal(Checker::view);
            reveal(State::struct_span);
        }
        if id.index() < self.program.structs.len() {
            self.program.structs[id.index()].span
        } else {
            Span::new(0, 0)
        }
    }

    pub fn enum_name(&self, id: EnumId) -> (r: String)
        ensures
            r@ == self@.enum_name(id),
    {
        proof {
            reveal(Checker::view);
            reveal(State::enum_name);
        }
        if id.index() < self.program.enums.len() {
            self.program.enums[id.index()].name.clone()
        } else {
            "_".to_owned()
        }
    }

    pub fn enum_variants(&self, id: EnumId) -> (r: Vec<VariantDef>)
        ensures
            variants_of(r@) == self@.enum_variants(id),
    {
        proof {
            reveal(Checker::view);
            reveal(State::enum_variants);
        }
        if id.index() < self.program.enums.len() {
            copies::variants(&self.program.enums[id.index()].variants)
        } else {
            let r: Vec<VariantDef> = Vec::new();
            assert(variants_of(r@) =~= seq![]);
            r
        }
    }

    pub fn enum_params(&self, id: EnumId) -> (r: Vec<String>)
        ensures
            texts(r@) == self@.enum_params(id),
    {
        proof {
            reveal(Checker::view);
            reveal(State::enum_params);
        }
        if id.index() < self.program.enums.len() {
            copies::strings(&self.program.enums[id.index()].type_params)
        } else {
            let r: Vec<String> = Vec::new();
            assert(texts(r@) =~= seq![]);
            r
        }
    }

    pub fn enum_span(&self, id: EnumId) -> (r: Span)
        ensures
            r == self@.enum_span(id),
    {
        proof {
            reveal(Checker::view);
            reveal(State::enum_span);
        }
        if id.index() < self.program.enums.len() {
            self.program.enums[id.index()].span
        } else {
            Span::new(0, 0)
        }
    }

    pub fn struct_module(&self, id: StructId) -> (r: usize)
        ensures
            r == self@.struct_module(id),
    {
        proof {
            reveal(Checker::view);
            reveal(State::struct_module);
        }
        if id.index() < self.struct_owner.len() {
            self.struct_owner[id.index()]
        } else {
            usize::MAX
        }
    }

    pub fn enum_module(&self, id: EnumId) -> (r: usize)
        ensures
            r == self@.enum_module(id),
    {
        proof {
            reveal(Checker::view);
            reveal(State::enum_module);
        }
        if id.index() < self.enum_owner.len() {
            self.enum_owner[id.index()]
        } else {
            usize::MAX
        }
    }

    pub fn fn_type_params(&self, id: FnId) -> (r: Vec<String>)
        ensures
            texts(r@) == self@.fn_type_params(id),
    {
        proof {
            reveal(Checker::view);
            reveal(State::fn_type_params);
        }
        if id.index() < self.program.fns.len() {
            copies::strings(&self.program.fns[id.index()].type_params)
        } else {
            let r: Vec<String> = Vec::new();
            assert(texts(r@) =~= seq![]);
            r
        }
    }

    pub fn fn_is_task(&self, id: FnId) -> (r: bool)
        ensures
            r == self@.fn_is_task(id),
    {
        proof {
            reveal(Checker::view);
            reveal(State::fn_is_task);
        }
        if id.index() < self.program.fns.len() {
            self.program.fns[id.index()].is_task
        } else {
            false
        }
    }

    pub fn fn_uses(&self, id: FnId) -> (r: Vec<Capability>)
        ensures
            r@ == self@.fn_uses(id),
    {
        proof {
            reveal(Checker::view);
            reveal(State::fn_uses);
        }
        if id.index() < self.program.fns.len() {
            copies::plain(&self.program.fns[id.index()].uses)
        } else {
            Vec::new()
        }
    }

    pub fn fn_display(&self, id: FnId) -> (r: String)
        ensures
            r@ == self@.fn_display(id),
    {
        proof {
            reveal(Checker::view);
            reveal(State::fn_display);
        }
        if id.index() < self.program.fns.len() {
            self.program.fns[id.index()].name.clone()
        } else {
            "_".to_owned()
        }
    }

    pub fn fn_at_span(&self, id: FnId) -> (r: Span)
        ensures
            r == self@.fn_at(id),
    {
        proof {
            reveal(Checker::view);
            reveal(State::fn_at);
        }
        if id.index() < self.program.fns.len() {
            self.program.fns[id.index()].span
        } else {
            Span::new(0, 0)
        }
    }

    pub fn fn_module(&self, id: FnId) -> (r: usize)
        ensures
            r == self@.fn_module(id),
    {
        proof {
            reveal(Checker::view);
            reveal(State::fn_module);
        }
        if id.index() < self.fn_owner.len() {
            self.fn_owner[id.index()]
        } else {
            usize::MAX
        }
    }

    pub fn fn_param_bounds(&self, id: FnId) -> (r: Vec<Vec<TraitId>>)
        ensures
            bounds_list(r@) == self@.fn_param_bounds(id),
    {
        proof {
            reveal(Checker::view);
            reveal(State::fn_param_bounds);
        }
        if id.index() < self.fn_bounds.len() {
            copy_bounds(&self.fn_bounds[id.index()])
        } else {
            let r: Vec<Vec<TraitId>> = Vec::new();
            assert(bounds_list(r@) =~= seq![]);
            r
        }
    }

    pub fn fn_modes(&self, id: FnId) -> (r: Vec<Mode>)
        ensures
            r@ == self@.fn_modes(id),
    {
        proof {
            reveal(Checker::view);
            reveal(State::fn_modes);
        }
        if id.index() < self.param_modes.len() {
            copies::plain(&self.param_modes[id.index()])
        } else {
            Vec::new()
        }
    }

    pub fn fn_pins(&self, id: FnId) -> (r: Vec<bool>)
        ensures
            r@ == self@.fn_pins(id),
    {
        proof {
            reveal(Checker::view);
            reveal(State::fn_pins);
        }
        if id.index() < self.mode_pinned.len() {
            copies::plain(&self.mode_pinned[id.index()])
        } else {
            Vec::new()
        }
    }

    pub fn signature(&self, id: FnId) -> (r: (Vec<(String, Ty)>, Ty))
        ensures
            (named_tys(r.0@), r.1@) == self@.signature(id),
    {
        proof {
            reveal(Checker::view);
            reveal(State::signature);
        }
        if id.index() < self.signatures.len() {
            (copies::named(&self.signatures[id.index()].0), self.signatures[id.index()].1.copy())
        } else {
            let r: Vec<(String, Ty)> = Vec::new();
            assert(named_tys(r@) =~= seq![]);
            (r, Ty::Error)
        }
    }

    pub fn reactor_name(&self, id: ReactorId) -> (r: String)
        ensures
            r@ == self@.reactor_name(id),
    {
        proof {
            reveal(Checker::view);
            reveal(State::reactor_name);
        }
        if id.index() < self.program.reactors.len() {
            self.program.reactors[id.index()].name.clone()
        } else {
            "_".to_owned()
        }
    }

    pub fn reactor_params(&self, id: ReactorId) -> (r: Vec<(String, Ty)>)
        ensures
            named_tys(r@) == self@.reactor_params(id),
    {
        proof {
            reveal(Checker::view);
            reveal(State::reactor_params);
        }
        if id.index() < self.program.reactors.len() {
            copies::named(&self.program.reactors[id.index()].params)
        } else {
            let r: Vec<(String, Ty)> = Vec::new();
            assert(named_tys(r@) =~= seq![]);
            r
        }
    }

    pub fn reactor_uses(&self, id: ReactorId) -> (r: Vec<Capability>)
        ensures
            r@ == self@.reactor_uses(id),
    {
        proof {
            reveal(Checker::view);
            reveal(State::reactor_uses);
        }
        if id.index() < self.program.reactors.len() {
            copies::plain(&self.program.reactors[id.index()].uses)
        } else {
            Vec::new()
        }
    }

    pub fn reactor_exports(&self, id: ReactorId) -> (r: Vec<NodeId>)
        ensures
            r@ == self@.reactor_exports(id),
    {
        proof {
            reveal(Checker::view);
            reveal(State::reactor_exports);
        }
        if id.index() < self.program.reactors.len() {
            copies::plain(&self.program.reactors[id.index()].exports)
        } else {
            Vec::new()
        }
    }

    pub fn reactor_slots(&self, id: ReactorId) -> (r: Vec<NodeId>)
        ensures
            r@ == self@.reactor_slots(id),
    {
        proof {
            reveal(Checker::view);
            reveal(State::reactor_slots);
        }
        if id.index() < self.program.reactors.len() {
            copies::plain(&self.program.reactors[id.index()].slots)
        } else {
            Vec::new()
        }
    }

    pub fn trait_name(&self, id: TraitId) -> (r: String)
        ensures
            r@ == self@.trait_name(id),
    {
        proof {
            reveal(Checker::view);
            reveal(State::trait_name);
        }
        if id.index() < self.traits.len() {
            self.traits[id.index()].name.clone()
        } else {
            "_".to_owned()
        }
    }

    pub fn trait_module(&self, id: TraitId) -> (r: usize)
        ensures
            r == self@.trait_module(id),
    {
        proof {
            reveal(Checker::view);
            reveal(State::trait_module);
        }
        if id.index() < self.traits.len() {
            self.traits[id.index()].module
        } else {
            usize::MAX
        }
    }

    /// The node of a reactor at a place, in parts.
    pub fn node(&self, id: ReactorId, index: usize) -> (r: Option<(NodeKind, Ty, bool)>)
        ensures
            match self@.node(id, index as int) {
                Some(n) => r matches Some(got) && got.0 == n.kind && got.1@ == n.ty && got.2
                    == n.exported,
                None => r is None,
            },
    {
        proof {
            reveal(Checker::view);
            reveal(State::reactor_nodes);
            reveal(State::node);
        }
        if id.index() < self.program.reactors.len() {
            let nodes = &self.program.reactors[id.index()].nodes;
            if index < nodes.len() {
                return Some((nodes[index].kind, nodes[index].ty.copy(), nodes[index].exported));
            }
        }
        None
    }

    /// The input of a reactor at a place, in parts.
    pub fn input(&self, id: ReactorId, index: usize) -> (r: Option<(String, Ty)>)
        ensures
            match r {
                Some(got) => index < self@.reactor_inputs(id).len() && got.0@
                    == self@.reactor_inputs(id)[index as int].name && got.1@
                    == self@.reactor_inputs(id)[index as int].ty,
                None => index >= self@.reactor_inputs(id).len(),
            },
    {
        proof {
            reveal(Checker::view);
            reveal(State::reactor_inputs);
        }
        if id.index() < self.program.reactors.len() {
            let inputs = &self.program.reactors[id.index()].inputs;
            if index < inputs.len() {
                return Some((inputs[index].name.clone(), inputs[index].ty.copy()));
            }
        }
        None
    }

    pub fn input_place(&self, id: ReactorId, name: &str) -> (r: Option<usize>)
        ensures
            copies::as_place(r) == self@.input_place(id, name@),
    {
        proof {
            reveal(Checker::view);
            reveal(State::input_place);
            reveal(State::push);
            reveal(State::reactor_inputs);
        }
        let mut names: Vec<String> = Vec::new();
        if id.index() < self.program.reactors.len() {
            let inputs = &self.program.reactors[id.index()].inputs;
            for i in 0..inputs.len()
                invariant
                    names.len() == i,
                    forall|j: int| 0 <= j < i ==> #[trigger] names@[j]@ == inputs@[j].name@,
            {
                names.push(inputs[i].name.clone());
            }
        }
        assert(texts(names@) =~= input_names(self@.reactor_inputs(id)));
        copies::place(&names, name)
    }

    pub fn node_place(&self, id: ReactorId, name: &str) -> (r: Option<usize>)
        ensures
            copies::as_place(r) == self@.node_place(id, name@),
    {
        proof {
            reveal(Checker::view);
            reveal(State::node_place);
            reveal(State::push);
            reveal(State::reactor_nodes);
        }
        let mut names: Vec<String> = Vec::new();
        if id.index() < self.program.reactors.len() {
            let nodes = &self.program.reactors[id.index()].nodes;
            for i in 0..nodes.len()
                invariant
                    names.len() == i,
                    forall|j: int| 0 <= j < i ==> #[trigger] names@[j]@ == nodes@[j].name@,
            {
                names.push(nodes[i].name.clone());
            }
        }
        assert(texts(names@) =~= node_names(self@.reactor_nodes(id)));
        copies::place(&names, name)
    }

    pub fn variant_place(&self, id: EnumId, name: &str) -> (r: Option<usize>)
        ensures
            copies::as_place(r) == self@.variant_place(id, name@),
            r matches Some(i) ==> i < self@.enum_variants(id).len(),
    {
        proof {
            reveal(State::variant_place);
        }
        let variants = self.enum_variants(id);
        let mut names: Vec<String> = Vec::new();
        for i in 0..variants.len()
            invariant
                names.len() == i,
                forall|j: int| 0 <= j < i ==> #[trigger] names@[j]@ == variants@[j].name@,
        {
            names.push(variants[i].name.clone());
        }
        assert(variants_of(variants@).len() == variants@.len());
        assert(texts(names@) =~= variant_names(self@.enum_variants(id)));
        copies::place(&names, name)
    }

    pub fn variant_fields(&self, id: EnumId, index: usize) -> (r: Vec<FieldDef>)
        ensures
            crate::hir::fields_of(r@) == self@.variant_fields(id, index as int),
    {
        proof {
            reveal(State::variant_fields);
        }
        let variants = self.enum_variants(id);
        assert(variants_of(variants@).len() == variants@.len());
        if index < variants.len() {
            assert(variants_of(variants@)[index as int] == variants@[index as int]@);
            copies::fields(&variants[index].fields)
        } else {
            let r: Vec<FieldDef> = Vec::new();
            assert(crate::hir::fields_of(r@) =~= seq![]);
            r
        }
    }

    pub fn variant_name(&self, id: EnumId, index: usize) -> (r: String)
        ensures
            r@ == self@.variant_name(id, index as int),
    {
        proof {
            reveal(State::variant_name);
        }
        let variants = self.enum_variants(id);
        assert(variants_of(variants@).len() == variants@.len());
        if index < variants.len() {
            assert(variants_of(variants@)[index as int] == variants@[index as int]@);
            variants[index].name.clone()
        } else {
            "_".to_owned()
        }
    }

    pub fn trait_methods(&self, id: TraitId) -> (r: Vec<TraitMethod>)
        ensures
            crate::hir::methods_of(r@) == self@.trait_methods(id),
    {
        proof {
            reveal(Checker::view);
            reveal(State::push);
            reveal(State::trait_methods);
        }
        let mut r: Vec<TraitMethod> = Vec::new();
        if id.index() < self.traits.len() {
            let methods = &self.traits[id.index()].methods;
            for i in 0..methods.len()
                invariant
                    r.len() == i,
                    forall|j: int| 0 <= j < i ==> #[trigger] r@[j]@ == methods@[j]@,
            {
                let m = TraitMethod {
                    name: methods[i].name.clone(),
                    params: copies::named(&methods[i].params),
                    modes: copies::plain(&methods[i].modes),
                    ret: methods[i].ret.copy(),
                };
                r.push(m);
            }
        }
        assert(crate::hir::methods_of(r@) =~= self@.trait_methods(id));
        r
    }

    pub fn method_place(&self, id: TraitId, name: &str) -> (r: Option<usize>)
        ensures
            copies::as_place(r) == self@.method_place(id, name@),
            r matches Some(i) ==> i < self@.trait_methods(id).len(),
    {
        proof {
            reveal(State::method_place);
        }
        let methods = self.trait_methods(id);
        let mut names: Vec<String> = Vec::new();
        for i in 0..methods.len()
            invariant
                names.len() == i,
                forall|j: int| 0 <= j < i ==> #[trigger] names@[j]@ == methods@[j].name@,
        {
            names.push(methods[i].name.clone());
        }
        assert(crate::hir::methods_of(methods@).len() == methods@.len());
        assert(texts(names@) =~= method_names(self@.trait_methods(id)));
        copies::place(&names, name)
    }

    /// The bounds a type parameter in scope declared.
    pub fn bounds_of(&self, index: u32) -> (r: Vec<TraitId>)
        ensures
            r@ == self@.bounds_of(index),
    {
        proof {
            reveal(Checker::view);
            reveal(State::bounds_of);
        }
        let at: usize = index as usize;
        if at < self.bounds.len() {
            copies::plain(&self.bounds[at])
        } else {
            Vec::new()
        }
    }

    // ------------------------------------------------------------ diagnostics

    /// File a diagnostic in the current module's list.
    pub fn push(&mut self, d: Diagnostic)
        ensures
            final(self)@ == old(self)@.push(d@),
    {
        proof {
            reveal(Checker::view);
            reveal(State::push);
        }
        if self.current < self.errors.len() {
            let at: usize = self.current;
            self.errors[at].push(d);
            assert(reports(self.errors@[at as int]@) =~= reports(old(self).errors@[at as int]@).push(
                d@,
            ));
            assert(reports_each(self.errors@) =~= reports_each(old(self).errors@).update(
                at as int,
                reports(old(self).errors@[at as int]@).push(d@),
            ));
        }
    }

    // ------------------------------------------------------------ locals and scopes

    /// One more local, bound in the innermost scope.
    pub fn bind(
        &mut self,
        name: &str,
        ty: Ty,
        mutable: bool,
        role: LocalRole,
        span: Span,
    ) -> (r: LocalId)
        ensures
            r == LocalId(old(self)@.locals.len() as u32),
            final(self)@ == old(self)@.bound(name@, ty@, mutable, role, span),
    {
        proof {
            reveal(Checker::view);
            reveal(State::bound);
            reveal(State::push);
        }
        let id = LocalId(
            #[verifier::truncate]
            (self.locals.len() as u32),
        );
        self.locals.push(LocalDef { name: name.to_owned(), ty, mutable, role, span });
        assert(locals_of(self.locals@) =~= locals_of(old(self).locals@).push(
            model::LocalDef { name: name@, ty: ty@, mutable, role, span },
        ));
        let n: usize = self.scopes.len();
        if n > 0 {
            self.scopes[n - 1].push((name.to_owned(), id));
            assert(frame_of(self.scopes@[n - 1]@) =~= frame_of(old(self).scopes@[n - 1]@).push(
                (name@, id),
            ));
            assert(scopes_of(self.scopes@) =~= scopes_of(old(self).scopes@).drop_last().push(
                scopes_of(old(self).scopes@).last().push((name@, id)),
            ));
        }
        id
    }

    pub fn open_scope(&mut self)
        ensures
            final(self)@ == old(self)@.open_scope(),
    {
        proof {
            reveal(Checker::view);
            reveal(State::open_scope);
            reveal(State::push);
        }
        let frame: Vec<(String, LocalId)> = Vec::new();
        assert(frame_of(frame@) =~= seq![]);
        self.scopes.push(frame);
        assert(scopes_of(self.scopes@) =~= scopes_of(old(self).scopes@).push(seq![]));
    }

    pub fn close_scope(&mut self)
        ensures
            final(self)@ == old(self)@.close_scope(),
    {
        proof {
            reveal(Checker::view);
            reveal(State::close_scope);
        }
        if self.scopes.len() > 0 {
            let _ = self.scopes.pop();
            assert(scopes_of(self.scopes@) =~= scopes_of(old(self).scopes@).drop_last());
        }
    }

    /// The innermost binding of a name.
    pub fn lookup_local(&self, name: &str) -> (r: Option<LocalId>)
        ensures
            r == self@.lookup_local(name@),
    {
        proof {
            reveal(Checker::view);
            reveal(State::lookup_local);
        }
        let mut n: usize = self.scopes.len();
        let ghost all = scopes_of(self.scopes@);
        assert(all.take(n as int) =~= all);
        while n > 0
            invariant
                n <= self.scopes.len(),
                all == scopes_of(self.scopes@),
                self@.scopes == all,
                lookup_in(all.take(n as int), name@) == lookup_in(all, name@),
            decreases n,
        {
            assert(all.take(n as int).drop_last() =~= all.take(n - 1));
            let frame = &self.scopes[n - 1];
            let ghost names = frame_of(frame@);
            assert(all.take(n as int).last() == names);
            let mut k: usize = frame.len();
            assert(names.take(k as int) =~= names);
            while k > 0
                invariant
                    k <= frame.len(),
                    names == frame_of(frame@),
                    lookup_frame(names.take(k as int), name@) == lookup_frame(names, name@),
                    0 < n <= self.scopes.len(),
                    lookup_in(all.take(n as int), name@) == lookup_in(all, name@),
                    all.take(n as int).last() == names,
                    all == scopes_of(self.scopes@),
                    self@.scopes == all,
                decreases k,
            {
                assert(names.take(k as int).drop_last() =~= names.take(k - 1));
                if same(frame[k - 1].0.as_str(), name) {
                    proof {
                        reveal(State::lookup_local);
                    }
                    return Some(frame[k - 1].1);
                }
                k = k - 1;
            }
            n = n - 1;
        }
        None
    }

    pub fn local_ty(&self, id: LocalId) -> (r: Ty)
        ensures
            r@ == self@.local_ty(id),
    {
        proof {
            reveal(Checker::view);
            reveal(State::local_ty);
        }
        if id.index() < self.locals.len() {
            self.locals[id.index()].ty.copy()
        } else {
            Ty::Error
        }
    }
}

// ---------------------------------------------------------------- making expressions

/// A checked expression.
pub fn make(kind: ExprKind, ty: Ty, span: Span) -> (r: Expr)
    ensures
        r@ == (model::Expr { kind: kind@, ty: ty@, span }),
{
    let r = Expr { kind, ty, span };
    proof {
        r.look();
    }
    r
}

/// The expression where a diagnostic was already given.
pub open spec fn failed(span: Span) -> model::Expr {
    model::Expr { kind: model::ExprKind::Error, ty: model::Ty::Error, span }
}

pub fn error_expr(span: Span) -> (r: Expr)
    ensures
        r@ == failed(span),
{
    make(ExprKind::Error, Ty::Error, span)
}

} // verus!
