//! Entries added to the program and to the namespaces of the file being looked at.

use vstd::prelude::*;
use vstd::string::*;
use crate::checker::{items_of, ns_of, scopes_of, Checker};
use crate::hir::{
    enums_of, fns_of, impls_of, locals_of, reactors_of, structs_of, traits_of, EnumDef, EnumId,
    Expr, FnId, ImplDef, LocalDef, LocalId, ReactorDef, ReactorId, StructDef, StructId, TraitDef,
    TraitId, TraitMethod,
};
use crate::model;
use crate::state::{Ns, State, TypeName};

verus! {

impl State {
    /// The namespaces of the file being looked at, replaced.
    #[verifier::opaque]
    pub open spec fn with_here(self, ns: Ns) -> State {
        if self.current < self.ns.len() {
            State { ns: self.ns.update(self.current as int, ns), ..self }
        } else {
            self
        }
    }

    #[verifier::opaque]
    pub open spec fn naming_type(self, name: Seq<char>, v: TypeName) -> State {
        self.with_here(Ns { types: self.here().types.insert(name, v), ..self.here() })
    }

    #[verifier::opaque]
    pub open spec fn naming_fn(self, name: Seq<char>, v: FnId) -> State {
        self.with_here(Ns { fns: self.here().fns.insert(name, v), ..self.here() })
    }

    #[verifier::opaque]
    pub open spec fn naming_reactor(self, name: Seq<char>, v: ReactorId) -> State {
        self.with_here(Ns { reactors: self.here().reactors.insert(name, v), ..self.here() })
    }

    #[verifier::opaque]
    pub open spec fn naming_trait(self, name: Seq<char>, v: TraitId) -> State {
        self.with_here(Ns { traits: self.here().traits.insert(name, v), ..self.here() })
    }

    #[verifier::opaque]
    pub open spec fn naming_namespace(self, name: Seq<char>, v: usize) -> State {
        self.with_here(Ns { namespaces: self.here().namespaces.insert(name, v), ..self.here() })
    }

    #[verifier::opaque]
    pub open spec fn next_struct(self) -> StructId {
        StructId(self.program.structs.len() as u32)
    }

    /// One more struct, of the file being looked at.
    #[verifier::opaque]
    pub open spec fn with_new_struct(self, def: model::StructDef) -> State {
        State {
            program: model::Program { structs: self.program.structs.push(def), ..self.program },
            struct_owner: self.struct_owner.push(self.current),
            ..self
        }
    }

    #[verifier::opaque]
    pub open spec fn next_enum(self) -> EnumId {
        EnumId(self.program.enums.len() as u32)
    }

    /// One more enum, of the file being looked at.
    #[verifier::opaque]
    pub open spec fn with_new_enum(self, def: model::EnumDef) -> State {
        State {
            program: model::Program { enums: self.program.enums.push(def), ..self.program },
            enum_owner: self.enum_owner.push(self.current),
            ..self
        }
    }

    #[verifier::opaque]
    pub open spec fn next_reactor(self) -> ReactorId {
        ReactorId(self.program.reactors.len() as u32)
    }

    /// One more reactor, of the file being looked at.
    #[verifier::opaque]
    pub open spec fn with_new_reactor(self, def: model::ReactorDef) -> State {
        State {
            program: model::Program { reactors: self.program.reactors.push(def), ..self.program },
            reactor_owner: self.reactor_owner.push(self.current),
            ..self
        }
    }

    #[verifier::opaque]
    pub open spec fn next_trait(self) -> TraitId {
        TraitId(self.traits.len() as u32)
    }

    #[verifier::opaque]
    pub open spec fn with_trait(self, def: model::TraitDef) -> State {
        State { traits: self.traits.push(def), ..self }
    }

    /// A trait's members, replaced.
    #[verifier::opaque]
    pub open spec fn with_methods(self, id: TraitId, methods: Seq<model::TraitMethod>) -> State {
        if id.0 < self.traits.len() {
            State {
                traits: self.traits.update(
                    id.0 as int,
                    model::TraitDef { methods, ..self.traits[id.0 as int] },
                ),
                ..self
            }
        } else {
            self
        }
    }

    #[verifier::opaque]
    pub open spec fn with_impl(self, def: model::ImplDef) -> State {
        State { impls: self.impls.push(def), ..self }
    }

    #[verifier::opaque]
    pub open spec fn with_main(self, id: FnId) -> State {
        State { program: model::Program { main: Some(id), ..self.program }, ..self }
    }

    /// Which function each item of the file being looked at declared.
    #[verifier::opaque]
    pub open spec fn with_fn_of_item(self, list: Seq<Option<FnId>>) -> State {
        if self.current < self.fn_of_item.len() {
            State { fn_of_item: self.fn_of_item.update(self.current as int, list), ..self }
        } else {
            self
        }
    }

    /// The function an item of the file being looked at declared, unless it was refused.
    #[verifier::opaque]
    pub open spec fn item_fn(self, index: int) -> Option<FnId> {
        if self.current < self.fn_of_item.len() && 0 <= index
            < self.fn_of_item[self.current as int].len() {
            self.fn_of_item[self.current as int][index]
        } else {
            None
        }
    }

    /// A function's body, with the locals that were declared while it was checked.
    #[verifier::opaque]
    pub open spec fn with_body(self, id: FnId, body: model::Expr) -> State {
        State {
            program: if id.0 < self.program.fns.len() {
                model::Program {
                    fns: self.program.fns.update(
                        id.0 as int,
                        model::FnDef {
                            locals: self.locals,
                            body,
                            ..self.program.fns[id.0 as int]
                        },
                    ),
                    ..self.program
                }
            } else {
                self.program
            },
            locals: seq![],
            ..self
        }
    }

    /// Ready for the body of a function: no locals, one scope, no loop.
    #[verifier::opaque]
    pub open spec fn fresh(self) -> State {
        State { locals: seq![], scopes: seq![seq![]], loops: seq![], ..self }
    }

    /// How a declaration of the file being looked at is displayed: a file other than the first
    /// puts its own name before it.
    #[verifier::opaque]
    pub open spec fn qualified(self, name: Seq<char>) -> Seq<char> {
        if self.current == 0 || self.stem().len() == 0 {
            name
        } else {
            self.stem() + "."@ + name
        }
    }

    /// The name of the file being looked at, without its directory and extension.
    #[verifier::opaque]
    pub open spec fn stem(self) -> Seq<char> {
        if self.current < self.stems.len() {
            self.stems[self.current as int]
        } else {
            seq![]
        }
    }
}

impl Checker {
    pub fn name_type(&mut self, name: &str, v: TypeName)
        ensures
            final(self)@ == old(self)@.naming_type(name@, v),
    {
        proof {
            reveal(Checker::view);
            reveal(State::naming_type);
            reveal(State::with_here);
            reveal(State::here);
            reveal(State::at);
        }
        let at: usize = self.current;
        if at < self.ns.len() {
            self.ns[at].types.insert(name, v);
            assert(ns_of(self.ns@) =~= ns_of(old(self).ns@).update(
                at as int,
                Ns {
                    types: ns_of(old(self).ns@)[at as int].types.insert(name@, v),
                    ..ns_of(old(self).ns@)[at as int]
                },
            ));
        }
    }

    pub fn name_fn(&mut self, name: &str, v: FnId)
        ensures
            final(self)@ == old(self)@.naming_fn(name@, v),
    {
        proof {
            reveal(Checker::view);
            reveal(State::naming_fn);
            reveal(State::with_here);
            reveal(State::here);
            reveal(State::at);
        }
        let at: usize = self.current;
        if at < self.ns.len() {
            self.ns[at].fns.insert(name, v);
            assert(ns_of(self.ns@) =~= ns_of(old(self).ns@).update(
                at as int,
                Ns {
                    fns: ns_of(old(self).ns@)[at as int].fns.insert(name@, v),
                    ..ns_of(old(self).ns@)[at as int]
                },
            ));
        }
    }

    pub fn name_reactor(&mut self, name: &str, v: ReactorId)
        ensures
            final(self)@ == old(self)@.naming_reactor(name@, v),
    {
        proof {
            reveal(Checker::view);
            reveal(State::naming_reactor);
            reveal(State::with_here);
            reveal(State::here);
            reveal(State::at);
        }
        let at: usize = self.current;
        if at < self.ns.len() {
            self.ns[at].reactors.insert(name, v);
            assert(ns_of(self.ns@) =~= ns_of(old(self).ns@).update(
                at as int,
                Ns {
                    reactors: ns_of(old(self).ns@)[at as int].reactors.insert(name@, v),
                    ..ns_of(old(self).ns@)[at as int]
                },
            ));
        }
    }

    pub fn name_trait(&mut self, name: &str, v: TraitId)
        ensures
            final(self)@ == old(self)@.naming_trait(name@, v),
    {
        proof {
            reveal(Checker::view);
            reveal(State::naming_trait);
            reveal(State::with_here);
            reveal(State::here);
            reveal(State::at);
        }
        let at: usize = self.current;
        if at < self.ns.len() {
            self.ns[at].traits.insert(name, v);
            assert(ns_of(self.ns@) =~= ns_of(old(self).ns@).update(
                at as int,
                Ns {
                    traits: ns_of(old(self).ns@)[at as int].traits.insert(name@, v),
                    ..ns_of(old(self).ns@)[at as int]
                },
            ));
        }
    }

    pub fn name_namespace(&mut self, name: &str, v: usize)
        ensures
            final(self)@ == old(self)@.naming_namespace(name@, v),
    {
        proof {
            reveal(Checker::view);
            reveal(State::naming_namespace);
            reveal(State::with_here);
            reveal(State::here);
            reveal(State::at);
        }
        let at: usize = self.current;
        if at < self.ns.len() {
            self.ns[at].namespaces.insert(name, v);
            assert(ns_of(self.ns@) =~= ns_of(old(self).ns@).update(
                at as int,
                Ns {
                    namespaces: ns_of(old(self).ns@)[at as int].namespaces.insert(name@, v),
                    ..ns_of(old(self).ns@)[at as int]
                },
            ));
        }
    }

    pub fn add_struct(&mut self, def: StructDef) -> (r: StructId)
        ensures
            r == old(self)@.next_struct(),
            final(self)@ == old(self)@.with_new_struct(def@),
    {
        proof {
            reveal(Checker::view);
            reveal(State::next_struct);
            reveal(State::with_new_struct);
        }
        let id = StructId(
            #[verifier::truncate]
            (self.program.structs.len() as u32),
        );
        let ghost view = def@;
        self.program.structs.push(def);
        assert(structs_of(self.program.structs@) =~= structs_of(old(self).program.structs@).push(view));
        self.struct_owner.push(self.current);
        id
    }

    pub fn add_enum(&mut self, def: EnumDef) -> (r: EnumId)
        ensures
            r == old(self)@.next_enum(),
            final(self)@ == old(self)@.with_new_enum(def@),
    {
        proof {
            reveal(Checker::view);
            reveal(State::next_enum);
            reveal(State::with_new_enum);
        }
        let id = EnumId(
            #[verifier::truncate]
            (self.program.enums.len() as u32),
        );
        let ghost view = def@;
        self.program.enums.push(def);
        assert(enums_of(self.program.enums@) =~= enums_of(old(self).program.enums@).push(view));
        self.enum_owner.push(self.current);
        id
    }

    pub fn add_reactor(&mut self, def: ReactorDef) -> (r: ReactorId)
        ensures
            r == old(self)@.next_reactor(),
            final(self)@ == old(self)@.with_new_reactor(def@),
    {
        proof {
            reveal(Checker::view);
            reveal(State::next_reactor);
            reveal(State::with_new_reactor);
        }
        let id = ReactorId(
            #[verifier::truncate]
            (self.program.reactors.len() as u32),
        );
        let ghost view = def@;
        self.program.reactors.push(def);
        assert(reactors_of(self.program.reactors@) =~= reactors_of(old(self).program.reactors@).push(view));
        self.reactor_owner.push(self.current);
        id
    }

    pub fn add_trait(&mut self, def: TraitDef) -> (r: TraitId)
        ensures
            r == old(self)@.next_trait(),
            final(self)@ == old(self)@.with_trait(def@),
    {
        proof {
            reveal(Checker::view);
            reveal(State::next_trait);
            reveal(State::with_trait);
        }
        let id = TraitId(
            #[verifier::truncate]
            (self.traits.len() as u32),
        );
        let ghost view = def@;
        self.traits.push(def);
        assert(traits_of(self.traits@) =~= traits_of(old(self).traits@).push(view));
        id
    }

    pub fn set_methods(&mut self, id: TraitId, methods: Vec<TraitMethod>)
        ensures
            final(self)@ == old(self)@.with_methods(id, crate::hir::methods_of(methods@)),
    {
        proof {
            reveal(Checker::view);
            reveal(State::with_methods);
        }
        let at: usize = id.index();
        if at < self.traits.len() {
            let ghost view = crate::hir::methods_of(methods@);
            self.traits[at].methods = methods;
            assert(traits_of(self.traits@) =~= traits_of(old(self).traits@).update(
                at as int,
                model::TraitDef { methods: view, ..traits_of(old(self).traits@)[at as int] },
            ));
        }
    }

    pub fn add_impl(&mut self, def: ImplDef)
        ensures
            final(self)@ == old(self)@.with_impl(def@),
    {
        proof {
            reveal(Checker::view);
            reveal(State::with_impl);
        }
        let ghost view = def@;
        self.impls.push(def);
        assert(impls_of(self.impls@) =~= impls_of(old(self).impls@).push(view));
    }

    pub fn set_main(&mut self, id: FnId)
        ensures
            final(self)@ == old(self)@.with_main(id),
    {
        proof {
            reveal(Checker::view);
            reveal(State::with_main);
        }
        self.program.main = Some(id);
    }

    pub fn set_fn_of_item(&mut self, list: Vec<Option<FnId>>)
        ensures
            final(self)@ == old(self)@.with_fn_of_item(list@),
    {
        proof {
            reveal(Checker::view);
            reveal(State::with_fn_of_item);
        }
        let at: usize = self.current;
        if at < self.fn_of_item.len() {
            let ghost view = list@;
            self.fn_of_item.set(at, list);
            assert(items_of(self.fn_of_item@) =~= items_of(old(self).fn_of_item@).update(
                at as int,
                view,
            ));
        }
    }

    pub fn item_fn(&self, index: usize) -> (r: Option<FnId>)
        ensures
            r == self@.item_fn(index as int),
    {
        proof {
            reveal(Checker::view);
            reveal(State::item_fn);
        }
        if self.current < self.fn_of_item.len() {
            let list = &self.fn_of_item[self.current];
            if index < list.len() {
                return list[index];
            }
        }
        None
    }

    pub fn set_body(&mut self, id: FnId, body: Expr)
        ensures
            final(self)@ == old(self)@.with_body(id, body@),
    {
        proof {
            reveal(Checker::view);
            reveal(State::with_body);
        }
        let mut locals: Vec<LocalDef> = Vec::new();
        locals.append(&mut self.locals);
        assert(locals@ =~= old(self).locals@);
        assert(locals_of(self.locals@) =~= seq![]);
        let at: usize = id.index();
        if at < self.program.fns.len() {
            let ghost view = body@;
            self.program.fns[at].locals = locals;
            self.program.fns[at].body = body;
            assert(fns_of(self.program.fns@) =~= fns_of(old(self).program.fns@).update(
                at as int,
                model::FnDef {
                    locals: locals_of(old(self).locals@),
                    body: view,
                    ..fns_of(old(self).program.fns@)[at as int]
                },
            ));
        }
    }

    pub fn start_fresh(&mut self)
        ensures
            final(self)@ == old(self)@.fresh(),
    {
        proof {
            reveal(Checker::view);
            reveal(State::fresh);
        }
        self.locals = Vec::new();
        let frame: Vec<(String, LocalId)> = Vec::new();
        assert(crate::checker::frame_of(frame@) =~= seq![]);
        let mut scopes: Vec<Vec<(String, LocalId)>> = Vec::new();
        scopes.push(frame);
        assert(scopes_of(scopes@) =~= seq![seq![]]);
        self.scopes = scopes;
        self.loops = Vec::new();
        assert(locals_of(self.locals@) =~= seq![]);
        assert(crate::checker::loops_of(self.loops@) =~= seq![]);
    }

    pub fn stem(&self) -> (r: String)
        ensures
            r@ == self@.stem(),
    {
        proof {
            reveal(Checker::view);
            reveal(State::stem);
            reveal_strlit("");
        }
        if self.current < self.stems.len() {
            self.stems[self.current].clone()
        } else {
            assert(""@ =~= seq![]);
            "".to_owned()
        }
    }

    pub fn qualified(&self, name: &str) -> (r: String)
        ensures
            r@ == self@.qualified(name@),
    {
        proof {
            reveal(State::qualified);
            reveal_strlit("");
        }
        let stem = self.stem();
        assert(""@ =~= seq![]);
        if self.current() == 0 || crate::text::same(stem.as_str(), "") {
            assert(stem@.len() == 0 ==> stem@ =~= ""@);
            name.to_owned()
        } else {
            assert(stem@.len() == 0 ==> stem@ =~= ""@);
            stem.concat(".").concat(name)
        }
    }
}

} // verus!
