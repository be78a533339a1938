//! The bodies of a reactor's members, typed in dependency order and lifted to functions.

use vstd::prelude::*;
use vstd::string::*;
use crate::ast;
use crate::binding::{declare_role, is_error, is_never};
use crate::checker::{bounds_list, maybe, Checker};
use crate::copies;
use crate::expr::{body, expression};
use crate::graph::lists;
use crate::hir::{
    fns_of, inputs_of, locals_of, nodes_of, reactors_of, Capability, Expr, FnId, LocalDef,
    LocalRole, NodeId, NodeKind, ReactorId, Ty,
};
use crate::members::{reactor_at, reactor_items, reactor_ty};
use crate::model;
use crate::order::{plan, plan_of};
use crate::reports;
use crate::resolve::resolve_ty;
use crate::say;
use crate::span::{texts, Span};
use crate::state::{Ctx, Sort, State};
use crate::table::Table;
use crate::text::{decimal, number, same};
use crate::wiring::{ids_of, member_namespace, node_ids, span_of, wirings, Wires, Wiring};

verus! {

/// A member of a reactor, as its body is looked at: which reactor, under what names, and with
/// what authority.
pub struct Home {
    pub id: ReactorId,
    pub members: Map<Seq<char>, Sort>,
    pub uses: Seq<Capability>,
}

/// Ready for the body of a lifted member. The members are at hand for the sake of a report about a
/// name that is one and cannot be read here.
#[verifier::opaque]
pub open spec fn begin_member(s: State, function: FnId, home: Home, handler: bool) -> State {
    s.fresh().with_ret(model::Ty::Unit).with_fn_name(s.fn_display(function)).with_ctx(
        Ctx::Turn,
    ).with_uses(home.uses).with_type_params(seq![]).with_bounds(seq![]).with_reactor(
        Some(home.id),
    ).with_in_handler(handler).with_members(home.members)
}

pub open spec fn role_of(kind: NodeKind) -> LocalRole {
    match kind {
        NodeKind::Param { .. } => LocalRole::Param,
        NodeKind::State { slot, .. } => LocalRole::State(slot),
        NodeKind::Signal { .. } => LocalRole::Signal,
    }
}

/// A node, bound under its name. Only state can be assigned, and only where `mutable` says so.
#[verifier::opaque]
pub open spec fn bind_node(s: State, id: ReactorId, node: int, mutable: bool) -> State {
    match s.node(id, node) {
        Some(n) => declare_role(
            s,
            n.name,
            n.ty,
            mutable && n.kind is State,
            role_of(n.kind),
            n.span,
        ).0,
        None => s,
    }
}

pub open spec fn bind_nodes(s: State, id: ReactorId, nodes: Seq<usize>, mutable: bool) -> State
    decreases nodes.len(),
{
    if nodes.len() == 0 {
        s
    } else {
        bind_node(
            bind_nodes(s, id, nodes.drop_last(), mutable),
            id,
            nodes.last() as int,
            mutable,
        )
    }
}

/// How many of a function's locals are bindings of its own body.
pub open spec fn ordinary(locals: Seq<model::LocalDef>) -> nat
    decreases locals.len(),
{
    if locals.len() == 0 {
        0
    } else {
        ordinary(locals.drop_last()) + if locals.last().role == LocalRole::Ordinary {
            1nat
        } else {
            0nat
        }
    }
}

impl State {
    /// A lifted function with its body, and with the locals declared while it was checked.
    #[verifier::opaque]
    pub open spec fn with_lifted(self, id: FnId, ret: model::Ty, body: model::Expr) -> State {
        State {
            program: if id.0 < self.program.fns.len() {
                model::Program {
                    fns: self.program.fns.update(
                        id.0 as int,
                        model::FnDef {
                            params: (self.locals.len() - ordinary(self.locals)) as usize,
                            ret,
                            locals: self.locals,
                            body,
                            ..self.program.fns[id.0 as int]
                        },
                    ),
                    ..self.program
                }
            } else {
                self.program
            },
            locals: seq![],
            ..self
        }
    }

    /// A node's type, replaced.
    #[verifier::opaque]
    pub open spec fn with_node_ty(self, id: ReactorId, node: int, ty: model::Ty) -> State {
        if id.0 < self.program.reactors.len() && 0 <= node
            < self.program.reactors[id.0 as int].nodes.len() {
            let def = self.program.reactors[id.0 as int];
            State {
                program: model::Program {
                    reactors: self.program.reactors.update(
                        id.0 as int,
                        model::ReactorDef {
                            nodes: def.nodes.update(node, model::Node { ty, ..def.nodes[node] }),
                            ..def
                        },
                    ),
                    ..self.program
                },
                ..self
            }
        } else {
            self
        }
    }

    /// What a message on an input has to touch.
    #[verifier::opaque]
    pub open spec fn with_plan(self, id: ReactorId, input: int, plan: Seq<NodeId>) -> State {
        if id.0 < self.program.reactors.len() && 0 <= input
            < self.program.reactors[id.0 as int].inputs.len() {
            let def = self.program.reactors[id.0 as int];
            State {
                program: model::Program {
                    reactors: self.program.reactors.update(
                        id.0 as int,
                        model::ReactorDef {
                            inputs: def.inputs.update(
                                input,
                                model::InputDef { plan, ..def.inputs[input] },
                            ),
                            ..def
                        },
                    ),
                    ..self.program
                },
                ..self
            }
        } else {
            self
        }
    }

    /// The result type of a function.
    #[verifier::opaque]
    pub open spec fn fn_ret(self, id: FnId) -> model::Ty {
        if id.0 < self.program.fns.len() {
            self.program.fns[id.0 as int].ret
        } else {
            model::Ty::Error
        }
    }

    /// The function that handles an input.
    #[verifier::opaque]
    pub open spec fn handler(self, id: ReactorId, input: int) -> FnId {
        if 0 <= input < self.reactor_inputs(id).len() {
            self.reactor_inputs(id)[input].handler
        } else {
            FnId(u32::MAX)
        }
    }

    /// The message an input carries.
    #[verifier::opaque]
    pub open spec fn message(self, id: ReactorId, input: int) -> model::Ty {
        if 0 <= input < self.reactor_inputs(id).len() {
            self.reactor_inputs(id)[input].ty
        } else {
            model::Ty::Error
        }
    }
}

/// The function a node's value is computed by.
pub open spec fn node_fn(kind: NodeKind) -> Option<FnId> {
    match kind {
        NodeKind::Param { .. } => None,
        NodeKind::State { init, .. } => Some(init),
        NodeKind::Signal { body } => Some(body),
    }
}

pub open spec fn declares(member: ast::Member, name: Seq<char>) -> bool {
    match member.kind {
        ast::MemberKind::State { name: found, .. } => found.name@ == name,
        ast::MemberKind::Signal { name: found, .. } => found.name@ == name,
        _ => false,
    }
}

/// The first declaration of a node's name.
pub open spec fn member_for(members: Seq<ast::Member>, name: Seq<char>) -> Option<ast::Member>
    decreases members.len(),
{
    if members.len() == 0 {
        None
    } else {
        match member_for(members.drop_last(), name) {
            Some(m) => Some(m),
            None => if declares(members.last(), name) {
                Some(members.last())
            } else {
                None
            },
        }
    }
}

/// A written type, if one was written.
#[verifier::opaque]
pub open spec fn annotated(s: State, ty: Option<ast::Type>) -> (State, Option<model::Ty>) {
    match ty {
        Some(ty) => (resolve_ty(s, ty).0, Some(resolve_ty(s, ty).1)),
        None => (s, None),
    }
}

/// What a node holds: what was written, or else what its body gives.
pub open spec fn settled_ty(written: Option<model::Ty>, found: model::Ty) -> model::Ty {
    match written {
        Some(ty) => ty,
        None => if found is Never {
            model::Ty::Error
        } else {
            found
        },
    }
}

/// A signal's type is mostly inferred, so that it owns nothing is asked of what came out.
#[verifier::opaque]
pub open spec fn held_by(
    s: State,
    ty: model::Ty,
    signal: Option<Seq<char>>,
    span: Span,
) -> (State, model::Ty) {
    match signal {
        Some(name) => reactor_ty(s, ty, "signal"@, name, span),
        None => (s, ty),
    }
}

/// The body of a node, which sees what it depends on and nothing else.
#[verifier::opaque]
pub open spec fn check_node_body(
    s: State,
    home: Home,
    node: int,
    function: FnId,
    deps: Seq<usize>,
    ty: Option<ast::Type>,
    value: ast::Expr,
    signal: Option<Seq<char>>,
) -> State {
    let span = span_of(s, home.id, node);
    let b = bind_nodes(begin_member(s, function, home, false), home.id, deps, false);
    let a = annotated(b, ty);
    let c = expression(a.0, value, a.1);
    let t = held_by(c.0, settled_ty(a.1, c.1.ty), signal, span);
    t.0.with_lifted(function, t.1, c.1).with_node_ty(home.id, node, t.1)
}

#[verifier::opaque]
pub open spec fn check_node(
    s: State,
    home: Home,
    decl: ast::ReactorDecl,
    w: Wires,
    node: int,
) -> State {
    let deps = if 0 <= node < w.deps.len() {
        w.deps[node]
    } else {
        seq![]
    };
    match s.node(home.id, node) {
        None => s,
        Some(n) => match node_fn(n.kind) {
            None => s,
            Some(function) => match member_for(decl.members@, n.name) {
                None => s,
                Some(member) => match member.kind {
                    ast::MemberKind::State { ty, init, .. } => check_node_body(
                        s,
                        home,
                        node,
                        function,
                        deps,
                        Some(ty),
                        init,
                        None,
                    ),
                    ast::MemberKind::Signal { name, ty, body, .. } => check_node_body(
                        s,
                        home,
                        node,
                        function,
                        deps,
                        ty,
                        body,
                        Some(name.name@),
                    ),
                    _ => s,
                },
            },
        },
    }
}

pub open spec fn check_nodes(
    s: State,
    home: Home,
    decl: ast::ReactorDecl,
    w: Wires,
    order: Seq<usize>,
) -> State
    decreases order.len(),
{
    if order.len() == 0 {
        s
    } else {
        check_node(
            check_nodes(s, home, decl, w, order.drop_last()),
            home,
            decl,
            w,
            order.last() as int,
        )
    }
}

/// The names a handler binds, each under one type.
pub open spec fn bind_messages(
    s: State,
    params: Seq<ast::HandlerParam>,
    ty: model::Ty,
) -> State
    decreases params.len(),
{
    if params.len() == 0 {
        s
    } else {
        declare_role(
            bind_messages(s, params.drop_last(), ty),
            params.last().name.name@,
            ty,
            false,
            LocalRole::Message,
            params.last().span,
        ).0
    }
}

/// One name for the message, or none where the message is `()`.
#[verifier::opaque]
pub open spec fn bind_message(
    s: State,
    input: Seq<char>,
    params: Seq<ast::HandlerParam>,
    ty: model::Ty,
    span: Span,
) -> State {
    let wanted: nat = if ty is Unit {
        0
    } else {
        1
    };
    if params.len() == wanted {
        bind_messages(s, params, ty)
    } else {
        bind_messages(
            s.push(
                if wanted == 0 {
                    reports::carries_no_message(span, input)
                } else {
                    reports::binds_one_message(span, input, decimal(params.len()), s.ty_name(ty))
                },
            ),
            params,
            model::Ty::Error,
        )
    }
}

pub open spec fn slot_places(slots: Seq<NodeId>) -> Seq<usize> {
    Seq::new(slots.len(), |i: int| slots[i].0 as usize)
}

/// A handler sees the message and every slot, in slot order. A second one for its input is left
/// out.
#[verifier::opaque]
pub open spec fn check_handler(
    s: State,
    home: Home,
    input: Seq<char>,
    params: Seq<ast::HandlerParam>,
    block: ast::Block,
    span: Span,
) -> State {
    match s.input_place(home.id, input) {
        None => s,
        Some(i) => {
            let function = s.handler(home.id, i);
            if !(s.fn_ret(function) is Error) {
                s
            } else {
                let b = begin_member(s, function, home, true);
                let m = bind_message(b, input, params, b.message(home.id, i), span);
                let n = bind_nodes(m, home.id, slot_places(m.reactor_slots(home.id)), true);
                let c = body(n, block, Some(model::Ty::Unit));
                c.0.with_lifted(function, model::Ty::Unit, c.1)
            }
        },
    }
}

pub open spec fn check_handlers(s: State, home: Home, members: Seq<ast::Member>) -> State
    decreases members.len(),
{
    if members.len() == 0 {
        s
    } else {
        let before = check_handlers(s, home, members.drop_last());
        match members.last().kind {
            ast::MemberKind::On { input, params, body, .. } => check_handler(
                before,
                home,
                input.name@,
                params@,
                body,
                members.last().span,
            ),
            _ => before,
        }
    }
}

/// Each input's plan: the part of the order that its handler's writes can touch.
pub open spec fn with_plans(s: State, id: ReactorId, w: Wires, inputs: nat) -> State
    decreases inputs,
{
    if inputs == 0 {
        s
    } else {
        let at = (inputs - 1) as int;
        let before = with_plans(s, id, w, at as nat);
        if at < w.writes.len() {
            before.with_plan(id, at, node_ids(plan_of(w.deps, w.order, w.writes[at])))
        } else {
            before
        }
    }
}

/// Outside every reactor again.
#[verifier::opaque]
pub open spec fn leave_reactor(s: State) -> State {
    s.with_ctx(Ctx::Plain).with_members(Map::empty()).with_reactor(None).with_in_handler(false)
}

#[verifier::opaque]
pub open spec fn check_reactor(
    s: State,
    id: ReactorId,
    decl: ast::ReactorDecl,
    w: Wires,
) -> State {
    let home = Home { id, members: member_namespace(s, id), uses: s.reactor_uses(id) };
    let n = check_nodes(s, home, decl, w, w.order);
    let h = leave_reactor(check_handlers(n, home, decl.members@));
    with_plans(h, id, w, h.reactor_inputs(id).len())
}

pub open spec fn check_each(
    s: State,
    items: Seq<ast::Item>,
    ids: Seq<ReactorId>,
    places: Seq<usize>,
    ws: Seq<Wires>,
) -> State
    decreases ids.len(),
{
    if ids.len() == 0 || places.len() == 0 || ws.len() == 0 {
        s
    } else {
        let before = check_each(s, items, ids.drop_last(), places.drop_last(), ws.drop_last());
        match reactor_at(items, places.last()) {
            Some(decl) => if ws.last().ok {
                check_reactor(before, ids.last(), decl, ws.last())
            } else {
                before
            },
            None => before,
        }
    }
}

/// The reactors of a file whose graphs could be built.
#[verifier::opaque]
pub open spec fn check_reactors(s: State, module: ast::Module, ws: Seq<Wires>) -> State {
    let r = reactor_items(s, module.items@);
    let n = if r.0.len() <= ws.len() {
        r.0.len() as int
    } else {
        ws.len() as int
    };
    check_each(s, module.items@, r.0.take(n), r.1.take(n), ws.take(n))
}

// ---------------------------------------------------------------- carrying it out

/// The executable side of [`Home`].
pub struct Place {
    pub id: ReactorId,
    pub members: Table<Sort>,
    pub uses: Vec<Capability>,
}

impl Place {
    pub open spec fn view(&self) -> Home {
        Home { id: self.id, members: self.members@, uses: self.uses@ }
    }
}

fn count_ordinary(locals: &Vec<LocalDef>) -> (r: usize)
    ensures
        r == ordinary(locals_of(locals@)),
        r <= locals.len(),
{
    let mut r: usize = 0;
    let ghost all = locals_of(locals@);
    assert(all.take(0) =~= seq![]);
    for i in 0..locals.len()
        invariant
            all == locals_of(locals@),
            r <= i,
            r == ordinary(all.take(i as int)),
    {
        assert(all.take(i + 1).drop_last() =~= all.take(i as int));
        if locals[i].role == LocalRole::Ordinary {
            r = r + 1;
        }
    }
    assert(all.take(locals.len() as int) =~= all);
    r
}

fn find_member(members: &Vec<ast::Member>, name: &str) -> (r: Option<usize>)
    ensures
        match member_for(members@, name@) {
            Some(m) => r matches Some(i) && i < members.len() && members@[i as int] == m,
            None => r is None,
        },
{
    let mut r: Option<usize> = None;
    let ghost all = members@;
    assert(all.take(0) =~= seq![]);
    for i in 0..members.len()
        invariant
            all == members@,
            match member_for(all.take(i as int), name@) {
                Some(m) => r matches Some(j) && j < members.len() && members@[j as int] == m,
                None => r is None,
            },
    {
        assert(all.take(i + 1).drop_last() =~= all.take(i as int));
        if r.is_none() {
            let found = match &members[i].kind {
                ast::MemberKind::State { name: found, .. } => same(found.name.as_str(), name),
                ast::MemberKind::Signal { name: found, .. } => same(found.name.as_str(), name),
                _ => false,
            };
            if found {
                r = Some(i);
            }
        }
    }
    assert(all.take(members.len() as int) =~= all);
    r
}

fn places_of(slots: &Vec<NodeId>) -> (r: Vec<usize>)
    ensures
        r@ == slot_places(slots@),
{
    let mut r: Vec<usize> = Vec::new();
    for i in 0..slots.len()
        invariant
            r.len() == i,
            forall|j: int| 0 <= j < i ==> #[trigger] r@[j] == slots@[j].0 as usize,
    {
        r.push(slots[i].index());
    }
    assert(r@ =~= slot_places(slots@));
    r
}

impl Checker {
    fn begin_member(&mut self, function: FnId, home: &Place, handler: bool)
        ensures
            final(self)@ == begin_member(old(self)@, function, home@, handler),
    {
        proof {
            reveal(begin_member);
        }
        let name = self.fn_display(function);
        let params: Vec<String> = Vec::new();
        let bounds: Vec<Vec<crate::hir::TraitId>> = Vec::new();
        assert(texts(params@) =~= seq![]);
        assert(bounds_list(bounds@) =~= seq![]);
        self.start_fresh();
        self.set_ret(Ty::Unit);
        self.set_fn_name(name);
        self.set_ctx(Ctx::Turn);
        self.set_uses(copies::plain(&home.uses));
        self.set_type_params(params);
        self.set_bounds(bounds);
        self.set_reactor(Some(home.id));
        self.set_in_handler(handler);
        self.set_members(home.members.copy());
    }

    fn bind_node(&mut self, id: ReactorId, node: usize, mutable: bool)
        ensures
            final(self)@ == bind_node(old(self)@, id, node as int, mutable),
    {
        proof {
            reveal(bind_node);
        }
        if let Some((kind, ty, _)) = self.node(id, node) {
            let (name, span) = self.node_label(id, node);
            let (role, state) = match kind {
                NodeKind::Param { .. } => (LocalRole::Param, false),
                NodeKind::State { slot, .. } => (LocalRole::State(slot), true),
                NodeKind::Signal { .. } => (LocalRole::Signal, false),
            };
            let _ = self.declare_role(name.as_str(), ty, mutable && state, role, span);
        }
    }

    fn bind_nodes(&mut self, id: ReactorId, nodes: &Vec<usize>, mutable: bool)
        ensures
            final(self)@ == bind_nodes(old(self)@, id, nodes@, mutable),
    {
        let ghost start = self@;
        let ghost all = nodes@;
        assert(all.take(0) =~= seq![]);
        for i in 0..nodes.len()
            invariant
                all == nodes@,
                self@ == bind_nodes(start, id, all.take(i as int), mutable),
        {
            assert(all.take(i + 1).drop_last() =~= all.take(i as int));
            self.bind_node(id, nodes[i], mutable);
        }
        assert(all.take(nodes.len() as int) =~= all);
    }

    fn finish_member(&mut self, id: FnId, ret: Ty, body: Expr)
        ensures
            final(self)@ == old(self)@.with_lifted(id, ret@, body@),
    {
        proof {
            reveal(Checker::view);
            reveal(State::with_lifted);
        }
        let mut locals: Vec<LocalDef> = Vec::new();
        locals.append(&mut self.locals);
        assert(locals@ =~= old(self).locals@);
        assert(locals_of(self.locals@) =~= seq![]);
        let at: usize = id.index();
        if at < self.program.fns.len() {
            let params: usize = locals.len() - count_ordinary(&locals);
            let ghost view = body@;
            let ghost result = ret@;
            self.program.fns[at].params = params;
            self.program.fns[at].ret = ret;
            self.program.fns[at].locals = locals;
            self.program.fns[at].body = body;
            assert(fns_of(self.program.fns@) =~= fns_of(old(self).program.fns@).update(
                at as int,
                model::FnDef {
                    params,
                    ret: result,
                    locals: locals_of(old(self).locals@),
                    body: view,
                    ..fns_of(old(self).program.fns@)[at as int]
                },
            ));
        }
    }

    fn set_node_ty(&mut self, id: ReactorId, node: usize, ty: Ty)
        ensures
            final(self)@ == old(self)@.with_node_ty(id, node as int, ty@),
    {
        proof {
            reveal(Checker::view);
            reveal(State::with_node_ty);
        }
        let at: usize = id.index();
        if at < self.program.reactors.len() {
            if node < self.program.reactors[at].nodes.len() {
                let ghost view = ty@;
                let ghost def = reactors_of(old(self).program.reactors@)[at as int];
                self.program.reactors[at].nodes[node].ty = ty;
                assert(nodes_of(self.program.reactors@[at as int].nodes@) =~= def.nodes.update(
                    node as int,
                    model::Node { ty: view, ..def.nodes[node as int] },
                ));
                assert(reactors_of(self.program.reactors@) =~= reactors_of(
                    old(self).program.reactors@,
                ).update(
                    at as int,
                    model::ReactorDef {
                        nodes: def.nodes.update(
                            node as int,
                            model::Node { ty: view, ..def.nodes[node as int] },
                        ),
                        ..def
                    },
                ));
            }
        }
    }

    fn set_plan(&mut self, id: ReactorId, input: usize, plan: Vec<NodeId>)
        ensures
            final(self)@ == old(self)@.with_plan(id, input as int, plan@),
    {
        proof {
            reveal(Checker::view);
            reveal(State::with_plan);
        }
        let at: usize = id.index();
        if at < self.program.reactors.len() {
            if input < self.program.reactors[at].inputs.len() {
                let ghost view = plan@;
                let ghost def = reactors_of(old(self).program.reactors@)[at as int];
                self.program.reactors[at].inputs[input].plan = plan;
                assert(inputs_of(self.program.reactors@[at as int].inputs@) =~= def.inputs.update(
                    input as int,
                    model::InputDef { plan: view, ..def.inputs[input as int] },
                ));
                assert(reactors_of(self.program.reactors@) =~= reactors_of(
                    old(self).program.reactors@,
                ).update(
                    at as int,
                    model::ReactorDef {
                        inputs: def.inputs.update(
                            input as int,
                            model::InputDef { plan: view, ..def.inputs[input as int] },
                        ),
                        ..def
                    },
                ));
            }
        }
    }

    fn fn_ret(&self, id: FnId) -> (r: Ty)
        ensures
            r@ == self@.fn_ret(id),
    {
        proof {
            reveal(Checker::view);
            reveal(State::fn_ret);
        }
        if id.index() < self.program.fns.len() {
            self.program.fns[id.index()].ret.copy()
        } else {
            Ty::Error
        }
    }

    fn handler(&self, id: ReactorId, input: usize) -> (r: FnId)
        ensures
            r == self@.handler(id, input as int),
    {
        proof {
            reveal(Checker::view);
            reveal(State::handler);
            reveal(State::reactor_inputs);
        }
        if id.index() < self.program.reactors.len() {
            let inputs = &self.program.reactors[id.index()].inputs;
            if input < inputs.len() {
                return inputs[input].handler;
            }
        }
        FnId(u32::MAX)
    }

    fn message(&self, id: ReactorId, input: usize) -> (r: Ty)
        ensures
            r@ == self@.message(id, input as int),
    {
        proof {
            reveal(State::message);
        }
        match self.input(id, input) {
            Some((_, ty)) => ty,
            None => Ty::Error,
        }
    }

    fn annotated(&mut self, ty: Option<&ast::Type>) -> (r: Option<Ty>)
        ensures
            final(self)@ == annotated(
                old(self)@,
                match ty {
                    Some(t) => Some(*t),
                    None => None,
                },
            ).0,
            maybe(r) == annotated(
                old(self)@,
                match ty {
                    Some(t) => Some(*t),
                    None => None,
                },
            ).1,
    {
        proof {
            reveal(annotated);
        }
        match ty {
            Some(ty) => Some(self.resolve_ty(ty)),
            None => None,
        }
    }

    fn held_by(&mut self, ty: Ty, signal: Option<&str>, span: Span) -> (r: Ty)
        ensures
            final(self)@ == held_by(
                old(self)@,
                ty@,
                match signal {
                    Some(name) => Some(name@),
                    None => None,
                },
                span,
            ).0,
            r@ == held_by(
                old(self)@,
                ty@,
                match signal {
                    Some(name) => Some(name@),
                    None => None,
                },
                span,
            ).1,
    {
        proof {
            reveal(held_by);
        }
        match signal {
            Some(name) => self.reactor_ty(ty, "signal", name, span),
            None => ty,
        }
    }

    fn check_node_body(
        &mut self,
        home: &Place,
        node: usize,
        function: FnId,
        deps: &Vec<usize>,
        ty: Option<&ast::Type>,
        value: &ast::Expr,
        signal: Option<&str>,
    )
        ensures
            final(self)@ == check_node_body(
                old(self)@,
                home@,
                node as int,
                function,
                deps@,
                match ty {
                    Some(t) => Some(*t),
                    None => None,
                },
                *value,
                match signal {
                    Some(name) => Some(name@),
                    None => None,
                },
            ),
    {
        proof {
            reveal(check_node_body);
        }
        let (_, span) = self.node_label(home.id, node);
        self.begin_member(function, home, false);
        self.bind_nodes(home.id, deps, false);
        let expected = self.annotated(ty);
        let checked = self.expression(value, &expected);
        proof {
            checked.look();
        }
        let found = match expected {
            Some(ty) => ty,
            None => {
                if is_never(&checked.ty) {
                    Ty::Error
                } else {
                    checked.ty.copy()
                }
            },
        };
        let ty = self.held_by(found, signal, span);
        self.finish_member(function, ty.copy(), checked);
        self.set_node_ty(home.id, node, ty);
    }

    fn check_node(&mut self, home: &Place, decl: &ast::ReactorDecl, w: &Wiring, node: usize)
        ensures
            final(self)@ == check_node(old(self)@, home@, *decl, w@, node as int),
    {
        proof {
            reveal(check_node);
            reveal(Wiring::view);
        }
        let none: Vec<usize> = Vec::new();
        assert(none@ =~= seq![]);
        let deps = if node < w.deps.len() {
            &w.deps[node]
        } else {
            &none
        };
        let kind = match self.node(home.id, node) {
            Some((kind, _, _)) => kind,
            None => {
                return;
            },
        };
        let function = match kind {
            NodeKind::Param { .. } => {
                return;
            },
            NodeKind::State { init, .. } => init,
            NodeKind::Signal { body } => body,
        };
        let (name, _) = self.node_label(home.id, node);
        if let Some(i) = find_member(&decl.members, name.as_str()) {
            match &decl.members[i].kind {
                ast::MemberKind::State { ty, init, .. } => {
                    self.check_node_body(home, node, function, deps, Some(ty), init, None);
                },
                ast::MemberKind::Signal { name, ty, body, .. } => {
                    self.check_node_body(
                        home,
                        node,
                        function,
                        deps,
                        ty.as_ref(),
                        body,
                        Some(name.name.as_str()),
                    );
                },
                _ => {},
            }
        }
    }

    fn check_nodes(&mut self, home: &Place, decl: &ast::ReactorDecl, w: &Wiring)
        ensures
            final(self)@ == check_nodes(old(self)@, home@, *decl, w@, w@.order),
    {
        proof {
            reveal(Wiring::view);
        }
        let ghost start = self@;
        let ghost all = w.order@;
        assert(all.take(0) =~= seq![]);
        for i in 0..w.order.len()
            invariant
                all == w.order@,
                self@ == check_nodes(start, home@, *decl, w@, all.take(i as int)),
        {
            assert(all.take(i + 1).drop_last() =~= all.take(i as int));
            self.check_node(home, decl, w, w.order[i]);
        }
        assert(all.take(w.order.len() as int) =~= all);
    }

    fn bind_messages(&mut self, params: &Vec<ast::HandlerParam>, ty: &Ty)
        ensures
            final(self)@ == bind_messages(old(self)@, params@, ty@),
    {
        let ghost start = self@;
        let ghost all = params@;
        assert(all.take(0) =~= seq![]);
        for i in 0..params.len()
            invariant
                all == params@,
                self@ == bind_messages(start, all.take(i as int), ty@),
        {
            assert(all.take(i + 1).drop_last() =~= all.take(i as int));
            let _ = self.declare_role(
                params[i].name.name.as_str(),
                ty.copy(),
                false,
                LocalRole::Message,
                params[i].span,
            );
        }
        assert(all.take(params.len() as int) =~= all);
    }

    fn bind_message(
        &mut self,
        input: &str,
        params: &Vec<ast::HandlerParam>,
        ty: &Ty,
        span: Span,
    )
        ensures
            final(self)@ == bind_message(old(self)@, input@, params@, ty@, span),
    {
        proof {
            reveal(bind_message);
        }
        let wanted: usize = match ty {
            Ty::Unit => 0,
            _ => 1,
        };
        if params.len() == wanted {
            self.bind_messages(params, ty);
            return;
        }
        if wanted == 0 {
            self.push(say::carries_no_message(span, input));
        } else {
            let count = number(params.len());
            let name = self.ty_name(ty);
            self.push(say::binds_one_message(span, input, count.as_str(), name.as_str()));
        }
        self.bind_messages(params, &Ty::Error);
    }

    fn check_handler(
        &mut self,
        home: &Place,
        input: &str,
        params: &Vec<ast::HandlerParam>,
        block: &ast::Block,
        span: Span,
    )
        ensures
            final(self)@ == check_handler(old(self)@, home@, input@, params@, *block, span),
    {
        proof {
            reveal(check_handler);
        }
        if let Some(i) = self.input_place(home.id, input) {
            let function = self.handler(home.id, i);
            if !is_error(&self.fn_ret(function)) {
                return;
            }
            self.begin_member(function, home, true);
            let message = self.message(home.id, i);
            self.bind_message(input, params, &message, span);
            let slots = places_of(&self.reactor_slots(home.id));
            self.bind_nodes(home.id, &slots, true);
            let checked = self.body(block, &Some(Ty::Unit));
            self.finish_member(function, Ty::Unit, checked);
        }
    }

    fn check_handlers(&mut self, home: &Place, members: &Vec<ast::Member>)
        ensures
            final(self)@ == check_handlers(old(self)@, home@, members@),
    {
        let ghost start = self@;
        let ghost all = members@;
        assert(all.take(0) =~= seq![]);
        for i in 0..members.len()
            invariant
                all == members@,
                self@ == check_handlers(start, home@, all.take(i as int)),
        {
            assert(all.take(i + 1).drop_last() =~= all.take(i as int));
            if let ast::MemberKind::On { input, params, body, .. } = &members[i].kind {
                self.check_handler(home, input.name.as_str(), params, body, members[i].span);
            }
        }
        assert(all.take(members.len() as int) =~= all);
    }

    fn leave_reactor(&mut self)
        ensures
            final(self)@ == leave_reactor(old(self)@),
    {
        proof {
            reveal(leave_reactor);
        }
        self.set_ctx(Ctx::Plain);
        self.set_members(Table::new());
        self.set_reactor(None);
        self.set_in_handler(false);
    }

    fn plans(&mut self, id: ReactorId, w: &Wiring, inputs: usize)
        requires
            w.wf(),
        ensures
            final(self)@ == with_plans(old(self)@, id, w@, inputs as nat),
    {
        proof {
            reveal(Wiring::view);
        }
        let ghost start = self@;
        for i in 0..inputs
            invariant
                w.wf(),
                w@.deps == lists(w.deps@),
                w@.order == w.order@,
                w@.writes == lists(w.writes@),
                self@ == with_plans(start, id, w@, i as nat),
        {
            if i < w.writes.len() {
                assert(w@.writes[i as int] == w.writes@[i as int]@);
                let touched = plan(&w.deps, &w.order, &w.writes[i]);
                self.set_plan(id, i, ids_of(&touched));
            }
        }
    }

    fn input_count(&self, id: ReactorId) -> (r: usize)
        ensures
            r == self@.reactor_inputs(id).len(),
    {
        proof {
            reveal(Checker::view);
            reveal(State::reactor_inputs);
        }
        if id.index() < self.program.reactors.len() {
            self.program.reactors[id.index()].inputs.len()
        } else {
            0
        }
    }

    fn check_reactor(&mut self, id: ReactorId, decl: &ast::ReactorDecl, w: &Wiring)
        requires
            w.wf(),
        ensures
            final(self)@ == check_reactor(old(self)@, id, *decl, w@),
    {
        proof {
            reveal(check_reactor);
        }
        let home = Place { id, members: self.member_namespace(id), uses: self.reactor_uses(id) };
        self.check_nodes(&home, decl, w);
        self.check_handlers(&home, &decl.members);
        self.leave_reactor();
        let inputs: usize = self.input_count(id);
        self.plans(id, w, inputs);
    }

    pub fn check_reactors(&mut self, module: &ast::Module, ws: &Vec<Wiring>)
        requires
            forall|i: int| 0 <= i < ws.len() ==> (#[trigger] ws@[i]).wf(),
        ensures
            final(self)@ == check_reactors(old(self)@, *module, wirings(ws@)),
    {
        proof {
            reveal(check_reactors);
        }
        let (ids, places) = self.reactor_items(&module.items);
        let n: usize = if ids.len() <= ws.len() {
            ids.len()
        } else {
            ws.len()
        };
        let ghost start = self@;
        let ghost all = wirings(ws@);
        assert(ids@.take(0) =~= seq![]);
        for i in 0..n
            invariant
                ids.len() == places.len(),
                n <= ids.len(),
                n <= ws.len(),
                all == wirings(ws@),
                forall|i: int| 0 <= i < ws.len() ==> (#[trigger] ws@[i]).wf(),
                self@ == check_each(
                    start,
                    module.items@,
                    ids@.take(i as int),
                    places@.take(i as int),
                    all.take(i as int),
                ),
        {
            assert(ids@.take(i + 1).drop_last() =~= ids@.take(i as int));
            assert(places@.take(i + 1).drop_last() =~= places@.take(i as int));
            assert(all.take(i + 1).drop_last() =~= all.take(i as int));
            assert(all.take(i + 1).last() == ws@[i as int]@);
            assert(ws@[i as int].wf());
            assert(ws@[i as int]@.ok == ws@[i as int].ok) by {
                reveal(Wiring::view);
            }
            let at: usize = places[i];
            if at < module.items.len() && ws[i].ok {
                if let ast::Item::Reactor(decl) = &module.items[at] {
                    self.check_reactor(ids[i], decl, &ws[i]);
                }
            }
        }
    }
}

} // verus!
