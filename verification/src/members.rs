//! What a reactor declares: its parameters, inputs, state cells and signals.
//!
//! No expression is looked at here: the scan that decides in what order to look at them needs the
//! names first.

use vstd::prelude::*;
use vstd::string::*;
use crate::ast;
use crate::binding::is_builtin_variant;
use crate::checker::Checker;
use crate::copies::{self, place_of};
use crate::hir::{
    inputs_of, named_tys, nodes_of, reactors_of, Capability, FnId, InputDef, Node, NodeId, NodeKind,
    Overflow, ReactorId, Ty,
};
use crate::item::{declare_lifted, maybe_report};
use crate::model;
use crate::reports;
use crate::resolve::{capabilities, resolve_ty};
use crate::say;
use crate::span::{texts, Diagnostic, Report, Span};
use crate::state::{builtin_variant, input_names, State};
use crate::table::{find, Table};
use crate::text::{join, joined, same};

verus! {

/// What was declared so far.
#[verifier::ext_equal]
pub struct Members {
    pub params: Seq<(Seq<char>, model::Ty)>,
    pub nodes: Seq<model::Node>,
    pub slots: Seq<NodeId>,
    pub inputs: Seq<model::InputDef>,
    /// Where each name was first declared.
    pub taken: Map<Seq<char>, Span>,
    /// The places of `on` members that meant to declare an input and did not. Each has been
    /// reported already.
    pub undeclared: Seq<usize>,
}

impl Members {
    pub open spec fn nothing() -> Members {
        Members {
            params: seq![],
            nodes: seq![],
            slots: seq![],
            inputs: seq![],
            taken: Map::empty(),
            undeclared: seq![],
        }
    }

    #[verifier::opaque]
    pub open spec fn taking(self, name: ast::Ident) -> Members {
        Members { taken: self.taken.insert(name.name@, name.span), ..self }
    }

    /// A parameter is a node and a slot: state written once, when the reactor is created.
    #[verifier::opaque]
    pub open spec fn with_param(
        self,
        name: Seq<char>,
        ty: model::Ty,
        index: usize,
        span: Span,
    ) -> Members {
        Members {
            params: self.params.push((name, ty)),
            slots: self.slots.push(NodeId(self.nodes.len() as u32)),
            nodes: self.nodes.push(
                model::Node {
                    name,
                    kind: NodeKind::Param { slot: self.slots.len() as usize, index },
                    ty,
                    deps: seq![],
                    exported: false,
                    span,
                },
            ),
            ..self
        }
    }

    #[verifier::opaque]
    pub open spec fn with_cell(
        self,
        name: Seq<char>,
        ty: model::Ty,
        init: FnId,
        span: Span,
    ) -> Members {
        Members {
            slots: self.slots.push(NodeId(self.nodes.len() as u32)),
            nodes: self.nodes.push(
                model::Node {
                    name,
                    kind: NodeKind::State { slot: self.slots.len() as usize, init },
                    ty,
                    deps: seq![],
                    exported: false,
                    span,
                },
            ),
            ..self
        }
    }

    /// A signal. Its type is known once its body has been looked at.
    #[verifier::opaque]
    pub open spec fn with_signal(
        self,
        name: Seq<char>,
        body: FnId,
        exported: bool,
        span: Span,
    ) -> Members {
        Members {
            nodes: self.nodes.push(
                model::Node {
                    name,
                    kind: NodeKind::Signal { body },
                    ty: model::Ty::Error,
                    deps: seq![],
                    exported,
                    span,
                },
            ),
            ..self
        }
    }

    #[verifier::opaque]
    pub open spec fn with_input(self, input: model::InputDef) -> Members {
        Members { inputs: self.inputs.push(input), ..self }
    }

    #[verifier::opaque]
    pub open spec fn failing(self, position: usize) -> Members {
        Members { undeclared: self.undeclared.push(position), ..self }
    }

    /// Why a name cannot be a member's, if it cannot.
    #[verifier::opaque]
    pub open spec fn refused(self, reactor: Seq<char>, name: ast::Ident) -> Option<Report> {
        if builtin_variant(name.name@) {
            Some(reports::member_ctor_name(name.span, name.name@))
        } else {
            match find(self.taken, name.name@) {
                Some(first) => Some(
                    reports::member_twice(name.span, name.name@, reactor, first),
                ),
                None => None,
            }
        }
    }
}

/// A reactor being declared: its name as written, and the name its lifted functions hang off.
pub struct Names {
    pub written: Seq<char>,
    pub display: Seq<char>,
}

/// Nothing a reactor holds may own anything.
#[verifier::opaque]
pub open spec fn reactor_ty(
    s: State,
    ty: model::Ty,
    what: Seq<char>,
    name: Seq<char>,
    span: Span,
) -> (State, model::Ty) {
    if crate::types::affine(s.program, ty) {
        (s.push(reports::reactor_holds(span, what, s.ty_name(ty), name)), model::Ty::Error)
    } else {
        (s, ty)
    }
}

/// A written type that a reactor is to hold.
#[verifier::opaque]
pub open spec fn held_ty(
    s: State,
    ty: ast::Type,
    what: Seq<char>,
    name: Seq<char>,
    span: Span,
) -> (State, model::Ty) {
    reactor_ty(resolve_ty(s, ty).0, resolve_ty(s, ty).1, what, name, span)
}

/// A word written before a parameter's type, which a reactor parameter has no use for.
pub open spec fn mode_word(mode: ast::ParamMode) -> Option<(Seq<char>, Span)> {
    match mode {
        ast::ParamMode::Read => None,
        ast::ParamMode::Sink(at) => Some(("sink"@, at)),
        ast::ParamMode::Mut(at) => Some(("mut"@, at)),
    }
}

#[verifier::opaque]
pub open spec fn no_mode(s: State, mode: ast::ParamMode) -> State {
    match mode_word(mode) {
        Some(w) => s.push(reports::param_mode(w.1, w.0)),
        None => s,
    }
}

#[verifier::opaque]
pub open spec fn declare_param(
    s: State,
    m: Members,
    n: Names,
    index: usize,
    param: ast::Param,
) -> (State, Members) {
    match m.refused(n.written, param.name) {
        Some(report) => (s.push(report), m),
        None => {
            let r = held_ty(
                no_mode(s, param.mode),
                param.ty,
                "parameter"@,
                param.name.name@,
                param.span,
            );
            (r.0, m.taking(param.name).with_param(param.name.name@, r.1, index, param.span))
        },
    }
}

pub open spec fn declare_params(
    s: State,
    m: Members,
    n: Names,
    params: Seq<ast::Param>,
) -> (State, Members)
    decreases params.len(),
{
    if params.len() == 0 {
        (s, m)
    } else {
        let r = declare_params(s, m, n, params.drop_last());
        declare_param(r.0, r.1, n, (params.len() - 1) as usize, params.last())
    }
}

/// The bound of a mailbox: a positive literal, or a report and a bound of one.
#[verifier::opaque]
pub open spec fn capacity(s: State, e: ast::Expr) -> (State, usize) {
    match e.kind {
        ast::ExprKind::Int(value) => if value > 0 {
            (s, value as usize)
        } else {
            (s.push(reports::capacity_positive(e.span)), 1)
        },
        _ => (s.push(reports::capacity_literal(e.span)), 1),
    }
}

impl Overflow {
    /// The word a queue clause names a policy by.
    pub open spec fn text(self) -> Seq<char> {
        match self {
            Overflow::Reject => "reject"@,
            Overflow::DropOldest => "drop_oldest"@,
            Overflow::Wait => "wait"@,
        }
    }
}

pub open spec fn overflow_named(name: Seq<char>) -> Option<Overflow> {
    if name == Overflow::Reject.text() {
        Some(Overflow::Reject)
    } else if name == Overflow::DropOldest.text() {
        Some(Overflow::DropOldest)
    } else if name == Overflow::Wait.text() {
        Some(Overflow::Wait)
    } else {
        None
    }
}

/// What a full mailbox does: a policy of the vocabulary, or a report and the refusal of messages.
#[verifier::opaque]
pub open spec fn overflow(s: State, name: ast::Ident) -> (State, Overflow) {
    match overflow_named(name.name@) {
        Some(policy) => (s, policy),
        None => (
            s.push(
                reports::unknown_overflow(name.span, name.name@, "reject, drop_oldest, wait"@),
            ),
            Overflow::Reject,
        ),
    }
}

/// An input of a message type, with the queue that was written for it.
#[verifier::opaque]
pub open spec fn declare_mailbox(
    s: State,
    m: Members,
    n: Names,
    name: ast::Ident,
    ty: model::Ty,
    queue: ast::Queue,
    lifted: Span,
    span: Span,
) -> (State, Members) {
    let c = capacity(s, queue.capacity);
    let o = overflow(c.0, queue.overflow);
    let h = declare_lifted(o.0, n.display + ".on."@ + name.name@, lifted);
    (
        h.0,
        m.taking(name).with_input(
            model::InputDef {
                name: name.name@,
                ty,
                capacity: c.1,
                overflow: o.1,
                handler: h.1,
                plan: seq![],
                span,
            },
        ),
    )
}

#[verifier::opaque]
pub open spec fn declare_input(
    s: State,
    m: Members,
    n: Names,
    name: ast::Ident,
    ty: ast::Type,
    queue: ast::Queue,
    span: Span,
) -> (State, Members) {
    match m.refused(n.written, name) {
        Some(report) => (s.push(report), m),
        None => {
            let r = held_ty(s, ty, "input"@, name.name@, span);
            declare_mailbox(r.0, m, n, name, r.1, queue, span, span)
        },
    }
}

#[verifier::opaque]
pub open spec fn declare_state(
    s: State,
    m: Members,
    n: Names,
    name: ast::Ident,
    ty: ast::Type,
    span: Span,
) -> (State, Members) {
    match m.refused(n.written, name) {
        Some(report) => (s.push(report), m),
        None => {
            let r = held_ty(s, ty, "state cell"@, name.name@, span);
            let f = declare_lifted(r.0, n.display + "."@ + name.name@ + ".init"@, span);
            (f.0, m.taking(name).with_cell(name.name@, r.1, f.1, span))
        },
    }
}

#[verifier::opaque]
pub open spec fn declare_signal(
    s: State,
    m: Members,
    n: Names,
    name: ast::Ident,
    exported: bool,
    span: Span,
) -> (State, Members) {
    match m.refused(n.written, name) {
        Some(report) => (s.push(report), m),
        None => {
            let f = declare_lifted(s, n.display + "."@ + name.name@, span);
            (f.0, m.taking(name).with_signal(name.name@, f.1, exported, span))
        },
    }
}

/// The first parameter of a handler with a type.
pub open spec fn first_typed(params: Seq<ast::HandlerParam>) -> Option<ast::HandlerParam>
    decreases params.len(),
{
    if params.len() == 0 {
        None
    } else {
        match first_typed(params.drop_last()) {
            Some(found) => Some(found),
            None => if params.last().ty is Some {
                Some(params.last())
            } else {
                None
            },
        }
    }
}

/// The message type a handler that declares its own input gives it.
#[verifier::opaque]
pub open spec fn message_ty(
    s: State,
    input: ast::Ident,
    params: Seq<ast::HandlerParam>,
    queue: Span,
) -> (State, model::Ty) {
    if params.len() == 0 {
        (s, model::Ty::Unit)
    } else {
        match params[0].ty {
            Some(ty) => held_ty(s, ty, "input"@, input.name@, params[0].span),
            None => (
                s.push(
                    reports::on_needs_type(
                        params[0].span,
                        input.name@,
                        params[0].name.name@,
                        queue,
                    ),
                ),
                model::Ty::Error,
            ),
        }
    }
}

/// A queue clause makes an `on` a declaration. Without one it declares nothing and claims nothing.
#[verifier::opaque]
pub open spec fn declare_on(
    s: State,
    m: Members,
    n: Names,
    position: usize,
    input: ast::Ident,
    params: Seq<ast::HandlerParam>,
    queue: Option<ast::Queue>,
    span: Span,
) -> (State, Members) {
    match queue {
        None => match first_typed(params) {
            Some(param) => (
                s.push(reports::on_needs_queue(param.span, input.name@, param.name.name@)),
                m.failing(position),
            ),
            None => (s, m),
        },
        Some(queue) => match m.refused(n.written, input) {
            Some(report) => (s.push(report), m.failing(position)),
            None => {
                let r = message_ty(s, input, params, queue.span);
                declare_mailbox(r.0, m, n, input, r.1, queue, span, input.span.joined(queue.span))
            },
        },
    }
}

#[verifier::opaque]
pub open spec fn declare_member(
    s: State,
    m: Members,
    n: Names,
    position: usize,
    member: ast::Member,
) -> (State, Members) {
    match member.kind {
        ast::MemberKind::Input { name, ty, queue } => declare_input(
            s,
            m,
            n,
            name,
            ty,
            queue,
            member.span,
        ),
        ast::MemberKind::State { name, ty, .. } => declare_state(s, m, n, name, ty, member.span),
        ast::MemberKind::Signal { name, exported, .. } => declare_signal(
            s,
            m,
            n,
            name,
            exported,
            member.span,
        ),
        ast::MemberKind::On { input, params, queue, .. } => declare_on(
            s,
            m,
            n,
            position,
            input,
            params@,
            queue,
            member.span,
        ),
    }
}

pub open spec fn declare_members(
    s: State,
    m: Members,
    n: Names,
    members: Seq<ast::Member>,
) -> (State, Members)
    decreases members.len(),
{
    if members.len() == 0 {
        (s, m)
    } else {
        let r = declare_members(s, m, n, members.drop_last());
        declare_member(r.0, r.1, n, (members.len() - 1) as usize, members.last())
    }
}

/// A handler is matched to its input by name. One that meant to declare an input and did not says
/// nothing more.
#[verifier::opaque]
pub open spec fn pair_handler(
    s: State,
    handled: Seq<usize>,
    m: Members,
    n: Names,
    position: usize,
    input: ast::Ident,
) -> (State, Seq<usize>) {
    let reported = m.undeclared.contains(position);
    match place_of(input_names(m.inputs), input.name@) {
        None => if reported {
            (s, handled)
        } else {
            let base = reports::no_such_input(input.span, n.written, input.name@);
            let known = input_names(m.inputs);
            (
                s.push(
                    if known.len() == 0 {
                        base
                    } else {
                        base.note("its inputs are: "@ + joined(known, ", "@))
                    },
                ),
                handled,
            )
        },
        Some(i) => if !handled.contains(i as usize) {
            (s, handled.push(i as usize))
        } else if reported {
            (s, handled)
        } else {
            (s.push(reports::second_handler(input.span, input.name@, m.inputs[i].span)), handled)
        },
    }
}

pub open spec fn pair_handlers(
    s: State,
    m: Members,
    n: Names,
    members: Seq<ast::Member>,
) -> (State, Seq<usize>)
    decreases members.len(),
{
    if members.len() == 0 {
        (s, seq![])
    } else {
        let r = pair_handlers(s, m, n, members.drop_last());
        match members.last().kind {
            ast::MemberKind::On { input, .. } => pair_handler(
                r.0,
                r.1,
                m,
                n,
                (members.len() - 1) as usize,
                input,
            ),
            _ => r,
        }
    }
}

/// An input that nothing handles is reported.
pub open spec fn require_handlers(
    s: State,
    inputs: Seq<model::InputDef>,
    handled: Seq<usize>,
) -> State
    decreases inputs.len(),
{
    if inputs.len() == 0 {
        s
    } else {
        let r = require_handlers(s, inputs.drop_last(), handled);
        if handled.contains((inputs.len() - 1) as usize) {
            r
        } else {
            r.push(reports::no_handler(inputs.last().span, inputs.last().name))
        }
    }
}

/// The nodes others may read.
pub open spec fn exported_nodes(nodes: Seq<model::Node>) -> Seq<NodeId>
    decreases nodes.len(),
{
    if nodes.len() == 0 {
        seq![]
    } else {
        let front = exported_nodes(nodes.drop_last());
        if nodes.last().exported {
            front.push(NodeId((nodes.len() - 1) as u32))
        } else {
            front
        }
    }
}

impl State {
    /// A reactor, replaced.
    #[verifier::opaque]
    pub open spec fn remaking(self, id: ReactorId, def: model::ReactorDef) -> State {
        if id.0 < self.program.reactors.len() {
            State {
                program: model::Program {
                    reactors: self.program.reactors.update(id.0 as int, def),
                    ..self.program
                },
                ..self
            }
        } else {
            self
        }
    }

    /// A reactor's members, as they were declared.
    #[verifier::opaque]
    pub open spec fn with_declared(
        self,
        id: ReactorId,
        uses: Seq<Capability>,
        m: Members,
    ) -> State {
        self.remaking(
            id,
            model::ReactorDef {
                params: m.params,
                uses,
                inputs: m.inputs,
                slots: m.slots,
                exports: exported_nodes(m.nodes),
                nodes: m.nodes,
                ..self.program.reactors[id.0 as int]
            },
        )
    }
}

#[verifier::opaque]
pub open spec fn declare_whole(s: State, id: ReactorId, decl: ast::ReactorDecl) -> State {
    let n = Names { written: decl.name.name@, display: s.reactor_name(id) };
    let c = capabilities(s, decl.uses@);
    let p = declare_params(c.0, Members::nothing(), n, decl.params@);
    let d = declare_members(p.0, p.1, n, decl.members@);
    let h = pair_handlers(d.0, d.1, n, decl.members@);
    require_handlers(h.0, d.1.inputs, h.1).with_declared(id, c.1, d.1)
}

/// The reactor an item of the file being looked at declares, unless an earlier item declared it.
pub open spec fn reactor_item(
    s: State,
    seen: Seq<ReactorId>,
    item: ast::Item,
) -> Option<ReactorId> {
    match item {
        ast::Item::Reactor(decl) => match s.reactor_named(decl.name.name@) {
            Some(id) => if seen.contains(id) {
                None
            } else {
                Some(id)
            },
            None => None,
        },
        _ => None,
    }
}

/// The reactors of the file being looked at: each with the place of the item that declares it.
pub open spec fn reactor_items(s: State, items: Seq<ast::Item>) -> (
    Seq<ReactorId>,
    Seq<usize>,
)
    decreases items.len(),
{
    if items.len() == 0 {
        (seq![], seq![])
    } else {
        let r = reactor_items(s, items.drop_last());
        match reactor_item(s, r.0, items.last()) {
            Some(id) => (r.0.push(id), r.1.push((items.len() - 1) as usize)),
            None => r,
        }
    }
}

/// The declaration at a place among the items.
pub open spec fn reactor_at(items: Seq<ast::Item>, place: usize) -> Option<ast::ReactorDecl> {
    if place < items.len() {
        match items[place as int] {
            ast::Item::Reactor(decl) => Some(decl),
            _ => None,
        }
    } else {
        None
    }
}

pub open spec fn declare_each(
    s: State,
    items: Seq<ast::Item>,
    ids: Seq<ReactorId>,
    places: Seq<usize>,
) -> State
    decreases ids.len(),
{
    if ids.len() == 0 || places.len() == 0 {
        s
    } else {
        let before = declare_each(s, items, ids.drop_last(), places.drop_last());
        match reactor_at(items, places.last()) {
            Some(decl) => declare_whole(before, ids.last(), decl),
            None => before,
        }
    }
}

/// Every reactor of a file: parameters, capabilities, inputs and state types, and the names.
#[verifier::opaque]
pub open spec fn declare_reactors(s: State, module: ast::Module) -> State {
    let r = reactor_items(s, module.items@);
    declare_each(s, module.items@, r.0, r.1)
}

// ---------------------------------------------------------------- one name, one member

/// Every member has a name of its own, and every name is taken.
pub open spec fn named_once(m: Members) -> bool {
    &&& forall|i: int, j: int|
        0 <= i < j < m.nodes.len() ==> (#[trigger] m.nodes[i]).name != (#[trigger] m.nodes[j]).name
    &&& forall|i: int, j: int|
        0 <= i < j < m.inputs.len() ==> (#[trigger] m.inputs[i]).name != (
        #[trigger] m.inputs[j]).name
    &&& forall|i: int, j: int|
        0 <= i < m.nodes.len() && 0 <= j < m.inputs.len() ==> (#[trigger] m.nodes[i]).name != (
        #[trigger] m.inputs[j]).name
    &&& forall|i: int| 0 <= i < m.nodes.len() ==> m.taken.dom().contains((#[trigger] m.nodes[i]).name)
    &&& forall|i: int|
        0 <= i < m.inputs.len() ==> m.taken.dom().contains((#[trigger] m.inputs[i]).name)
}

proof fn admitted_names_are_new(m: Members, reactor: Seq<char>, name: ast::Ident)
    requires
        m.refused(reactor, name) is None,
    ensures
        !m.taken.dom().contains(name.name@),
{
    reveal(Members::refused);
}

proof fn param_keeps_names_apart(s: State, m: Members, n: Names, index: usize, param: ast::Param)
    requires
        named_once(m),
    ensures
        named_once(declare_param(s, m, n, index, param).1),
{
    reveal(declare_param);
    if m.refused(n.written, param.name) is None {
        admitted_names_are_new(m, n.written, param.name);
        reveal(Members::taking);
        reveal(Members::with_param);
    }
}

proof fn member_keeps_names_apart(
    s: State,
    m: Members,
    n: Names,
    position: usize,
    member: ast::Member,
)
    requires
        named_once(m),
    ensures
        named_once(declare_member(s, m, n, position, member).1),
{
    reveal(declare_member);
    reveal(declare_input);
    reveal(declare_state);
    reveal(declare_signal);
    reveal(declare_on);
    reveal(declare_mailbox);
    reveal(Members::taking);
    reveal(Members::with_cell);
    reveal(Members::with_signal);
    reveal(Members::with_input);
    reveal(Members::failing);
    let name = match member.kind {
        ast::MemberKind::Input { name, .. } => name,
        ast::MemberKind::State { name, .. } => name,
        ast::MemberKind::Signal { name, .. } => name,
        ast::MemberKind::On { input, .. } => input,
    };
    if m.refused(n.written, name) is None {
        admitted_names_are_new(m, n.written, name);
    }
}

proof fn params_keep_names_apart(s: State, m: Members, n: Names, params: Seq<ast::Param>)
    requires
        named_once(m),
    ensures
        named_once(declare_params(s, m, n, params).1),
    decreases params.len(),
{
    if params.len() > 0 {
        params_keep_names_apart(s, m, n, params.drop_last());
        let r = declare_params(s, m, n, params.drop_last());
        param_keeps_names_apart(r.0, r.1, n, (params.len() - 1) as usize, params.last());
    }
}

proof fn members_keep_names_apart(s: State, m: Members, n: Names, members: Seq<ast::Member>)
    requires
        named_once(m),
    ensures
        named_once(declare_members(s, m, n, members).1),
    decreases members.len(),
{
    if members.len() > 0 {
        members_keep_names_apart(s, m, n, members.drop_last());
        let r = declare_members(s, m, n, members.drop_last());
        member_keeps_names_apart(r.0, r.1, n, (members.len() - 1) as usize, members.last());
    }
}

/// No two members of a reactor share a name, whatever was written: parameters, state cells, signals
/// and inputs alike.
pub proof fn members_are_named_once(
    s: State,
    n: Names,
    params: Seq<ast::Param>,
    members: Seq<ast::Member>,
)
    ensures
        ({
            let p = declare_params(s, Members::nothing(), n, params);
            named_once(declare_members(p.0, p.1, n, members).1)
        }),
{
    let p = declare_params(s, Members::nothing(), n, params);
    params_keep_names_apart(s, Members::nothing(), n, params);
    members_keep_names_apart(p.0, p.1, n, members);
}

// ---------------------------------------------------------------- carrying it out

/// The executable side of [`Members`].
pub struct Made {
    pub params: Vec<(String, Ty)>,
    pub nodes: Vec<Node>,
    pub slots: Vec<NodeId>,
    pub inputs: Vec<InputDef>,
    pub taken: Table<Span>,
    pub undeclared: Vec<usize>,
}

impl Made {
    #[verifier::opaque]
    pub open spec fn view(&self) -> Members {
        Members {
            params: named_tys(self.params@),
            nodes: nodes_of(self.nodes@),
            slots: self.slots@,
            inputs: inputs_of(self.inputs@),
            taken: self.taken@,
            undeclared: self.undeclared@,
        }
    }

    fn new() -> (r: Made)
        ensures
            r@ == Members::nothing(),
    {
        proof {
            reveal(Made::view);
        }
        let r = Made {
            params: Vec::new(),
            nodes: Vec::new(),
            slots: Vec::new(),
            inputs: Vec::new(),
            taken: Table::new(),
            undeclared: Vec::new(),
        };
        assert(r@ =~= Members::nothing());
        r
    }

    fn take(&mut self, name: &ast::Ident)
        ensures
            final(self)@ == old(self)@.taking(*name),
    {
        proof {
            reveal(Made::view);
            reveal(Members::taking);
        }
        self.taken.insert(name.name.as_str(), name.span);
    }

    fn add_slot(&mut self)
        ensures
            final(self)@ == (Members {
                slots: old(self)@.slots.push(NodeId(old(self)@.nodes.len() as u32)),
                ..old(self)@
            }),
    {
        proof {
            reveal(Made::view);
        }
        let n: usize = self.nodes.len();
        self.slots.push(NodeId(#[verifier::truncate] (n as u32)));
    }

    fn add_node(&mut self, name: &str, kind: NodeKind, ty: Ty, exported: bool, span: Span)
        ensures
            final(self)@ == (Members {
                nodes: old(self)@.nodes.push(
                    model::Node { name: name@, kind, ty: ty@, deps: seq![], exported, span },
                ),
                ..old(self)@
            }),
    {
        proof {
            reveal(Made::view);
        }
        let ghost made = model::Node { name: name@, kind, ty: ty@, deps: seq![], exported, span };
        let node = Node { name: name.to_owned(), kind, ty, deps: Vec::new(), exported, span };
        assert(node@ =~= made);
        self.nodes.push(node);
        assert(nodes_of(self.nodes@) =~= nodes_of(old(self).nodes@).push(made));
    }

    fn add_param(&mut self, name: &str, ty: Ty, index: usize, span: Span)
        ensures
            final(self)@ == old(self)@.with_param(name@, ty@, index, span),
    {
        proof {
            reveal(Made::view);
            reveal(Members::with_param);
        }
        let slot: usize = self.slots.len();
        self.add_slot();
        self.add_node(name, NodeKind::Param { slot, index }, ty.copy(), false, span);
        let ghost before = named_tys(self.params@);
        self.params.push((name.to_owned(), ty));
        assert(named_tys(self.params@) =~= before.push((name@, ty@)));
        assert(self@ =~= old(self)@.with_param(name@, ty@, index, span));
    }

    fn add_cell(&mut self, name: &str, ty: Ty, init: FnId, span: Span)
        ensures
            final(self)@ == old(self)@.with_cell(name@, ty@, init, span),
    {
        proof {
            reveal(Made::view);
            reveal(Members::with_cell);
        }
        let slot: usize = self.slots.len();
        self.add_slot();
        self.add_node(name, NodeKind::State { slot, init }, ty, false, span);
        assert(self@ =~= old(self)@.with_cell(name@, ty@, init, span));
    }

    fn add_signal(&mut self, name: &str, body: FnId, exported: bool, span: Span)
        ensures
            final(self)@ == old(self)@.with_signal(name@, body, exported, span),
    {
        proof {
            reveal(Members::with_signal);
        }
        self.add_node(name, NodeKind::Signal { body }, Ty::Error, exported, span);
    }

    fn add_input(&mut self, input: InputDef)
        ensures
            final(self)@ == old(self)@.with_input(input@),
    {
        proof {
            reveal(Made::view);
            reveal(Members::with_input);
        }
        self.inputs.push(input);
        assert(inputs_of(self.inputs@) =~= inputs_of(old(self).inputs@).push(input@));
    }

    fn fail(&mut self, position: usize)
        ensures
            final(self)@ == old(self)@.failing(position),
    {
        proof {
            reveal(Made::view);
            reveal(Members::failing);
        }
        self.undeclared.push(position);
    }

    fn refused(&self, reactor: &str, name: &ast::Ident) -> (r: Option<Diagnostic>)
        ensures
            maybe_report(r) == self@.refused(reactor@, *name),
    {
        proof {
            reveal(Made::view);
            reveal(Members::refused);
        }
        if is_builtin_variant(name.name.as_str()) {
            return Some(say::member_ctor_name(name.span, name.name.as_str()));
        }
        match self.taken.get(name.name.as_str()) {
            Some(first) => Some(
                say::member_twice(name.span, name.name.as_str(), reactor, first),
            ),
            None => None,
        }
    }

    fn input_names(&self) -> (r: Vec<String>)
        ensures
            texts(r@) == input_names(self@.inputs),
    {
        proof {
            reveal(Made::view);
        }
        let mut names: Vec<String> = Vec::new();
        for i in 0..self.inputs.len()
            invariant
                names.len() == i,
                forall|j: int| 0 <= j < i ==> #[trigger] names@[j]@ == self.inputs@[j].name@,
        {
            names.push(self.inputs[i].name.clone());
        }
        assert(texts(names@) =~= input_names(self@.inputs));
        names
    }
}

/// The executable side of [`Names`].
struct Called {
    written: String,
    display: String,
}

impl Called {
    spec fn view(&self) -> Names {
        Names { written: self.written@, display: self.display@ }
    }
}

pub fn holds_number(list: &Vec<usize>, n: usize) -> (r: bool)
    ensures
        r == list@.contains(n),
{
    for i in 0..list.len()
        invariant
            forall|j: int| 0 <= j < i ==> list@[j] != n,
    {
        if list[i] == n {
            return true;
        }
    }
    false
}

fn holds_reactor(list: &Vec<ReactorId>, id: ReactorId) -> (r: bool)
    ensures
        r == list@.contains(id),
{
    for i in 0..list.len()
        invariant
            forall|j: int| 0 <= j < i ==> list@[j] != id,
    {
        if list[i] == id {
            return true;
        }
    }
    false
}

fn find_overflow(name: &str) -> (r: Option<Overflow>)
    ensures
        r == overflow_named(name@),
{
    if same(name, "reject") {
        Some(Overflow::Reject)
    } else if same(name, "drop_oldest") {
        Some(Overflow::DropOldest)
    } else if same(name, "wait") {
        Some(Overflow::Wait)
    } else {
        None
    }
}

fn find_typed(params: &Vec<ast::HandlerParam>) -> (r: Option<usize>)
    ensures
        match first_typed(params@) {
            Some(p) => r matches Some(i) && i < params.len() && params@[i as int] == p,
            None => r is None,
        },
{
    let mut r: Option<usize> = None;
    let ghost all = params@;
    assert(all.take(0) =~= seq![]);
    for i in 0..params.len()
        invariant
            all == params@,
            match first_typed(all.take(i as int)) {
                Some(p) => r matches Some(j) && j < params.len() && params@[j as int] == p,
                None => r is None,
            },
    {
        assert(all.take(i + 1).drop_last() =~= all.take(i as int));
        if r.is_none() && params[i].ty.is_some() {
            r = Some(i);
        }
    }
    assert(all.take(params.len() as int) =~= all);
    r
}

fn find_exported(nodes: &Vec<Node>) -> (r: Vec<NodeId>)
    ensures
        r@ == exported_nodes(nodes_of(nodes@)),
{
    let mut r: Vec<NodeId> = Vec::new();
    let ghost all = nodes_of(nodes@);
    assert(all.take(0) =~= seq![]);
    for i in 0..nodes.len()
        invariant
            all == nodes_of(nodes@),
            r@ == exported_nodes(all.take(i as int)),
    {
        assert(all.take(i + 1).drop_last() =~= all.take(i as int));
        if nodes[i].exported {
            r.push(NodeId(#[verifier::truncate] (i as u32)));
        }
    }
    assert(all.take(nodes.len() as int) =~= all);
    r
}

impl Checker {
    pub fn reactor_ty(&mut self, ty: Ty, what: &str, name: &str, span: Span) -> (r: Ty)
        ensures
            final(self)@ == reactor_ty(old(self)@, ty@, what@, name@, span).0,
            r@ == reactor_ty(old(self)@, ty@, what@, name@, span).1,
    {
        proof {
            reveal(reactor_ty);
        }
        if !self.affine(&ty) {
            return ty;
        }
        let spelled = self.ty_name(&ty);
        self.push(say::reactor_holds(span, what, spelled.as_str(), name));
        Ty::Error
    }

    fn held_ty(&mut self, ty: &ast::Type, what: &str, name: &str, span: Span) -> (r: Ty)
        ensures
            final(self)@ == held_ty(old(self)@, *ty, what@, name@, span).0,
            r@ == held_ty(old(self)@, *ty, what@, name@, span).1,
    {
        proof {
            reveal(held_ty);
        }
        let ty = self.resolve_ty(ty);
        self.reactor_ty(ty, what, name, span)
    }

    fn no_mode(&mut self, mode: ast::ParamMode)
        ensures
            final(self)@ == no_mode(old(self)@, mode),
    {
        proof {
            reveal(no_mode);
        }
        match mode {
            ast::ParamMode::Read => {},
            ast::ParamMode::Sink(at) => self.push(say::param_mode(at, "sink")),
            ast::ParamMode::Mut(at) => self.push(say::param_mode(at, "mut")),
        }
    }

    fn declare_reactor_param(
        &mut self,
        m: &mut Made,
        n: &Called,
        index: usize,
        param: &ast::Param,
    )
        ensures
            final(self)@ == declare_param(old(self)@, old(m)@, n@, index, *param).0,
            final(m)@ == declare_param(old(self)@, old(m)@, n@, index, *param).1,
    {
        proof {
            reveal(declare_param);
        }
        if let Some(d) = m.refused(n.written.as_str(), &param.name) {
            self.push(d);
            return;
        }
        m.take(&param.name);
        self.no_mode(param.mode);
        let ty = self.held_ty(&param.ty, "parameter", param.name.name.as_str(), param.span);
        m.add_param(param.name.name.as_str(), ty, index, param.span);
    }

    fn declare_reactor_params(&mut self, m: &mut Made, n: &Called, params: &Vec<ast::Param>)
        ensures
            final(self)@ == declare_params(old(self)@, old(m)@, n@, params@).0,
            final(m)@ == declare_params(old(self)@, old(m)@, n@, params@).1,
    {
        let ghost start = self@;
        let ghost made = m@;
        let ghost all = params@;
        assert(all.take(0) =~= seq![]);
        for i in 0..params.len()
            invariant
                all == params@,
                self@ == declare_params(start, made, n@, all.take(i as int)).0,
                m@ == declare_params(start, made, n@, all.take(i as int)).1,
        {
            assert(all.take(i + 1).drop_last() =~= all.take(i as int));
            self.declare_reactor_param(m, n, i, &params[i]);
        }
        assert(all.take(params.len() as int) =~= all);
    }

    fn capacity(&mut self, e: &ast::Expr) -> (r: usize)
        ensures
            final(self)@ == capacity(old(self)@, *e).0,
            r == capacity(old(self)@, *e).1,
    {
        proof {
            reveal(capacity);
        }
        match &e.kind {
            ast::ExprKind::Int(value) => {
                if *value > 0 {
                    #[verifier::truncate]
                    (*value as usize)
                } else {
                    self.push(say::capacity_positive(e.span));
                    1
                }
            },
            _ => {
                self.push(say::capacity_literal(e.span));
                1
            },
        }
    }

    fn overflow(&mut self, name: &ast::Ident) -> (r: Overflow)
        ensures
            final(self)@ == overflow(old(self)@, *name).0,
            r == overflow(old(self)@, *name).1,
    {
        proof {
            reveal(overflow);
        }
        match find_overflow(name.name.as_str()) {
            Some(policy) => policy,
            None => {
                self.push(
                    say::unknown_overflow(
                        name.span,
                        name.name.as_str(),
                        "reject, drop_oldest, wait",
                    ),
                );
                Overflow::Reject
            },
        }
    }

    fn declare_mailbox(
        &mut self,
        m: &mut Made,
        n: &Called,
        name: &ast::Ident,
        ty: Ty,
        queue: &ast::Queue,
        lifted: Span,
        span: Span,
    )
        ensures
            final(self)@ == declare_mailbox(
                old(self)@,
                old(m)@,
                n@,
                *name,
                ty@,
                *queue,
                lifted,
                span,
            ).0,
            final(m)@ == declare_mailbox(
                old(self)@,
                old(m)@,
                n@,
                *name,
                ty@,
                *queue,
                lifted,
                span,
            ).1,
    {
        proof {
            reveal(declare_mailbox);
        }
        m.take(name);
        let capacity: usize = self.capacity(&queue.capacity);
        let overflow = self.overflow(&queue.overflow);
        let handler = self.declare_lifted(
            n.display.clone().concat(".on.").concat(name.name.as_str()),
            lifted,
        );
        let input = InputDef {
            name: name.name.clone(),
            ty,
            capacity,
            overflow,
            handler,
            plan: Vec::new(),
            span,
        };
        assert(input.plan@ =~= seq![]);
        m.add_input(input);
    }

    fn declare_input(
        &mut self,
        m: &mut Made,
        n: &Called,
        name: &ast::Ident,
        ty: &ast::Type,
        queue: &ast::Queue,
        span: Span,
    )
        ensures
            final(self)@ == declare_input(old(self)@, old(m)@, n@, *name, *ty, *queue, span).0,
            final(m)@ == declare_input(old(self)@, old(m)@, n@, *name, *ty, *queue, span).1,
    {
        proof {
            reveal(declare_input);
        }
        if let Some(d) = m.refused(n.written.as_str(), name) {
            self.push(d);
            return;
        }
        let ty = self.held_ty(ty, "input", name.name.as_str(), span);
        self.declare_mailbox(m, n, name, ty, queue, span, span);
    }

    fn declare_state(
        &mut self,
        m: &mut Made,
        n: &Called,
        name: &ast::Ident,
        ty: &ast::Type,
        span: Span,
    )
        ensures
            final(self)@ == declare_state(old(self)@, old(m)@, n@, *name, *ty, span).0,
            final(m)@ == declare_state(old(self)@, old(m)@, n@, *name, *ty, span).1,
    {
        proof {
            reveal(declare_state);
        }
        if let Some(d) = m.refused(n.written.as_str(), name) {
            self.push(d);
            return;
        }
        m.take(name);
        let ty = self.held_ty(ty, "state cell", name.name.as_str(), span);
        let init = self.declare_lifted(
            n.display.clone().concat(".").concat(name.name.as_str()).concat(".init"),
            span,
        );
        m.add_cell(name.name.as_str(), ty, init, span);
    }

    fn declare_signal(
        &mut self,
        m: &mut Made,
        n: &Called,
        name: &ast::Ident,
        exported: bool,
        span: Span,
    )
        ensures
            final(self)@ == declare_signal(old(self)@, old(m)@, n@, *name, exported, span).0,
            final(m)@ == declare_signal(old(self)@, old(m)@, n@, *name, exported, span).1,
    {
        proof {
            reveal(declare_signal);
        }
        if let Some(d) = m.refused(n.written.as_str(), name) {
            self.push(d);
            return;
        }
        m.take(name);
        let body = self.declare_lifted(
            n.display.clone().concat(".").concat(name.name.as_str()),
            span,
        );
        m.add_signal(name.name.as_str(), body, exported, span);
    }

    fn message_ty(
        &mut self,
        input: &ast::Ident,
        params: &Vec<ast::HandlerParam>,
        queue: Span,
    ) -> (r: Ty)
        ensures
            final(self)@ == message_ty(old(self)@, *input, params@, queue).0,
            r@ == message_ty(old(self)@, *input, params@, queue).1,
    {
        proof {
            reveal(message_ty);
        }
        if params.len() == 0 {
            return Ty::Unit;
        }
        let param = &params[0];
        match &param.ty {
            Some(ty) => self.held_ty(ty, "input", input.name.as_str(), param.span),
            None => {
                self.push(
                    say::on_needs_type(
                        param.span,
                        input.name.as_str(),
                        param.name.name.as_str(),
                        queue,
                    ),
                );
                Ty::Error
            },
        }
    }

    fn declare_on(
        &mut self,
        m: &mut Made,
        n: &Called,
        position: usize,
        input: &ast::Ident,
        params: &Vec<ast::HandlerParam>,
        queue: &Option<ast::Queue>,
        span: Span,
    )
        ensures
            final(self)@ == declare_on(
                old(self)@,
                old(m)@,
                n@,
                position,
                *input,
                params@,
                *queue,
                span,
            ).0,
            final(m)@ == declare_on(
                old(self)@,
                old(m)@,
                n@,
                position,
                *input,
                params@,
                *queue,
                span,
            ).1,
    {
        proof {
            reveal(declare_on);
        }
        match queue {
            None => {
                if let Some(i) = find_typed(params) {
                    self.push(
                        say::on_needs_queue(
                            params[i].span,
                            input.name.as_str(),
                            params[i].name.name.as_str(),
                        ),
                    );
                    m.fail(position);
                }
            },
            Some(queue) => {
                if let Some(d) = m.refused(n.written.as_str(), input) {
                    self.push(d);
                    m.fail(position);
                    return;
                }
                let ty = self.message_ty(input, params, queue.span);
                self.declare_mailbox(m, n, input, ty, queue, span, input.span.to(queue.span));
            },
        }
    }

    fn declare_member(&mut self, m: &mut Made, n: &Called, position: usize, member: &ast::Member)
        ensures
            final(self)@ == declare_member(old(self)@, old(m)@, n@, position, *member).0,
            final(m)@ == declare_member(old(self)@, old(m)@, n@, position, *member).1,
    {
        proof {
            reveal(declare_member);
        }
        match &member.kind {
            ast::MemberKind::Input { name, ty, queue } => {
                self.declare_input(m, n, name, ty, queue, member.span);
            },
            ast::MemberKind::State { name, ty, .. } => {
                self.declare_state(m, n, name, ty, member.span);
            },
            ast::MemberKind::Signal { name, exported, .. } => {
                self.declare_signal(m, n, name, *exported, member.span);
            },
            ast::MemberKind::On { input, params, queue, .. } => {
                self.declare_on(m, n, position, input, params, queue, member.span);
            },
        }
    }

    fn declare_members(&mut self, m: &mut Made, n: &Called, members: &Vec<ast::Member>)
        ensures
            final(self)@ == declare_members(old(self)@, old(m)@, n@, members@).0,
            final(m)@ == declare_members(old(self)@, old(m)@, n@, members@).1,
    {
        let ghost start = self@;
        let ghost made = m@;
        let ghost all = members@;
        assert(all.take(0) =~= seq![]);
        for i in 0..members.len()
            invariant
                all == members@,
                self@ == declare_members(start, made, n@, all.take(i as int)).0,
                m@ == declare_members(start, made, n@, all.take(i as int)).1,
        {
            assert(all.take(i + 1).drop_last() =~= all.take(i as int));
            self.declare_member(m, n, i, &members[i]);
        }
        assert(all.take(members.len() as int) =~= all);
    }

    fn pair_handler(
        &mut self,
        handled: &mut Vec<usize>,
        m: &Made,
        n: &Called,
        position: usize,
        input: &ast::Ident,
    )
        ensures
            final(self)@ == pair_handler(old(self)@, old(handled)@, m@, n@, position, *input).0,
            final(handled)@ == pair_handler(
                old(self)@,
                old(handled)@,
                m@,
                n@,
                position,
                *input,
            ).1,
    {
        proof {
            reveal(pair_handler);
            reveal(Made::view);
        }
        let reported = holds_number(&m.undeclared, position);
        let known = m.input_names();
        match copies::place(&known, input.name.as_str()) {
            None => {
                if !reported {
                    let d = say::no_such_input(
                        input.span,
                        n.written.as_str(),
                        input.name.as_str(),
                    );
                    let d = if known.len() == 0 {
                        d
                    } else {
                        let list = join(&known, ", ");
                        d.note("its inputs are: ".to_owned().concat(list.as_str()).as_str())
                    };
                    self.push(d);
                }
            },
            Some(i) => {
                if !holds_number(handled, i) {
                    handled.push(i);
                } else if !reported {
                    assert(input_names(m@.inputs).len() == m.inputs@.len());
                    self.push(
                        say::second_handler(input.span, input.name.as_str(), m.inputs[i].span),
                    );
                }
            },
        }
    }

    fn pair_handlers(&mut self, m: &Made, n: &Called, members: &Vec<ast::Member>) -> (r: Vec<
        usize,
    >)
        ensures
            final(self)@ == pair_handlers(old(self)@, m@, n@, members@).0,
            r@ == pair_handlers(old(self)@, m@, n@, members@).1,
    {
        let mut r: Vec<usize> = Vec::new();
        let ghost start = self@;
        let ghost all = members@;
        assert(all.take(0) =~= seq![]);
        for i in 0..members.len()
            invariant
                all == members@,
                self@ == pair_handlers(start, m@, n@, all.take(i as int)).0,
                r@ == pair_handlers(start, m@, n@, all.take(i as int)).1,
        {
            assert(all.take(i + 1).drop_last() =~= all.take(i as int));
            if let ast::MemberKind::On { input, .. } = &members[i].kind {
                self.pair_handler(&mut r, m, n, i, input);
            }
        }
        assert(all.take(members.len() as int) =~= all);
        r
    }

    fn require_handlers(&mut self, inputs: &Vec<InputDef>, handled: &Vec<usize>)
        ensures
            final(self)@ == require_handlers(old(self)@, inputs_of(inputs@), handled@),
    {
        let ghost start = self@;
        let ghost all = inputs_of(inputs@);
        assert(all.take(0) =~= seq![]);
        for i in 0..inputs.len()
            invariant
                all == inputs_of(inputs@),
                self@ == require_handlers(start, all.take(i as int), handled@),
        {
            assert(all.take(i + 1).drop_last() =~= all.take(i as int));
            if !holds_number(handled, i) {
                self.push(say::no_handler(inputs[i].span, inputs[i].name.as_str()));
            }
        }
        assert(all.take(inputs.len() as int) =~= all);
    }

    fn set_declared(&mut self, id: ReactorId, uses: Vec<Capability>, m: Made)
        ensures
            final(self)@ == old(self)@.with_declared(id, uses@, m@),
    {
        proof {
            reveal(Checker::view);
            reveal(Made::view);
            reveal(State::with_declared);
            reveal(State::remaking);
        }
        let at: usize = id.index();
        if at < self.program.reactors.len() {
            let ghost view = m@;
            let ghost caps = uses@;
            let exports = find_exported(&m.nodes);
            self.program.reactors[at].params = m.params;
            self.program.reactors[at].uses = uses;
            self.program.reactors[at].inputs = m.inputs;
            self.program.reactors[at].slots = m.slots;
            self.program.reactors[at].exports = exports;
            self.program.reactors[at].nodes = m.nodes;
            assert(reactors_of(self.program.reactors@) =~= reactors_of(
                old(self).program.reactors@,
            ).update(
                at as int,
                model::ReactorDef {
                    params: view.params,
                    uses: caps,
                    inputs: view.inputs,
                    slots: view.slots,
                    exports: exported_nodes(view.nodes),
                    nodes: view.nodes,
                    ..reactors_of(old(self).program.reactors@)[at as int]
                },
            ));
        }
    }

    fn declare_whole(&mut self, id: ReactorId, decl: &ast::ReactorDecl)
        ensures
            final(self)@ == declare_whole(old(self)@, id, *decl),
    {
        proof {
            reveal(declare_whole);
        }
        let n = Called { written: decl.name.name.clone(), display: self.reactor_name(id) };
        let uses = self.capabilities(&decl.uses);
        let mut m = Made::new();
        self.declare_reactor_params(&mut m, &n, &decl.params);
        self.declare_members(&mut m, &n, &decl.members);
        let handled = self.pair_handlers(&m, &n, &decl.members);
        assert(inputs_of(m.inputs@) == m@.inputs) by {
            reveal(Made::view);
        }
        self.require_handlers(&m.inputs, &handled);
        self.set_declared(id, uses, m);
    }

    /// The reactors of the file being looked at, with the places of their declarations.
    pub fn reactor_items(&self, items: &Vec<ast::Item>) -> (r: (Vec<ReactorId>, Vec<usize>))
        ensures
            r.0@ == reactor_items(self@, items@).0,
            r.1@ == reactor_items(self@, items@).1,
            r.0.len() == r.1.len(),
    {
        let mut ids: Vec<ReactorId> = Vec::new();
        let mut places: Vec<usize> = Vec::new();
        let ghost all = items@;
        assert(all.take(0) =~= seq![]);
        for i in 0..items.len()
            invariant
                all == items@,
                ids@ == reactor_items(self@, all.take(i as int)).0,
                places@ == reactor_items(self@, all.take(i as int)).1,
                ids.len() == places.len(),
        {
            assert(all.take(i + 1).drop_last() =~= all.take(i as int));
            if let ast::Item::Reactor(decl) = &items[i] {
                if let Some(id) = self.reactor_named(decl.name.name.as_str()) {
                    if !holds_reactor(&ids, id) {
                        ids.push(id);
                        places.push(i);
                    }
                }
            }
        }
        assert(all.take(items.len() as int) =~= all);
        (ids, places)
    }

    pub fn declare_reactors(&mut self, module: &ast::Module)
        ensures
            final(self)@ == declare_reactors(old(self)@, *module),
    {
        proof {
            reveal(declare_reactors);
        }
        let (ids, places) = self.reactor_items(&module.items);
        let ghost start = self@;
        assert(ids@.take(0) =~= seq![]);
        for i in 0..ids.len()
            invariant
                ids.len() == places.len(),
                self@ == declare_each(
                    start,
                    module.items@,
                    ids@.take(i as int),
                    places@.take(i as int),
                ),
        {
            assert(ids@.take(i + 1).drop_last() =~= ids@.take(i as int));
            assert(places@.take(i + 1).drop_last() =~= places@.take(i as int));
            let at: usize = places[i];
            if at < module.items.len() {
                if let ast::Item::Reactor(decl) = &module.items[at] {
                    self.declare_whole(ids[i], decl);
                }
            }
        }
        assert(ids@.take(ids.len() as int) =~= ids@);
        assert(places@.take(ids.len() as int) =~= places@);
    }
}

} // verus!
