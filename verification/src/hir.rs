//! The typed program: what checking produces and what the whole-program passes read.

use vstd::prelude::*;
use crate::model;
use crate::span::{texts, Span};

verus! {

/// Index into `Program::fns`.
#[derive(Clone, Copy, PartialEq, Eq, Structural, Debug)]
pub struct FnId(pub u32);

/// Index into the locals of the function being looked at.
#[derive(Clone, Copy, PartialEq, Eq, Structural, Debug)]
pub struct LocalId(pub u32);

/// Index into `Program::structs`.
#[derive(Clone, Copy, PartialEq, Eq, Structural, Debug)]
pub struct StructId(pub u32);

/// Index into `Program::enums`.
#[derive(Clone, Copy, PartialEq, Eq, Structural, Debug)]
pub struct EnumId(pub u32);

/// Index into `Program::reactors`.
#[derive(Clone, Copy, PartialEq, Eq, Structural, Debug)]
pub struct ReactorId(pub u32);

/// Index into the nodes of one reactor.
#[derive(Clone, Copy, PartialEq, Eq, Structural, Debug)]
pub struct NodeId(pub u32);

/// Index into the table of traits.
#[derive(Clone, Copy, PartialEq, Eq, Structural, Debug)]
pub struct TraitId(pub u32);

/// One entry of the capability vocabulary.
#[derive(Clone, Copy, PartialEq, Eq, Structural, Debug)]
pub struct Capability(pub u32);

impl FnId {
    pub fn index(self) -> (r: usize)
        ensures
            r == self.0,
    {
        self.0 as usize
    }
}

impl LocalId {
    pub fn index(self) -> (r: usize)
        ensures
            r == self.0,
    {
        self.0 as usize
    }
}

impl StructId {
    pub fn index(self) -> (r: usize)
        ensures
            r == self.0,
    {
        self.0 as usize
    }
}

impl EnumId {
    pub fn index(self) -> (r: usize)
        ensures
            r == self.0,
    {
        self.0 as usize
    }
}

impl ReactorId {
    pub fn index(self) -> (r: usize)
        ensures
            r == self.0,
    {
        self.0 as usize
    }
}

impl NodeId {
    pub fn index(self) -> (r: usize)
        ensures
            r == self.0,
    {
        self.0 as usize
    }
}

impl TraitId {
    pub fn index(self) -> (r: usize)
        ensures
            r == self.0,
    {
        self.0 as usize
    }
}

/// Where the seeded marker trait stands: method-less, and satisfied by exactly the scalar types.
pub const EQ: u32 = 0;

/// Where the three enums every program starts with stand, and the variants of the first two.
pub const OPTION: u32 = 0;

pub const RESULT: u32 = 1;

pub const IO_ERROR: u32 = 2;

pub const NONE: usize = 0;

pub const SOME: usize = 1;

pub const OK: usize = 0;

pub const ERR: usize = 1;

/// What an argument position does with what it is handed.
#[derive(Clone, Copy, PartialEq, Eq, Structural, Debug)]
pub enum Mode {
    /// The caller keeps the value.
    Read,
    /// The caller's name dies at the call.
    Sink,
    /// The callee may change the caller's place.
    Mut,
}

/// A handle to something outside the program, with exactly one owner.
#[derive(Clone, Copy, PartialEq, Eq, Structural, Debug)]
pub enum Resource {
    Listener,
    Connection,
    File,
    Flow,
}

/// What a full mailbox does with one more message.
#[derive(Clone, Copy, PartialEq, Eq, Structural, Debug)]
pub enum Overflow {
    Reject,
    DropOldest,
    Wait,
}

/// A type.
#[derive(Debug)]
pub enum Ty {
    Unit,
    I64,
    F64,
    Bool,
    Str,
    Bytes,
    Resource(Resource),
    Reactor(ReactorId),
    /// The type of an expression that does not come back.
    Never,
    /// The type of something already reported.
    Error,
    /// A type parameter of the declaration being looked at.
    Param { index: u32, name: String },
    Option(Box<Ty>),
    Result(Box<Ty>, Box<Ty>),
    Task(Box<Ty>),
    Shared(Box<Ty>),
    Slots(Box<Ty>),
    Input(Box<Ty>),
    Signal(Box<Ty>),
    Event(Box<Ty>),
    /// A borrow, which only a parameter may have.
    Ref(Box<Ty>),
    Struct(StructId),
    Enum(EnumId),
}

#[derive(Clone, Copy, PartialEq, Eq, Structural, Debug)]
pub enum UnOp {
    Neg,
    Not,
}

#[derive(Clone, Copy, PartialEq, Eq, Structural, Debug)]
pub enum BinOp {
    AddInt,
    AddFloat,
    Concat,
    SubInt,
    SubFloat,
    MulInt,
    MulFloat,
    DivInt,
    DivFloat,
    RemInt,
    RemFloat,
    Eq,
    Ne,
    Lt,
    Le,
    Gt,
    Ge,
}

/// A function the host provides. Five take part in checking by name; the rest are entries of the
/// vocabulary a program is checked against.
#[derive(Clone, Copy, PartialEq, Eq, Structural, Debug)]
pub enum Builtin {
    Send,
    Latest,
    BytesAt,
    Shared,
    SlotsNew,
    Host(u32),
}

/// What a construction builds.
#[derive(Clone, Copy, PartialEq, Eq, Structural, Debug)]
pub enum Ctor {
    Struct(StructId),
    Variant(EnumId, usize),
}

#[derive(Debug)]
pub enum ExprKind {
    Unit,
    Int(i64),
    /// A floating-point literal, as its bits.
    Float(u64),
    Str(String),
    Bool(bool),
    Local(LocalId),
    Field { base: Box<Expr>, index: usize },
    Unary { op: UnOp, expr: Box<Expr> },
    Binary { op: BinOp, lhs: Box<Expr>, rhs: Box<Expr> },
    ShortCircuit { and: bool, lhs: Box<Expr>, rhs: Box<Expr> },
    Call { callee: FnId, args: Vec<Expr> },
    Builtin { builtin: Builtin, args: Vec<Expr> },
    Construct { ctor: Ctor, args: Vec<Expr> },
    Match { scrutinee: Box<Expr>, arms: Vec<Arm> },
    If { cond: Box<Expr>, then: Box<Expr>, els: Option<Box<Expr>> },
    Block { stmts: Vec<Stmt>, tail: Option<Box<Expr>> },
    Await { expr: Box<Expr> },
    Scope { body: Box<Expr> },
    Spawn { expr: Box<Expr> },
    SpawnReactor { reactor: ReactorId, args: Vec<Expr> },
    ReactorInput { reactor: Box<Expr>, index: usize },
    ReactorExport { reactor: Box<Expr>, index: usize },
    Try { expr: Box<Expr>, enum_id: EnumId },
    Return { value: Option<Box<Expr>> },
    While { cond: Box<Expr>, body: Box<Expr> },
    Loop { body: Box<Expr> },
    Break { value: Option<Box<Expr>> },
    Continue,
    Error,
}

#[derive(Debug)]
pub struct Expr {
    pub kind: ExprKind,
    pub ty: Ty,
    pub span: Span,
}

#[derive(Debug)]
pub struct Arm {
    pub pat: Pat,
    pub guard: Option<Expr>,
    pub body: Expr,
    pub span: Span,
}

#[derive(Debug)]
pub enum StmtKind {
    Let { local: LocalId, value: Expr },
    Assign { place: Expr, value: Expr },
    /// Work to start once the turn is published, and the input its result comes back on.
    After { task: Expr, reply: Option<usize> },
    Expr(Expr),
}

#[derive(Debug)]
pub struct Stmt {
    pub kind: StmtKind,
    pub span: Span,
}

#[derive(Debug)]
pub enum PatKind {
    Wild,
    Bind(LocalId),
    Int(i64),
    Str(String),
    Bool(bool),
    Variant { enum_id: EnumId, variant: usize, args: Vec<Pat> },
    Struct { strukt: StructId, args: Vec<Pat> },
    Or(Vec<Pat>),
    Error,
}

#[derive(Debug)]
pub struct Pat {
    pub kind: PatKind,
    pub span: Span,
}

/// What a local stands for in the body that declares it.
#[derive(Clone, Copy, PartialEq, Eq, Structural, Debug)]
pub enum LocalRole {
    Ordinary,
    /// A constructor parameter of the reactor the body was lifted out of.
    Param,
    /// A state cell, by slot.
    State(usize),
    Signal,
    /// The message a handler was given.
    Message,
}

#[derive(Debug)]
pub struct LocalDef {
    pub name: String,
    pub ty: Ty,
    pub mutable: bool,
    pub role: LocalRole,
    pub span: Span,
}

#[derive(Debug)]
pub struct FieldDef {
    pub name: String,
    pub ty: Ty,
    pub span: Span,
}

#[derive(Debug)]
pub struct StructDef {
    pub name: String,
    pub type_params: Vec<String>,
    pub fields: Vec<FieldDef>,
    pub span: Span,
}

#[derive(Debug)]
pub struct VariantDef {
    pub name: String,
    pub fields: Vec<FieldDef>,
    pub positional: bool,
    pub span: Span,
}

#[derive(Debug)]
pub struct EnumDef {
    pub name: String,
    pub type_params: Vec<String>,
    pub variants: Vec<VariantDef>,
    pub span: Span,
}

#[derive(Debug)]
pub struct FnDef {
    pub name: String,
    pub type_params: Vec<String>,
    pub is_task: bool,
    pub uses: Vec<Capability>,
    /// How many of `locals`, from the front, are parameters.
    pub params: usize,
    pub modes: Vec<Mode>,
    pub locals: Vec<LocalDef>,
    pub ret: Ty,
    pub body: Expr,
    /// Nothing executable reaches this one: a generic template or a placeholder inside one.
    pub inert: bool,
    pub span: Span,
}

#[derive(Clone, Copy, PartialEq, Eq, Structural, Debug)]
pub enum NodeKind {
    Param { slot: usize, index: usize },
    State { slot: usize, init: FnId },
    Signal { body: FnId },
}

#[derive(Debug)]
pub struct Node {
    pub name: String,
    pub kind: NodeKind,
    pub ty: Ty,
    /// What the node is computed from, in the order its lifted function takes them.
    pub deps: Vec<NodeId>,
    pub exported: bool,
    pub span: Span,
}

#[derive(Debug)]
pub struct InputDef {
    pub name: String,
    pub ty: Ty,
    pub capacity: usize,
    pub overflow: Overflow,
    pub handler: FnId,
    /// The nodes a message on this input can change, in propagation order.
    pub plan: Vec<NodeId>,
    pub span: Span,
}

#[derive(Debug)]
pub struct ReactorDef {
    pub name: String,
    pub params: Vec<(String, Ty)>,
    pub uses: Vec<Capability>,
    pub inputs: Vec<InputDef>,
    pub nodes: Vec<Node>,
    pub slots: Vec<NodeId>,
    pub order: Vec<NodeId>,
    pub exports: Vec<NodeId>,
    pub init: Option<FnId>,
    pub span: Span,
}

#[derive(Debug)]
pub struct Program {
    pub structs: Vec<StructDef>,
    pub enums: Vec<EnumDef>,
    pub fns: Vec<FnDef>,
    pub reactors: Vec<ReactorDef>,
    pub main: Option<FnId>,
}

/// One function of the host: what it is called with, and what calling it means.
#[derive(Debug)]
pub struct BuiltinDef {
    pub name: String,
    pub params: Vec<(Ty, Mode)>,
    pub ret: Ty,
    /// Nothing outside can see a call happen.
    pub pure_call: bool,
    pub is_task: bool,
    pub needs: Vec<Capability>,
}

/// The closed vocabulary a program is checked against.
#[derive(Debug)]
pub struct Vocabulary {
    pub send: BuiltinDef,
    pub latest: BuiltinDef,
    pub bytes_at: BuiltinDef,
    pub shared: BuiltinDef,
    pub slots_new: BuiltinDef,
    pub host: Vec<BuiltinDef>,
    pub capabilities: Vec<String>,
    /// The variants of `IoError`, each with how many strings it carries.
    pub io_errors: Vec<(String, usize)>,
    /// How the standard library's modules are listed to a reader.
    pub catalogue: String,
}

// ---------------------------------------------------------------- what each type holds

impl Ty {
    pub open spec fn view(&self) -> model::Ty
        decreases self,
    {
        match self {
            Ty::Unit => model::Ty::Unit,
            Ty::I64 => model::Ty::I64,
            Ty::F64 => model::Ty::F64,
            Ty::Bool => model::Ty::Bool,
            Ty::Str => model::Ty::Str,
            Ty::Bytes => model::Ty::Bytes,
            Ty::Resource(r) => model::Ty::Resource(*r),
            Ty::Reactor(id) => model::Ty::Reactor(*id),
            Ty::Never => model::Ty::Never,
            Ty::Error => model::Ty::Error,
            Ty::Param { index, name } => model::Ty::Param { index: *index, name: name@ },
            Ty::Option(t) => model::Ty::Option(Box::new(t.view())),
            Ty::Result(t, e) => model::Ty::Result(Box::new(t.view()), Box::new(e.view())),
            Ty::Task(t) => model::Ty::Task(Box::new(t.view())),
            Ty::Shared(t) => model::Ty::Shared(Box::new(t.view())),
            Ty::Slots(t) => model::Ty::Slots(Box::new(t.view())),
            Ty::Input(t) => model::Ty::Input(Box::new(t.view())),
            Ty::Signal(t) => model::Ty::Signal(Box::new(t.view())),
            Ty::Event(t) => model::Ty::Event(Box::new(t.view())),
            Ty::Ref(t) => model::Ty::Ref(Box::new(t.view())),
            Ty::Struct(id) => model::Ty::Struct(*id),
            Ty::Enum(id) => model::Ty::Enum(*id),
        }
    }
}

pub open spec fn tys(s: Seq<Ty>) -> Seq<model::Ty> {
    Seq::new(s.len(), |i: int| s[i]@)
}

pub open spec fn named_tys(s: Seq<(String, Ty)>) -> Seq<(Seq<char>, model::Ty)> {
    Seq::new(s.len(), |i: int| (s[i].0@, s[i].1@))
}

pub open spec fn bindings(s: Seq<Option<Ty>>) -> Seq<Option<model::Ty>> {
    Seq::new(
        s.len(),
        |i: int|
            match s[i] {
                Some(t) => Some(t@),
                None => None,
            },
    )
}

impl Pat {
    pub open spec fn view(&self) -> model::Pat
        decreases self,
    {
        model::Pat {
            kind: match self.kind {
                PatKind::Wild => model::PatKind::Wild,
                PatKind::Bind(id) => model::PatKind::Bind(id),
                PatKind::Int(v) => model::PatKind::Int(v),
                PatKind::Str(v) => model::PatKind::Str(v@),
                PatKind::Bool(v) => model::PatKind::Bool(v),
                PatKind::Variant { enum_id, variant, args } => model::PatKind::Variant {
                    enum_id,
                    variant,
                    args: pats(args@),
                },
                PatKind::Struct { strukt, args } => model::PatKind::Struct {
                    strukt,
                    args: pats(args@),
                },
                PatKind::Or(alts) => model::PatKind::Or(pats(alts@)),
                PatKind::Error => model::PatKind::Error,
            },
            span: self.span,
        }
    }
}

pub open spec fn pats(s: Seq<Pat>) -> Seq<model::Pat>
    decreases s,
{
    Seq::new(
        s.len(),
        |i: int|
            if 0 <= i < s.len() {
                s[i].view()
            } else {
                arbitrary()
            },
    )
}

/// What an expression holds, all the way down.
pub open spec fn deep(e: Expr) -> model::Expr
    decreases e,
{
    model::Expr {
        kind: match e.kind {
            ExprKind::Unit => model::ExprKind::Unit,
            ExprKind::Int(v) => model::ExprKind::Int(v),
            ExprKind::Float(v) => model::ExprKind::Float(v),
            ExprKind::Str(v) => model::ExprKind::Str(v@),
            ExprKind::Bool(v) => model::ExprKind::Bool(v),
            ExprKind::Local(id) => model::ExprKind::Local(id),
            ExprKind::Field { base, index } => model::ExprKind::Field {
                base: Box::new(deep(*base)),
                index,
            },
            ExprKind::Unary { op, expr } => model::ExprKind::Unary {
                op,
                expr: Box::new(deep(*expr)),
            },
            ExprKind::Binary { op, lhs, rhs } => model::ExprKind::Binary {
                op,
                lhs: Box::new(deep(*lhs)),
                rhs: Box::new(deep(*rhs)),
            },
            ExprKind::ShortCircuit { and, lhs, rhs } => model::ExprKind::ShortCircuit {
                and,
                lhs: Box::new(deep(*lhs)),
                rhs: Box::new(deep(*rhs)),
            },
            ExprKind::Call { callee, args } => model::ExprKind::Call {
                callee,
                args: deep_exprs(args@),
            },
            ExprKind::Builtin { builtin, args } => model::ExprKind::Builtin {
                builtin,
                args: deep_exprs(args@),
            },
            ExprKind::Construct { ctor, args } => model::ExprKind::Construct {
                ctor,
                args: deep_exprs(args@),
            },
            ExprKind::Match { scrutinee, arms } => model::ExprKind::Match {
                scrutinee: Box::new(deep(*scrutinee)),
                arms: deep_arms(arms@),
            },
            ExprKind::If { cond, then, els } => model::ExprKind::If {
                cond: Box::new(deep(*cond)),
                then: Box::new(deep(*then)),
                els: deep_boxed(els),
            },
            ExprKind::Block { stmts, tail } => model::ExprKind::Block {
                stmts: deep_stmts(stmts@),
                tail: deep_boxed(tail),
            },
            ExprKind::Await { expr } => model::ExprKind::Await { expr: Box::new(deep(*expr)) },
            ExprKind::Scope { body } => model::ExprKind::Scope { body: Box::new(deep(*body)) },
            ExprKind::Spawn { expr } => model::ExprKind::Spawn { expr: Box::new(deep(*expr)) },
            ExprKind::SpawnReactor { reactor, args } => model::ExprKind::SpawnReactor {
                reactor,
                args: deep_exprs(args@),
            },
            ExprKind::ReactorInput { reactor, index } => model::ExprKind::ReactorInput {
                reactor: Box::new(deep(*reactor)),
                index,
            },
            ExprKind::ReactorExport { reactor, index } => model::ExprKind::ReactorExport {
                reactor: Box::new(deep(*reactor)),
                index,
            },
            ExprKind::Try { expr, enum_id } => model::ExprKind::Try {
                expr: Box::new(deep(*expr)),
                enum_id,
            },
            ExprKind::Return { value } => model::ExprKind::Return { value: deep_boxed(value) },
            ExprKind::While { cond, body } => model::ExprKind::While {
                cond: Box::new(deep(*cond)),
                body: Box::new(deep(*body)),
            },
            ExprKind::Loop { body } => model::ExprKind::Loop { body: Box::new(deep(*body)) },
            ExprKind::Break { value } => model::ExprKind::Break { value: deep_boxed(value) },
            ExprKind::Continue => model::ExprKind::Continue,
            ExprKind::Error => model::ExprKind::Error,
        },
        ty: e.ty@,
        span: e.span,
    }
}

pub open spec fn deep_boxed(e: Option<Box<Expr>>) -> Option<Box<model::Expr>>
    decreases e,
{
    match e {
        Some(e) => Some(Box::new(deep(*e))),
        None => None,
    }
}

pub open spec fn deep_exprs(s: Seq<Expr>) -> Seq<model::Expr>
    decreases s,
{
    Seq::new(
        s.len(),
        |i: int|
            if 0 <= i < s.len() {
                deep(s[i])
            } else {
                arbitrary()
            },
    )
}

pub open spec fn deep_arm(a: Arm) -> model::Arm
    decreases a,
{
    model::Arm {
        pat: a.pat@,
        guard: match a.guard {
            Some(guard) => Some(deep(guard)),
            None => None,
        },
        body: deep(a.body),
        span: a.span,
    }
}

pub open spec fn deep_arms(s: Seq<Arm>) -> Seq<model::Arm>
    decreases s,
{
    Seq::new(
        s.len(),
        |i: int|
            if 0 <= i < s.len() {
                deep_arm(s[i])
            } else {
                arbitrary()
            },
    )
}

pub open spec fn deep_stmt(it: Stmt) -> model::Stmt
    decreases it,
{
    model::Stmt {
        kind: match it.kind {
            StmtKind::Let { local, value } => model::StmtKind::Let { local, value: deep(value) },
            StmtKind::Assign { place, value } => model::StmtKind::Assign {
                place: deep(place),
                value: deep(value),
            },
            StmtKind::After { task, reply } => model::StmtKind::After { task: deep(task), reply },
            StmtKind::Expr(e) => model::StmtKind::Expr(deep(e)),
        },
        span: it.span,
    }
}

pub open spec fn deep_stmts(s: Seq<Stmt>) -> Seq<model::Stmt>
    decreases s,
{
    Seq::new(
        s.len(),
        |i: int|
            if 0 <= i < s.len() {
                deep_stmt(s[i])
            } else {
                arbitrary()
            },
    )
}

impl Expr {
    /// What the expression holds, all the way down. Looked into one level at a time, with
    /// [`Expr::look`].
    #[verifier::opaque]
    pub open spec fn view(&self) -> model::Expr {
        deep(*self)
    }

    pub proof fn look(&self)
        ensures
            self@.kind == self.kind@,
            self@.ty == self.ty@,
            self@.span == self.span,
    {
        reveal(Expr::view);
        match self.kind {
            ExprKind::Call { args, .. } => {
                assert(deep_exprs(args@) =~= exprs(args@));
            },
            ExprKind::Builtin { args, .. } => {
                assert(deep_exprs(args@) =~= exprs(args@));
            },
            ExprKind::Construct { args, .. } => {
                assert(deep_exprs(args@) =~= exprs(args@));
            },
            ExprKind::SpawnReactor { args, .. } => {
                assert(deep_exprs(args@) =~= exprs(args@));
            },
            ExprKind::Match { arms, .. } => {
                assert(deep_arms(arms@) =~= arms_of(arms@));
            },
            ExprKind::Block { stmts, tail } => {
                assert forall|i: int| 0 <= i < stmts@.len() implies deep_stmt(stmts@[i])
                    == stmts@[i].view() by {}
                assert(deep_stmts(stmts@) =~= stmts_of(stmts@));
                assert(deep_boxed(tail) == boxed(tail));
            },
            ExprKind::If { els, .. } => {
                assert(deep_boxed(els) == boxed(els));
            },
            ExprKind::Return { value } => {
                assert(deep_boxed(value) == boxed(value));
            },
            ExprKind::Break { value } => {
                assert(deep_boxed(value) == boxed(value));
            },
            _ => {},
        }
    }
}

impl ExprKind {
    pub open spec fn view(&self) -> model::ExprKind {
        match *self {
            ExprKind::Unit => model::ExprKind::Unit,
            ExprKind::Int(v) => model::ExprKind::Int(v),
            ExprKind::Float(v) => model::ExprKind::Float(v),
            ExprKind::Str(v) => model::ExprKind::Str(v@),
            ExprKind::Bool(v) => model::ExprKind::Bool(v),
            ExprKind::Local(id) => model::ExprKind::Local(id),
            ExprKind::Field { base, index } => model::ExprKind::Field {
                base: Box::new(base.view()),
                index,
            },
            ExprKind::Unary { op, expr } => model::ExprKind::Unary {
                op,
                expr: Box::new(expr.view()),
            },
            ExprKind::Binary { op, lhs, rhs } => model::ExprKind::Binary {
                op,
                lhs: Box::new(lhs.view()),
                rhs: Box::new(rhs.view()),
            },
            ExprKind::ShortCircuit { and, lhs, rhs } => model::ExprKind::ShortCircuit {
                and,
                lhs: Box::new(lhs.view()),
                rhs: Box::new(rhs.view()),
            },
            ExprKind::Call { callee, args } => model::ExprKind::Call {
                callee,
                args: exprs(args@),
            },
            ExprKind::Builtin { builtin, args } => model::ExprKind::Builtin {
                builtin,
                args: exprs(args@),
            },
            ExprKind::Construct { ctor, args } => model::ExprKind::Construct {
                ctor,
                args: exprs(args@),
            },
            ExprKind::Match { scrutinee, arms } => model::ExprKind::Match {
                scrutinee: Box::new(scrutinee.view()),
                arms: arms_of(arms@),
            },
            ExprKind::If { cond, then, els } => model::ExprKind::If {
                cond: Box::new(cond.view()),
                then: Box::new(then.view()),
                els: boxed(els),
            },
            ExprKind::Block { stmts, tail } => model::ExprKind::Block {
                stmts: stmts_of(stmts@),
                tail: boxed(tail),
            },
            ExprKind::Await { expr } => model::ExprKind::Await { expr: Box::new(expr.view()) },
            ExprKind::Scope { body } => model::ExprKind::Scope { body: Box::new(body.view()) },
            ExprKind::Spawn { expr } => model::ExprKind::Spawn { expr: Box::new(expr.view()) },
            ExprKind::SpawnReactor { reactor, args } => model::ExprKind::SpawnReactor {
                reactor,
                args: exprs(args@),
            },
            ExprKind::ReactorInput { reactor, index } => model::ExprKind::ReactorInput {
                reactor: Box::new(reactor.view()),
                index,
            },
            ExprKind::ReactorExport { reactor, index } => model::ExprKind::ReactorExport {
                reactor: Box::new(reactor.view()),
                index,
            },
            ExprKind::Try { expr, enum_id } => model::ExprKind::Try {
                expr: Box::new(expr.view()),
                enum_id,
            },
            ExprKind::Return { value } => model::ExprKind::Return { value: boxed(value) },
            ExprKind::While { cond, body } => model::ExprKind::While {
                cond: Box::new(cond.view()),
                body: Box::new(body.view()),
            },
            ExprKind::Loop { body } => model::ExprKind::Loop { body: Box::new(body.view()) },
            ExprKind::Break { value } => model::ExprKind::Break { value: boxed(value) },
            ExprKind::Continue => model::ExprKind::Continue,
            ExprKind::Error => model::ExprKind::Error,
        }
    }
}

pub open spec fn boxed(e: Option<Box<Expr>>) -> Option<Box<model::Expr>> {
    match e {
        Some(e) => Some(Box::new(e.view())),
        None => None,
    }
}

pub open spec fn exprs(s: Seq<Expr>) -> Seq<model::Expr> {
    Seq::new(s.len(), |i: int| s[i].view())
}

impl Arm {
    pub open spec fn view(&self) -> model::Arm {
        model::Arm {
            pat: self.pat@,
            guard: match self.guard {
                Some(guard) => Some(guard.view()),
                None => None,
            },
            body: self.body.view(),
            span: self.span,
        }
    }
}

pub open spec fn arms_of(s: Seq<Arm>) -> Seq<model::Arm> {
    Seq::new(s.len(), |i: int| s[i].view())
}

impl Stmt {
    pub open spec fn view(&self) -> model::Stmt {
        model::Stmt {
            kind: match self.kind {
                StmtKind::Let { local, value } => model::StmtKind::Let {
                    local,
                    value: value.view(),
                },
                StmtKind::Assign { place, value } => model::StmtKind::Assign {
                    place: place.view(),
                    value: value.view(),
                },
                StmtKind::After { task, reply } => model::StmtKind::After {
                    task: task.view(),
                    reply,
                },
                StmtKind::Expr(e) => model::StmtKind::Expr(e.view()),
            },
            span: self.span,
        }
    }
}

pub open spec fn stmts_of(s: Seq<Stmt>) -> Seq<model::Stmt> {
    Seq::new(s.len(), |i: int| s[i].view())
}

impl LocalDef {
    pub open spec fn view(&self) -> model::LocalDef {
        model::LocalDef {
            name: self.name@,
            ty: self.ty@,
            mutable: self.mutable,
            role: self.role,
            span: self.span,
        }
    }
}

pub open spec fn locals_of(s: Seq<LocalDef>) -> Seq<model::LocalDef> {
    Seq::new(s.len(), |i: int| s[i]@)
}

impl FieldDef {
    pub open spec fn view(&self) -> model::FieldDef {
        model::FieldDef { name: self.name@, ty: self.ty@, span: self.span }
    }
}

pub open spec fn fields_of(s: Seq<FieldDef>) -> Seq<model::FieldDef> {
    Seq::new(s.len(), |i: int| s[i]@)
}

impl StructDef {
    pub open spec fn view(&self) -> model::StructDef {
        model::StructDef {
            name: self.name@,
            type_params: texts(self.type_params@),
            fields: fields_of(self.fields@),
            span: self.span,
        }
    }
}

pub open spec fn structs_of(s: Seq<StructDef>) -> Seq<model::StructDef> {
    Seq::new(s.len(), |i: int| s[i]@)
}

impl VariantDef {
    pub open spec fn view(&self) -> model::VariantDef {
        model::VariantDef {
            name: self.name@,
            fields: fields_of(self.fields@),
            positional: self.positional,
            span: self.span,
        }
    }
}

pub open spec fn variants_of(s: Seq<VariantDef>) -> Seq<model::VariantDef> {
    Seq::new(s.len(), |i: int| s[i]@)
}

impl EnumDef {
    pub open spec fn view(&self) -> model::EnumDef {
        model::EnumDef {
            name: self.name@,
            type_params: texts(self.type_params@),
            variants: variants_of(self.variants@),
            span: self.span,
        }
    }
}

pub open spec fn enums_of(s: Seq<EnumDef>) -> Seq<model::EnumDef> {
    Seq::new(s.len(), |i: int| s[i]@)
}

impl FnDef {
    pub open spec fn view(&self) -> model::FnDef {
        model::FnDef {
            name: self.name@,
            type_params: texts(self.type_params@),
            is_task: self.is_task,
            uses: self.uses@,
            params: self.params,
            modes: self.modes@,
            locals: locals_of(self.locals@),
            ret: self.ret@,
            body: self.body@,
            inert: self.inert,
            span: self.span,
        }
    }
}

pub open spec fn fns_of(s: Seq<FnDef>) -> Seq<model::FnDef> {
    Seq::new(s.len(), |i: int| s[i]@)
}

impl Node {
    pub open spec fn view(&self) -> model::Node {
        model::Node {
            name: self.name@,
            kind: self.kind,
            ty: self.ty@,
            deps: self.deps@,
            exported: self.exported,
            span: self.span,
        }
    }
}

pub open spec fn nodes_of(s: Seq<Node>) -> Seq<model::Node> {
    Seq::new(s.len(), |i: int| s[i]@)
}

impl InputDef {
    pub open spec fn view(&self) -> model::InputDef {
        model::InputDef {
            name: self.name@,
            ty: self.ty@,
            capacity: self.capacity,
            overflow: self.overflow,
            handler: self.handler,
            plan: self.plan@,
            span: self.span,
        }
    }
}

pub open spec fn inputs_of(s: Seq<InputDef>) -> Seq<model::InputDef> {
    Seq::new(s.len(), |i: int| s[i]@)
}

impl ReactorDef {
    pub open spec fn view(&self) -> model::ReactorDef {
        model::ReactorDef {
            name: self.name@,
            params: named_tys(self.params@),
            uses: self.uses@,
            inputs: inputs_of(self.inputs@),
            nodes: nodes_of(self.nodes@),
            slots: self.slots@,
            order: self.order@,
            exports: self.exports@,
            init: self.init,
            span: self.span,
        }
    }
}

pub open spec fn reactors_of(s: Seq<ReactorDef>) -> Seq<model::ReactorDef> {
    Seq::new(s.len(), |i: int| s[i]@)
}

impl Program {
    pub open spec fn view(&self) -> model::Program {
        model::Program {
            structs: structs_of(self.structs@),
            enums: enums_of(self.enums@),
            fns: fns_of(self.fns@),
            reactors: reactors_of(self.reactors@),
            main: self.main,
        }
    }
}

pub open spec fn params_of(s: Seq<(Ty, Mode)>) -> Seq<(model::Ty, Mode)> {
    Seq::new(s.len(), |i: int| (s[i].0@, s[i].1))
}

impl BuiltinDef {
    pub open spec fn view(&self) -> model::BuiltinDef {
        model::BuiltinDef {
            name: self.name@,
            params: params_of(self.params@),
            ret: self.ret@,
            pure_call: self.pure_call,
            is_task: self.is_task,
            needs: self.needs@,
        }
    }
}

pub open spec fn io_errors_of(s: Seq<(String, usize)>) -> Seq<(Seq<char>, usize)> {
    Seq::new(s.len(), |i: int| (s[i].0@, s[i].1))
}

impl Vocabulary {
    pub open spec fn view(&self) -> model::Vocabulary {
        model::Vocabulary {
            send: self.send@,
            latest: self.latest@,
            bytes_at: self.bytes_at@,
            shared: self.shared@,
            slots_new: self.slots_new@,
            host: Seq::new(self.host@.len(), |i: int| self.host@[i]@),
            capabilities: texts(self.capabilities@),
            io_errors: io_errors_of(self.io_errors@),
            catalogue: self.catalogue@,
        }
    }

    /// The entry behind a builtin.
    pub fn builtin(&self, builtin: Builtin) -> (def: &BuiltinDef)
        requires
            self@.knows(builtin),
        ensures
            def@ == self@.builtin(builtin),
    {
        match builtin {
            Builtin::Send => &self.send,
            Builtin::Latest => &self.latest,
            Builtin::BytesAt => &self.bytes_at,
            Builtin::Shared => &self.shared,
            Builtin::SlotsNew => &self.slots_new,
            Builtin::Host(index) => &self.host[index as usize],
        }
    }
}

// ---------------------------------------------------------------- traits

/// One trait member. The receiver is the first parameter. The modes are the trait's to declare: a
/// bodiless contract has nothing to infer from.
#[derive(Debug)]
pub struct TraitMethod {
    pub name: String,
    pub params: Vec<(String, Ty)>,
    pub modes: Vec<Mode>,
    pub ret: Ty,
}

#[derive(Debug)]
pub struct TraitDef {
    /// The display name, qualified by module as functions are.
    pub name: String,
    pub module: usize,
    pub methods: Vec<TraitMethod>,
}

#[derive(Debug)]
pub struct ImplDef {
    pub trait_id: TraitId,
    pub receiver: Ty,
    /// One entry per function written, `None` where it was refused.
    pub methods: Vec<(String, Option<FnId>)>,
    pub module: usize,
    /// Which item of its module the impl is.
    pub item: usize,
}

impl TraitMethod {
    pub open spec fn view(&self) -> model::TraitMethod {
        model::TraitMethod {
            name: self.name@,
            params: named_tys(self.params@),
            modes: self.modes@,
            ret: self.ret@,
        }
    }
}

pub open spec fn methods_of(s: Seq<TraitMethod>) -> Seq<model::TraitMethod> {
    Seq::new(s.len(), |i: int| s[i]@)
}

impl TraitDef {
    pub open spec fn view(&self) -> model::TraitDef {
        model::TraitDef {
            name: self.name@,
            module: self.module,
            methods: methods_of(self.methods@),
        }
    }
}

pub open spec fn traits_of(s: Seq<TraitDef>) -> Seq<model::TraitDef> {
    Seq::new(s.len(), |i: int| s[i]@)
}

pub open spec fn provided(s: Seq<(String, Option<FnId>)>) -> Seq<(Seq<char>, Option<FnId>)> {
    Seq::new(s.len(), |i: int| (s[i].0@, s[i].1))
}

impl ImplDef {
    pub open spec fn view(&self) -> model::ImplDef {
        model::ImplDef {
            trait_id: self.trait_id,
            receiver: self.receiver@,
            methods: provided(self.methods@),
            module: self.module,
            item: self.item,
        }
    }
}

pub open spec fn impls_of(s: Seq<ImplDef>) -> Seq<model::ImplDef> {
    Seq::new(s.len(), |i: int| s[i]@)
}

} // verus!
