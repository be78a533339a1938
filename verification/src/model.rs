//! The mathematical counterparts of the program types: the same shapes over sequences.

use vstd::prelude::*;
use crate::hir::{
    BinOp, Builtin, Capability, Ctor, EnumId, FnId, LocalId, LocalRole, Mode, NodeId, NodeKind,
    Overflow, ReactorId, Resource, StructId, TraitId, UnOp,
};
use crate::span::Span;

verus! {

pub enum Ty {
    Unit,
    I64,
    F64,
    Bool,
    Str,
    Bytes,
    Resource(Resource),
    Reactor(ReactorId),
    Never,
    Error,
    Param { index: u32, name: Seq<char> },
    Option(Box<Ty>),
    Result(Box<Ty>, Box<Ty>),
    Task(Box<Ty>),
    Shared(Box<Ty>),
    Slots(Box<Ty>),
    Input(Box<Ty>),
    Signal(Box<Ty>),
    Event(Box<Ty>),
    Ref(Box<Ty>),
    Struct(StructId),
    Enum(EnumId),
}

pub enum ExprKind {
    Unit,
    Int(i64),
    Float(u64),
    Str(Seq<char>),
    Bool(bool),
    Local(LocalId),
    Field { base: Box<Expr>, index: usize },
    Unary { op: UnOp, expr: Box<Expr> },
    Binary { op: BinOp, lhs: Box<Expr>, rhs: Box<Expr> },
    ShortCircuit { and: bool, lhs: Box<Expr>, rhs: Box<Expr> },
    Call { callee: FnId, args: Seq<Expr> },
    Builtin { builtin: Builtin, args: Seq<Expr> },
    Construct { ctor: Ctor, args: Seq<Expr> },
    Match { scrutinee: Box<Expr>, arms: Seq<Arm> },
    If { cond: Box<Expr>, then: Box<Expr>, els: Option<Box<Expr>> },
    Block { stmts: Seq<Stmt>, tail: Option<Box<Expr>> },
    Await { expr: Box<Expr> },
    Scope { body: Box<Expr> },
    Spawn { expr: Box<Expr> },
    SpawnReactor { reactor: ReactorId, args: Seq<Expr> },
    ReactorInput { reactor: Box<Expr>, index: usize },
    ReactorExport { reactor: Box<Expr>, index: usize },
    Try { expr: Box<Expr>, enum_id: EnumId },
    Return { value: Option<Box<Expr>> },
    While { cond: Box<Expr>, body: Box<Expr> },
    Loop { body: Box<Expr> },
    Break { value: Option<Box<Expr>> },
    Continue,
    Error,
}

pub struct Expr {
    pub kind: ExprKind,
    pub ty: Ty,
    pub span: Span,
}

pub struct Arm {
    pub pat: Pat,
    pub guard: Option<Expr>,
    pub body: Expr,
    pub span: Span,
}

pub enum StmtKind {
    Let { local: LocalId, value: Expr },
    Assign { place: Expr, value: Expr },
    After { task: Expr, reply: Option<usize> },
    Expr(Expr),
}

pub struct Stmt {
    pub kind: StmtKind,
    pub span: Span,
}

pub enum PatKind {
    Wild,
    Bind(LocalId),
    Int(i64),
    Str(Seq<char>),
    Bool(bool),
    Variant { enum_id: EnumId, variant: usize, args: Seq<Pat> },
    Struct { strukt: StructId, args: Seq<Pat> },
    Or(Seq<Pat>),
    Error,
}

pub struct Pat {
    pub kind: PatKind,
    pub span: Span,
}

pub struct LocalDef {
    pub name: Seq<char>,
    pub ty: Ty,
    pub mutable: bool,
    pub role: LocalRole,
    pub span: Span,
}

pub struct FieldDef {
    pub name: Seq<char>,
    pub ty: Ty,
    pub span: Span,
}

#[verifier::ext_equal]
pub struct StructDef {
    pub name: Seq<char>,
    pub type_params: Seq<Seq<char>>,
    pub fields: Seq<FieldDef>,
    pub span: Span,
}

#[verifier::ext_equal]
pub struct VariantDef {
    pub name: Seq<char>,
    pub fields: Seq<FieldDef>,
    pub positional: bool,
    pub span: Span,
}

#[verifier::ext_equal]
pub struct EnumDef {
    pub name: Seq<char>,
    pub type_params: Seq<Seq<char>>,
    pub variants: Seq<VariantDef>,
    pub span: Span,
}

#[verifier::ext_equal]
pub struct FnDef {
    pub name: Seq<char>,
    pub type_params: Seq<Seq<char>>,
    pub is_task: bool,
    pub uses: Seq<Capability>,
    pub params: usize,
    pub modes: Seq<Mode>,
    pub locals: Seq<LocalDef>,
    pub ret: Ty,
    pub body: Expr,
    pub inert: bool,
    pub span: Span,
}

#[verifier::ext_equal]
pub struct Node {
    pub name: Seq<char>,
    pub kind: NodeKind,
    pub ty: Ty,
    pub deps: Seq<NodeId>,
    pub exported: bool,
    pub span: Span,
}

#[verifier::ext_equal]
pub struct InputDef {
    pub name: Seq<char>,
    pub ty: Ty,
    pub capacity: usize,
    pub overflow: Overflow,
    pub handler: FnId,
    pub plan: Seq<NodeId>,
    pub span: Span,
}

#[verifier::ext_equal]
pub struct ReactorDef {
    pub name: Seq<char>,
    pub params: Seq<(Seq<char>, Ty)>,
    pub uses: Seq<Capability>,
    pub inputs: Seq<InputDef>,
    pub nodes: Seq<Node>,
    pub slots: Seq<NodeId>,
    pub order: Seq<NodeId>,
    pub exports: Seq<NodeId>,
    pub init: Option<FnId>,
    pub span: Span,
}

#[verifier::ext_equal]
pub struct Program {
    pub structs: Seq<StructDef>,
    pub enums: Seq<EnumDef>,
    pub fns: Seq<FnDef>,
    pub reactors: Seq<ReactorDef>,
    pub main: Option<FnId>,
}

#[verifier::ext_equal]
pub struct BuiltinDef {
    pub name: Seq<char>,
    pub params: Seq<(Ty, Mode)>,
    pub ret: Ty,
    pub pure_call: bool,
    pub is_task: bool,
    pub needs: Seq<Capability>,
}

#[verifier::ext_equal]
pub struct Vocabulary {
    pub send: BuiltinDef,
    pub latest: BuiltinDef,
    pub bytes_at: BuiltinDef,
    pub shared: BuiltinDef,
    pub slots_new: BuiltinDef,
    pub host: Seq<BuiltinDef>,
    pub capabilities: Seq<Seq<char>>,
    pub io_errors: Seq<(Seq<char>, usize)>,
    pub catalogue: Seq<char>,
}

impl Vocabulary {
    /// Whether a builtin has an entry.
    pub open spec fn knows(self, builtin: Builtin) -> bool {
        match builtin {
            Builtin::Host(index) => index < self.host.len(),
            _ => true,
        }
    }

    pub open spec fn builtin(self, builtin: Builtin) -> BuiltinDef {
        match builtin {
            Builtin::Send => self.send,
            Builtin::Latest => self.latest,
            Builtin::BytesAt => self.bytes_at,
            Builtin::Shared => self.shared,
            Builtin::SlotsNew => self.slots_new,
            Builtin::Host(index) => self.host[index as int],
        }
    }
}

/// A trait member: its receiver is its first parameter.
pub struct TraitMethod {
    pub name: Seq<char>,
    pub params: Seq<(Seq<char>, Ty)>,
    pub modes: Seq<Mode>,
    pub ret: Ty,
}

pub struct TraitDef {
    pub name: Seq<char>,
    pub module: usize,
    pub methods: Seq<TraitMethod>,
}

pub struct ImplDef {
    pub trait_id: TraitId,
    pub receiver: Ty,
    pub methods: Seq<(Seq<char>, Option<FnId>)>,
    pub module: usize,
    pub item: usize,
}

} // verus!
