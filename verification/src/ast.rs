//! The syntax tree of one file, as a parser hands it over.

use vstd::prelude::*;
use vstd::string::*;
use crate::span::{texts, Span};
use crate::text::{join, joined};

verus! {

#[derive(Debug)]
pub struct Ident {
    pub name: String,
    pub span: Span,
}

/// A dotted name: at least one segment.
#[derive(Debug)]
pub struct Path {
    pub head: Ident,
    pub rest: Vec<Ident>,
    pub span: Span,
}

#[derive(Debug)]
pub enum TypeKind {
    Unit,
    Ref { mutable: bool, inner: Box<Type> },
    Path { path: Path, args: Vec<Type> },
}

#[derive(Debug)]
pub struct Type {
    pub kind: TypeKind,
    pub span: Span,
}

#[derive(Clone, Copy, PartialEq, Eq, Structural, Debug)]
pub enum UnOp {
    Neg,
    Not,
    Ref,
    RefMut,
}

#[derive(Clone, Copy, PartialEq, Eq, Structural, Debug)]
pub enum BinOp {
    Add,
    Sub,
    Mul,
    Div,
    Rem,
    Eq,
    Ne,
    Lt,
    Le,
    Gt,
    Ge,
    And,
    Or,
}

#[derive(Debug)]
pub enum ExprKind {
    Unit,
    Int(i64),
    /// A floating-point literal, as its bits.
    Float(u64),
    Str(String),
    Bool(bool),
    Path(Path),
    Field { base: Box<Expr>, name: Ident },
    Unary { op: UnOp, expr: Box<Expr> },
    Binary { op: BinOp, lhs: Box<Expr>, rhs: Box<Expr> },
    Call { callee: Box<Expr>, type_args: Vec<Type>, args: Vec<Arg> },
    Block(Block),
    If { cond: Box<Expr>, then: Block, els: Option<Box<Expr>> },
    While { cond: Box<Expr>, body: Block },
    Loop { body: Block },
    Break { value: Option<Box<Expr>> },
    Continue,
    Match { scrutinee: Box<Expr>, arms: Vec<Arm> },
    Try(Box<Expr>),
    Index { base: Box<Expr>, index: Box<Expr> },
    Await(Box<Expr>),
    Scope(Block),
    Spawn(Box<Expr>),
    SpawnReactor { path: Path, args: Vec<Arg> },
    Lambda { params: Vec<Pat>, body: Box<Expr> },
}

#[derive(Debug)]
pub struct Expr {
    pub kind: ExprKind,
    pub span: Span,
}

/// An argument of a call, named or not.
#[derive(Debug)]
pub struct Arg {
    pub name: Option<Ident>,
    pub value: Expr,
    pub span: Span,
}

#[derive(Debug)]
pub struct Arm {
    pub pat: Pat,
    pub guard: Option<Expr>,
    pub body: Expr,
    pub span: Span,
}

#[derive(Debug)]
pub struct Block {
    pub stmts: Vec<Stmt>,
    pub span: Span,
}

#[derive(Debug)]
pub enum StmtKind {
    Let { mutable: bool, name: Ident, ty: Option<Type>, value: Expr },
    Assign { target: Expr, value: Expr },
    Return(Option<Expr>),
    /// Work to start after the turn, and the input its result comes back on.
    After { task: Expr, reply: Option<Ident> },
    Expr(Expr),
}

#[derive(Debug)]
pub struct Stmt {
    pub kind: StmtKind,
    pub span: Span,
}

#[derive(Debug)]
pub enum PatKind {
    Wild,
    Binding(Ident),
    Int(i64),
    Str(String),
    Bool(bool),
    Or(Vec<Pat>),
    Construct { path: Path, args: Vec<PatArg>, rest: bool },
}

#[derive(Debug)]
pub struct Pat {
    pub kind: PatKind,
    pub span: Span,
}

#[derive(Debug)]
pub struct PatArg {
    pub name: Option<Ident>,
    pub pat: Pat,
}

/// The word written before a parameter's type, and where.
#[derive(Clone, Copy, PartialEq, Eq, Structural, Debug)]
pub enum ParamMode {
    Read,
    Sink(Span),
    Mut(Span),
}

#[derive(Debug)]
pub struct Param {
    pub name: Ident,
    pub mode: ParamMode,
    pub ty: Type,
    pub span: Span,
}

#[derive(Debug)]
pub struct TypeParam {
    pub name: Ident,
    pub bounds: Vec<Path>,
    pub span: Span,
}

#[derive(Debug)]
pub struct FnDecl {
    pub name: Ident,
    pub exported: bool,
    pub is_task: bool,
    pub type_params: Vec<TypeParam>,
    pub params: Vec<Param>,
    pub ret: Option<Type>,
    pub uses: Vec<Path>,
    pub body: Block,
    pub span: Span,
}

#[derive(Debug)]
pub struct FieldDecl {
    pub name: Ident,
    pub ty: Type,
    pub span: Span,
}

#[derive(Debug)]
pub struct StructDecl {
    pub name: Ident,
    pub exported: bool,
    pub type_params: Vec<TypeParam>,
    pub fields: Vec<FieldDecl>,
    pub span: Span,
}

#[derive(Debug)]
pub enum VariantPayload {
    Unit,
    Tuple(Vec<Type>),
    Struct(Vec<FieldDecl>),
}

#[derive(Debug)]
pub struct VariantDecl {
    pub name: Ident,
    pub payload: VariantPayload,
    pub span: Span,
}

#[derive(Debug)]
pub struct EnumDecl {
    pub name: Ident,
    pub exported: bool,
    pub type_params: Vec<TypeParam>,
    pub variants: Vec<VariantDecl>,
    pub span: Span,
}

#[derive(Debug)]
pub struct TraitMember {
    pub name: Ident,
    pub is_task: bool,
    pub type_params: Vec<TypeParam>,
    pub params: Vec<Param>,
    pub ret: Option<Type>,
    pub span: Span,
}

#[derive(Debug)]
pub struct TraitDecl {
    pub name: Ident,
    pub exported: bool,
    pub type_params: Vec<TypeParam>,
    pub members: Vec<TraitMember>,
    pub span: Span,
}

#[derive(Debug)]
pub struct ImplDecl {
    pub type_params: Vec<TypeParam>,
    pub trait_path: Path,
    pub receiver: Type,
    pub fns: Vec<FnDecl>,
    pub span: Span,
}

/// How many messages an input holds, and what happens to one more.
#[derive(Debug)]
pub struct Queue {
    pub capacity: Expr,
    pub overflow: Ident,
    pub span: Span,
}

#[derive(Debug)]
pub struct HandlerParam {
    pub name: Ident,
    pub ty: Option<Type>,
    pub span: Span,
}

#[derive(Debug)]
pub enum MemberKind {
    Input { name: Ident, ty: Type, queue: Queue },
    State { name: Ident, ty: Type, init: Expr },
    Signal { name: Ident, exported: bool, ty: Option<Type>, body: Expr },
    On { input: Ident, params: Vec<HandlerParam>, queue: Option<Queue>, body: Block },
}

#[derive(Debug)]
pub struct Member {
    pub kind: MemberKind,
    pub span: Span,
}

#[derive(Debug)]
pub struct ReactorDecl {
    pub name: Ident,
    pub exported: bool,
    pub params: Vec<Param>,
    pub uses: Vec<Path>,
    pub members: Vec<Member>,
    pub span: Span,
}

#[derive(Debug)]
pub enum Item {
    Fn(FnDecl),
    Struct(StructDecl),
    Enum(EnumDecl),
    Reactor(ReactorDecl),
    Trait(TraitDecl),
    Impl(ImplDecl),
}

#[derive(Debug)]
pub struct ImportItem {
    pub name: Ident,
    pub alias: Option<Ident>,
    pub span: Span,
}

#[derive(Debug)]
pub enum ImportKind {
    /// `import * as name`.
    Namespace(Ident),
    /// `import { a, b as c }`.
    Named(Vec<ImportItem>),
}

#[derive(Debug)]
pub struct ImportDecl {
    pub specifier: String,
    pub specifier_span: Span,
    pub kind: ImportKind,
}

#[derive(Debug)]
pub struct Module {
    pub imports: Vec<ImportDecl>,
    pub items: Vec<Item>,
}

// ---------------------------------------------------------------- paths

/// The segments of a path, as text.
pub open spec fn idents(s: Seq<Ident>) -> Seq<Seq<char>> {
    Seq::new(s.len(), |i: int| s[i].name@)
}

impl Path {
    pub open spec fn names(&self) -> Seq<Seq<char>> {
        seq![self.head.name@] + idents(self.rest@)
    }

    /// The path as it was written.
    pub open spec fn text(&self) -> Seq<char> {
        joined(self.names(), "."@)
    }

    /// One segment, counted from the head.
    pub open spec fn segment(&self, i: int) -> Ident {
        if i == 0 {
            self.head
        } else {
            self.rest@[i - 1]
        }
    }

    pub open spec fn last(&self) -> Ident {
        self.segment(self.rest@.len() as int)
    }

    pub fn last_segment(&self) -> (r: &Ident)
        ensures
            *r == self.last(),
    {
        if self.rest.len() == 0 {
            &self.head
        } else {
            &self.rest[self.rest.len() - 1]
        }
    }

    pub fn written(&self) -> (r: String)
        ensures
            r@ == self.text(),
    {
        let mut parts: Vec<String> = Vec::new();
        parts.push(self.head.name.clone());
        assert(texts(parts@) =~= seq![self.head.name@] + idents(self.rest@).take(0));
        for i in 0..self.rest.len()
            invariant
                texts(parts@) == seq![self.head.name@] + idents(self.rest@).take(i as int),
        {
            let ghost before = texts(parts@);
            parts.push(self.rest[i].name.clone());
            assert(texts(parts@) =~= before.push(self.rest@[i as int].name@));
            assert(idents(self.rest@).take(i + 1) =~= idents(self.rest@).take(i as int).push(
                self.rest@[i as int].name@,
            ));
            assert(texts(parts@) =~= seq![self.head.name@] + idents(self.rest@).take(i + 1));
        }
        assert(idents(self.rest@).take(self.rest.len() as int) =~= idents(self.rest@));
        join(&parts, ".")
    }
}

// ---------------------------------------------------------------- operators

impl UnOp {
    pub open spec fn text(self) -> Seq<char> {
        match self {
            UnOp::Neg => "-"@,
            UnOp::Not => "!"@,
            UnOp::Ref => "&"@,
            UnOp::RefMut => "&mut"@,
        }
    }

    pub fn written(self) -> (r: &'static str)
        ensures
            r@ == self.text(),
    {
        match self {
            UnOp::Neg => "-",
            UnOp::Not => "!",
            UnOp::Ref => "&",
            UnOp::RefMut => "&mut",
        }
    }
}

impl BinOp {
    pub open spec fn text(self) -> Seq<char> {
        match self {
            BinOp::Add => "+"@,
            BinOp::Sub => "-"@,
            BinOp::Mul => "*"@,
            BinOp::Div => "/"@,
            BinOp::Rem => "%"@,
            BinOp::Eq => "=="@,
            BinOp::Ne => "!="@,
            BinOp::Lt => "<"@,
            BinOp::Le => "<="@,
            BinOp::Gt => ">"@,
            BinOp::Ge => ">="@,
            BinOp::And => "&&"@,
            BinOp::Or => "||"@,
        }
    }

    pub fn written(self) -> (r: &'static str)
        ensures
            r@ == self.text(),
    {
        match self {
            BinOp::Add => "+",
            BinOp::Sub => "-",
            BinOp::Mul => "*",
            BinOp::Div => "/",
            BinOp::Rem => "%",
            BinOp::Eq => "==",
            BinOp::Ne => "!=",
            BinOp::Lt => "<",
            BinOp::Le => "<=",
            BinOp::Gt => ">",
            BinOp::Ge => ">=",
            BinOp::And => "&&",
            BinOp::Or => "||",
        }
    }
}

} // verus!
