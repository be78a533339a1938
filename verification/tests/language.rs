//! Whole programs, written in a small notation and checked.

use norn_hir::ast;
use norn_hir::check::{check, check_modules, Checked, CheckedModules, ModuleInput};
use norn_hir::hir::{
    BuiltinDef, Capability, Ctor, Expr, ExprKind, FnDef, FnId, LocalRole, Mode, NodeKind, Overflow,
    Program, Resource, Ty, Vocabulary,
};
use norn_hir::span::{Diagnostic, Span};

// ---------------------------------------------------------------- the notation

#[derive(Clone, Debug, PartialEq)]
enum Tok {
    Word(String),
    Int(i64),
    Text(String),
    Sign(&'static str),
    End,
}

const SIGNS: [&str; 34] = [
    "::", "->", "=>", "==", "!=", "<=", ">=", "&&", "||", "..", "(", ")", "{", "}", "[", "]", "<",
    ">", ",", ":", ";", ".", "=", "+", "-", "*", "/", "%", "!", "&", "?", "|", "@", "#",
];

fn tokens(source: &str) -> Vec<(Tok, Span)> {
    let bytes = source.as_bytes();
    let mut out = Vec::new();
    let mut at = 0;
    while at < bytes.len() {
        let c = bytes[at] as char;
        if c.is_whitespace() {
            at += 1;
            continue;
        }
        let from = at;
        if c.is_ascii_digit() {
            while at < bytes.len() && (bytes[at] as char).is_ascii_digit() {
                at += 1;
            }
            out.push((Tok::Int(source[from..at].parse().unwrap()), Span::new(from, at)));
            continue;
        }
        if c.is_ascii_alphabetic() || c == '_' {
            while at < bytes.len()
                && ((bytes[at] as char).is_ascii_alphanumeric() || bytes[at] == b'_')
            {
                at += 1;
            }
            out.push((Tok::Word(source[from..at].to_string()), Span::new(from, at)));
            continue;
        }
        if c == '"' {
            at += 1;
            while bytes[at] != b'"' {
                at += 1;
            }
            at += 1;
            out.push((Tok::Text(source[from + 1..at - 1].to_string()), Span::new(from, at)));
            continue;
        }
        let sign = SIGNS.iter().find(|s| source[at..].starts_with(**s));
        match sign {
            Some(s) => {
                at += s.len();
                out.push((Tok::Sign(s), Span::new(from, at)));
            }
            None => panic!("unreadable: {}", &source[at..]),
        }
    }
    out.push((Tok::End, Span::new(at, at)));
    out
}

struct Reader {
    toks: Vec<(Tok, Span)>,
    at: usize,
}

impl Reader {
    fn peek(&self) -> &Tok {
        &self.toks[self.at].0
    }

    fn here(&self) -> Span {
        self.toks[self.at].1
    }

    fn last(&self) -> Span {
        self.toks[self.at - 1].1
    }

    fn since(&self, from: Span) -> Span {
        from.to(self.last())
    }

    fn sees(&self, sign: &str) -> bool {
        matches!(self.peek(), Tok::Sign(s) if *s == sign)
    }

    fn sees_word(&self, word: &str) -> bool {
        matches!(self.peek(), Tok::Word(w) if w == word)
    }

    fn take(&mut self, sign: &str) -> bool {
        let found = self.sees(sign);
        if found {
            self.at += 1;
        }
        found
    }

    fn take_word(&mut self, word: &str) -> bool {
        let found = self.sees_word(word);
        if found {
            self.at += 1;
        }
        found
    }

    fn need(&mut self, sign: &str) {
        if !self.take(sign) {
            panic!("expected {} at {:?}, found {:?}", sign, self.here(), self.peek());
        }
    }

    fn need_word(&mut self, word: &str) {
        if !self.take_word(word) {
            panic!("expected {} at {:?}, found {:?}", word, self.here(), self.peek());
        }
    }

    fn ident(&mut self) -> ast::Ident {
        match self.peek().clone() {
            Tok::Word(name) => {
                self.at += 1;
                ast::Ident { name, span: self.last() }
            }
            other => panic!("expected a name at {:?}, found {:?}", self.here(), other),
        }
    }

    fn text(&mut self) -> (String, Span) {
        match self.peek().clone() {
            Tok::Text(text) => {
                self.at += 1;
                (text, self.last())
            }
            other => panic!("expected a string at {:?}, found {:?}", self.here(), other),
        }
    }

    fn path(&mut self) -> ast::Path {
        let head = self.ident();
        let from = head.span;
        let mut rest = Vec::new();
        while self.take(".") {
            rest.push(self.ident());
        }
        ast::Path { head, rest, span: self.since(from) }
    }

    fn ty(&mut self) -> ast::Type {
        let from = self.here();
        let kind = if self.take("(") {
            self.need(")");
            ast::TypeKind::Unit
        } else if self.take("&") {
            let mutable = self.take_word("mut");
            ast::TypeKind::Ref { mutable, inner: Box::new(self.ty()) }
        } else {
            let path = self.path();
            let args = self.ty_args("<");
            ast::TypeKind::Path { path, args }
        };
        ast::Type { kind, span: self.since(from) }
    }

    fn ty_args(&mut self, open: &str) -> Vec<ast::Type> {
        let mut args = Vec::new();
        if self.take(open) {
            while !self.take(">") {
                args.push(self.ty());
                self.take(",");
            }
        }
        args
    }

    fn expr(&mut self) -> ast::Expr {
        self.binary(0)
    }

    fn binary(&mut self, level: usize) -> ast::Expr {
        if level == 5 {
            return self.unary();
        }
        let from = self.here();
        let mut lhs = self.binary(level + 1);
        while let Some(op) = self.operator(level) {
            let rhs = self.binary(level + 1);
            lhs = ast::Expr {
                kind: ast::ExprKind::Binary { op, lhs: Box::new(lhs), rhs: Box::new(rhs) },
                span: self.since(from),
            };
        }
        lhs
    }

    fn operator(&mut self, level: usize) -> Option<ast::BinOp> {
        let table: &[(&str, ast::BinOp)] = match level {
            0 => &[("||", ast::BinOp::Or)],
            1 => &[("&&", ast::BinOp::And)],
            2 => &[
                ("==", ast::BinOp::Eq),
                ("!=", ast::BinOp::Ne),
                ("<=", ast::BinOp::Le),
                (">=", ast::BinOp::Ge),
                ("<", ast::BinOp::Lt),
                (">", ast::BinOp::Gt),
            ],
            3 => &[("+", ast::BinOp::Add), ("-", ast::BinOp::Sub)],
            _ => &[("*", ast::BinOp::Mul), ("/", ast::BinOp::Div), ("%", ast::BinOp::Rem)],
        };
        for (sign, op) in table {
            if self.take(sign) {
                return Some(*op);
            }
        }
        None
    }

    fn unary(&mut self) -> ast::Expr {
        let from = self.here();
        let op = if self.take("-") {
            ast::UnOp::Neg
        } else if self.take("!") {
            ast::UnOp::Not
        } else if self.take("&") {
            if self.take_word("mut") {
                ast::UnOp::RefMut
            } else {
                ast::UnOp::Ref
            }
        } else {
            return self.postfix();
        };
        let expr = Box::new(self.unary());
        ast::Expr { kind: ast::ExprKind::Unary { op, expr }, span: self.since(from) }
    }

    fn postfix(&mut self) -> ast::Expr {
        let from = self.here();
        let mut e = self.primary();
        loop {
            let kind = if self.sees("(") || self.sees("::") {
                let type_args = if self.take("::") { self.ty_args("<") } else { Vec::new() };
                let args = self.args();
                ast::ExprKind::Call { callee: Box::new(e), type_args, args }
            } else if self.take("?") {
                ast::ExprKind::Try(Box::new(e))
            } else if self.take(".") {
                ast::ExprKind::Field { base: Box::new(e), name: self.ident() }
            } else if self.take("[") {
                let index = Box::new(self.expr());
                self.need("]");
                ast::ExprKind::Index { base: Box::new(e), index }
            } else {
                return e;
            };
            e = ast::Expr { kind, span: self.since(from) };
        }
    }

    fn args(&mut self) -> Vec<ast::Arg> {
        self.need("(");
        let mut args = Vec::new();
        while !self.take(")") {
            let from = self.here();
            let named = matches!(self.peek(), Tok::Word(_))
                && matches!(self.toks[self.at + 1].0, Tok::Sign(":"));
            let name = if named {
                let name = self.ident();
                self.need(":");
                Some(name)
            } else {
                None
            };
            let value = self.expr();
            args.push(ast::Arg { name, value, span: self.since(from) });
            self.take(",");
        }
        args
    }

    fn primary(&mut self) -> ast::Expr {
        let from = self.here();
        let kind = match self.peek().clone() {
            Tok::Int(value) => {
                self.at += 1;
                ast::ExprKind::Int(value)
            }
            Tok::Text(text) => {
                self.at += 1;
                ast::ExprKind::Str(text)
            }
            Tok::Sign("{") => ast::ExprKind::Block(self.block()),
            Tok::Sign("(") => {
                self.at += 1;
                if self.take(")") {
                    ast::ExprKind::Unit
                } else {
                    let inner = self.expr();
                    self.need(")");
                    return inner;
                }
            }
            Tok::Sign("|") => {
                self.at += 1;
                let mut params = Vec::new();
                while !self.take("|") {
                    params.push(self.one_pat());
                    self.take(",");
                }
                ast::ExprKind::Lambda { params, body: Box::new(self.expr()) }
            }
            Tok::Word(word) => match word.as_str() {
                "true" => {
                    self.at += 1;
                    ast::ExprKind::Bool(true)
                }
                "false" => {
                    self.at += 1;
                    ast::ExprKind::Bool(false)
                }
                "if" => self.if_(),
                "while" => {
                    self.at += 1;
                    let cond = Box::new(self.expr());
                    ast::ExprKind::While { cond, body: self.block() }
                }
                "loop" => {
                    self.at += 1;
                    ast::ExprKind::Loop { body: self.block() }
                }
                "break" => {
                    self.at += 1;
                    let value = if self.sees(";") || self.sees("}") {
                        None
                    } else {
                        Some(Box::new(self.expr()))
                    };
                    ast::ExprKind::Break { value }
                }
                "continue" => {
                    self.at += 1;
                    ast::ExprKind::Continue
                }
                "match" => self.match_(),
                "await" => {
                    self.at += 1;
                    ast::ExprKind::Await(Box::new(self.unary()))
                }
                "scope" => {
                    self.at += 1;
                    ast::ExprKind::Scope(self.block())
                }
                "spawn" => {
                    self.at += 1;
                    if self.take_word("reactor") {
                        let path = self.path();
                        ast::ExprKind::SpawnReactor { path, args: self.args() }
                    } else {
                        ast::ExprKind::Spawn(Box::new(self.unary()))
                    }
                }
                _ => ast::ExprKind::Path(self.path()),
            },
            other => panic!("expected an expression at {:?}, found {:?}", from, other),
        };
        ast::Expr { kind, span: self.since(from) }
    }

    fn if_(&mut self) -> ast::ExprKind {
        self.need_word("if");
        let cond = Box::new(self.expr());
        let then = self.block();
        let els = if self.take_word("else") {
            let from = self.here();
            let kind = if self.sees_word("if") {
                self.if_()
            } else {
                ast::ExprKind::Block(self.block())
            };
            Some(Box::new(ast::Expr { kind, span: self.since(from) }))
        } else {
            None
        };
        ast::ExprKind::If { cond, then, els }
    }

    fn match_(&mut self) -> ast::ExprKind {
        self.need_word("match");
        let scrutinee = Box::new(self.expr());
        self.need("{");
        let mut arms = Vec::new();
        while !self.take("}") {
            let from = self.here();
            let pat = self.pat();
            let guard = if self.take_word("if") { Some(self.expr()) } else { None };
            self.need("=>");
            let body = self.expr();
            arms.push(ast::Arm { pat, guard, body, span: self.since(from) });
            self.take(",");
        }
        ast::ExprKind::Match { scrutinee, arms }
    }

    fn pat(&mut self) -> ast::Pat {
        let from = self.here();
        let first = self.one_pat();
        if !self.sees("|") {
            return first;
        }
        let mut alts = vec![first];
        while self.take("|") {
            alts.push(self.one_pat());
        }
        ast::Pat { kind: ast::PatKind::Or(alts), span: self.since(from) }
    }

    fn one_pat(&mut self) -> ast::Pat {
        let from = self.here();
        let kind = match self.peek().clone() {
            Tok::Int(value) => {
                self.at += 1;
                ast::PatKind::Int(value)
            }
            Tok::Text(text) => {
                self.at += 1;
                ast::PatKind::Str(text)
            }
            _ => {
                if self.take_word("_") {
                    ast::PatKind::Wild
                } else if self.take_word("true") {
                    ast::PatKind::Bool(true)
                } else if self.take_word("false") {
                    ast::PatKind::Bool(false)
                } else {
                    let path = self.path();
                    if self.sees("(") {
                        self.construct(path)
                    } else if path.rest.is_empty() {
                        ast::PatKind::Binding(path.head)
                    } else {
                        ast::PatKind::Construct { path, args: Vec::new(), rest: false }
                    }
                }
            }
        };
        ast::Pat { kind, span: self.since(from) }
    }

    fn construct(&mut self, path: ast::Path) -> ast::PatKind {
        self.need("(");
        let mut args = Vec::new();
        let mut rest = false;
        while !self.take(")") {
            if self.take("..") {
                rest = true;
                continue;
            }
            let named = matches!(self.toks[self.at + 1].0, Tok::Sign(":"));
            let name = if named {
                let name = self.ident();
                self.need(":");
                Some(name)
            } else {
                None
            };
            args.push(ast::PatArg { name, pat: self.pat() });
            self.take(",");
        }
        ast::PatKind::Construct { path, args, rest }
    }

    fn block(&mut self) -> ast::Block {
        let from = self.here();
        self.need("{");
        let mut stmts = Vec::new();
        while !self.take("}") {
            if self.take(";") {
                continue;
            }
            stmts.push(self.stmt());
        }
        ast::Block { stmts, span: self.since(from) }
    }

    fn stmt(&mut self) -> ast::Stmt {
        let from = self.here();
        let kind = if self.take_word("let") {
            let mutable = self.take_word("mut");
            let name = self.ident();
            let ty = if self.take(":") { Some(self.ty()) } else { None };
            self.need("=");
            ast::StmtKind::Let { mutable, name, ty, value: self.expr() }
        } else if self.take_word("return") {
            if self.sees(";") || self.sees("}") {
                ast::StmtKind::Return(None)
            } else {
                ast::StmtKind::Return(Some(self.expr()))
            }
        } else if self.take_word("after") {
            let task = self.expr();
            let reply = if self.take("->") { Some(self.ident()) } else { None };
            ast::StmtKind::After { task, reply }
        } else {
            let e = self.expr();
            if self.take("=") {
                ast::StmtKind::Assign { target: e, value: self.expr() }
            } else {
                ast::StmtKind::Expr(e)
            }
        };
        ast::Stmt { kind, span: self.since(from) }
    }

    fn type_params(&mut self) -> Vec<ast::TypeParam> {
        let mut params = Vec::new();
        if self.take("<") {
            while !self.take(">") {
                let name = self.ident();
                let from = name.span;
                let mut bounds = Vec::new();
                if self.take(":") {
                    bounds.push(self.path());
                    while self.take("+") {
                        bounds.push(self.path());
                    }
                }
                params.push(ast::TypeParam { name, bounds, span: self.since(from) });
                self.take(",");
            }
        }
        params
    }

    fn params(&mut self) -> Vec<ast::Param> {
        self.need("(");
        let mut params = Vec::new();
        while !self.take(")") {
            let name = self.ident();
            let from = name.span;
            self.need(":");
            let at = self.here();
            let mode = if self.take_word("sink") {
                ast::ParamMode::Sink(at)
            } else if self.take_word("mut") {
                ast::ParamMode::Mut(at)
            } else {
                ast::ParamMode::Read
            };
            let ty = self.ty();
            params.push(ast::Param { name, mode, ty, span: self.since(from) });
            self.take(",");
        }
        params
    }

    fn ret(&mut self) -> Option<ast::Type> {
        if self.take("->") {
            Some(self.ty())
        } else {
            None
        }
    }

    fn uses(&mut self) -> Vec<ast::Path> {
        let mut uses = Vec::new();
        if self.take_word("uses") {
            self.need("{");
            while !self.take("}") {
                uses.push(self.path());
                self.take(",");
            }
        }
        uses
    }

    fn function(&mut self, exported: bool) -> ast::FnDecl {
        let from = self.here();
        let is_task = self.take_word("task");
        self.need_word("fn");
        let name = self.ident();
        let type_params = self.type_params();
        let params = self.params();
        let ret = self.ret();
        let uses = self.uses();
        let body = self.block();
        ast::FnDecl {
            name,
            exported,
            is_task,
            type_params,
            params,
            ret,
            uses,
            body,
            span: self.since(from),
        }
    }

    fn fields(&mut self) -> Vec<ast::FieldDecl> {
        self.need("{");
        let mut fields = Vec::new();
        while !self.take("}") {
            let name = self.ident();
            let from = name.span;
            self.need(":");
            let ty = self.ty();
            fields.push(ast::FieldDecl { name, ty, span: self.since(from) });
            self.take(",");
        }
        fields
    }

    fn enum_(&mut self, exported: bool) -> ast::EnumDecl {
        let from = self.here();
        self.need_word("enum");
        let name = self.ident();
        let type_params = self.type_params();
        self.need("{");
        let mut variants = Vec::new();
        while !self.take("}") {
            let name = self.ident();
            let from = name.span;
            let payload = if self.take("(") {
                let mut types = Vec::new();
                while !self.take(")") {
                    types.push(self.ty());
                    self.take(",");
                }
                ast::VariantPayload::Tuple(types)
            } else if self.sees("{") {
                ast::VariantPayload::Struct(self.fields())
            } else {
                ast::VariantPayload::Unit
            };
            variants.push(ast::VariantDecl { name, payload, span: self.since(from) });
            self.take(",");
        }
        ast::EnumDecl { name, exported, type_params, variants, span: self.since(from) }
    }

    fn trait_(&mut self, exported: bool) -> ast::TraitDecl {
        let from = self.here();
        self.need_word("trait");
        let name = self.ident();
        let type_params = self.type_params();
        self.need("{");
        let mut members = Vec::new();
        while !self.take("}") {
            let from = self.here();
            let is_task = self.take_word("task");
            self.need_word("fn");
            let name = self.ident();
            let type_params = self.type_params();
            let params = self.params();
            let ret = self.ret();
            members.push(ast::TraitMember {
                name,
                is_task,
                type_params,
                params,
                ret,
                span: self.since(from),
            });
            self.take(";");
        }
        ast::TraitDecl { name, exported, type_params, members, span: self.since(from) }
    }

    fn queue(&mut self) -> ast::Queue {
        let from = self.here();
        self.need("[");
        self.need_word("capacity");
        self.need(":");
        let capacity = self.expr();
        self.need(",");
        self.need_word("overflow");
        self.need(":");
        let overflow = self.ident();
        self.need("]");
        ast::Queue { capacity, overflow, span: self.since(from) }
    }

    fn member(&mut self) -> ast::Member {
        let from = self.here();
        let exported = self.take_word("export");
        let kind = if self.take_word("input") {
            let name = self.ident();
            self.need(":");
            let ty = self.ty();
            ast::MemberKind::Input { name, ty, queue: self.queue() }
        } else if self.take_word("state") {
            let name = self.ident();
            self.need(":");
            let ty = self.ty();
            self.need("=");
            ast::MemberKind::State { name, ty, init: self.expr() }
        } else if self.take_word("signal") {
            let name = self.ident();
            let ty = if self.take(":") { Some(self.ty()) } else { None };
            self.need("=");
            ast::MemberKind::Signal { name, exported, ty, body: self.expr() }
        } else {
            self.need_word("on");
            let input = self.ident();
            self.need("(");
            let mut params = Vec::new();
            while !self.take(")") {
                let name = self.ident();
                let from = name.span;
                let ty = if self.take(":") { Some(self.ty()) } else { None };
                params.push(ast::HandlerParam { name, ty, span: self.since(from) });
                self.take(",");
            }
            let queue = if self.sees("[") { Some(self.queue()) } else { None };
            ast::MemberKind::On { input, params, queue, body: self.block() }
        };
        let span = self.since(from);
        self.take(";");
        ast::Member { kind, span }
    }

    fn item(&mut self) -> ast::Item {
        let exported = self.take_word("export");
        let from = self.here();
        if self.sees_word("enum") {
            return ast::Item::Enum(self.enum_(exported));
        }
        if self.sees_word("trait") {
            return ast::Item::Trait(self.trait_(exported));
        }
        if self.take_word("struct") {
            let name = self.ident();
            let type_params = self.type_params();
            let fields = self.fields();
            let span = self.since(from);
            return ast::Item::Struct(ast::StructDecl { name, exported, type_params, fields, span });
        }
        if self.take_word("impl") {
            let type_params = self.type_params();
            let trait_path = self.path();
            self.need_word("for");
            let receiver = self.ty();
            let span = self.since(from);
            self.need("{");
            let mut fns = Vec::new();
            while !self.take("}") {
                fns.push(self.function(false));
            }
            return ast::Item::Impl(ast::ImplDecl { type_params, trait_path, receiver, fns, span });
        }
        if self.take_word("reactor") {
            let name = self.ident();
            let params = if self.sees("(") { self.params() } else { Vec::new() };
            let uses = self.uses();
            let span = self.since(from);
            self.need("{");
            let mut members = Vec::new();
            while !self.take("}") {
                members.push(self.member());
            }
            return ast::Item::Reactor(ast::ReactorDecl {
                name,
                exported,
                params,
                uses,
                members,
                span,
            });
        }
        ast::Item::Fn(self.function(exported))
    }

    fn import(&mut self) -> ast::ImportDecl {
        self.need_word("import");
        let kind = if self.take("*") {
            self.need_word("as");
            ast::ImportKind::Namespace(self.ident())
        } else {
            self.need("{");
            let mut items = Vec::new();
            while !self.take("}") {
                let name = self.ident();
                let from = name.span;
                let alias = if self.take_word("as") { Some(self.ident()) } else { None };
                items.push(ast::ImportItem { name, alias, span: self.since(from) });
                self.take(",");
            }
            ast::ImportKind::Named(items)
        };
        self.need_word("from");
        let (specifier, specifier_span) = self.text();
        self.take(";");
        ast::ImportDecl { specifier, specifier_span, kind }
    }
}

fn read(source: &str) -> ast::Module {
    let mut r = Reader { toks: tokens(source), at: 0 };
    let mut imports = Vec::new();
    while r.sees_word("import") {
        imports.push(r.import());
    }
    let mut items = Vec::new();
    while *r.peek() != Tok::End {
        items.push(r.item());
    }
    ast::Module { imports, items }
}

// ---------------------------------------------------------------- a vocabulary

fn builtin(name: &str, params: Vec<(Ty, Mode)>, ret: Ty) -> BuiltinDef {
    BuiltinDef {
        name: name.to_string(),
        params,
        ret,
        pure_call: true,
        is_task: false,
        needs: Vec::new(),
    }
}

fn vocabulary() -> Vocabulary {
    let mut print = builtin("print", vec![(Ty::Str, Mode::Read)], Ty::Unit);
    print.pure_call = false;
    let mut open = builtin("open", vec![(Ty::Str, Mode::Read)], Ty::Resource(Resource::File));
    open.pure_call = false;
    let mut close = builtin("close", vec![(Ty::Resource(Resource::File), Mode::Sink)], Ty::Unit);
    close.pure_call = false;
    let mut sleep = builtin("sleep", vec![(Ty::I64, Mode::Read)], Ty::Task(Box::new(Ty::Unit)));
    sleep.is_task = true;
    sleep.pure_call = false;
    sleep.needs = vec![Capability(1)];
    let mut send = builtin(
        "send",
        vec![(Ty::Error, Mode::Read), (Ty::Error, Mode::Sink)],
        Ty::Unit,
    );
    send.is_task = true;
    send.pure_call = false;
    let mut latest = builtin("latest", vec![(Ty::Error, Mode::Read)], Ty::Unit);
    latest.pure_call = false;
    Vocabulary {
        send,
        latest,
        bytes_at: builtin("bytes_at", vec![(Ty::Bytes, Mode::Read), (Ty::I64, Mode::Read)], Ty::I64),
        shared: builtin("shared", vec![(Ty::Error, Mode::Sink)], Ty::Unit),
        slots_new: builtin("slots_new", vec![(Ty::I64, Mode::Read)], Ty::Unit),
        host: vec![print, open, close, sleep, builtin("len", vec![(Ty::Str, Mode::Read)], Ty::I64)],
        capabilities: vec!["net".to_string(), "clock".to_string()],
        io_errors: vec![("NotFound".to_string(), 0), ("Other".to_string(), 1)],
        catalogue: "`std/fmt` and `std/fs`".to_string(),
    }
}

fn one(source: &str) -> Checked {
    check(&read(source), vocabulary())
}

fn messages(errors: &Vec<Diagnostic>) -> Vec<String> {
    errors.iter().map(|d| d.message.clone()).collect()
}

/// What is wrong with a program of one file.
fn wrong(source: &str) -> Vec<String> {
    messages(&one(source).errors)
}

fn accepted(source: &str) -> Program {
    let checked = one(source);
    assert_eq!(messages(&checked.errors), Vec::<String>::new());
    assert!(checked.ok());
    checked.program
}

fn many(sources: &[(&str, &str)]) -> CheckedModules {
    let modules: Vec<ast::Module> = sources.iter().map(|s| read(s.1)).collect();
    let inputs: Vec<ModuleInput> = sources
        .iter()
        .zip(modules.iter())
        .map(|(s, module)| ModuleInput {
            name: s.0.to_string(),
            key: s.0.to_string(),
            module,
        })
        .collect();
    check_modules(&inputs, vocabulary())
}

fn find<'p>(program: &'p Program, name: &str) -> (FnId, &'p FnDef) {
    for (index, def) in program.fns.iter().enumerate() {
        if def.name == name {
            return (FnId(index as u32), def);
        }
    }
    let known: Vec<&String> = program.fns.iter().map(|f| &f.name).collect();
    panic!("no function {} among {:?}", name, known)
}

/// The value a body gives.
fn tail(body: &Expr) -> &Expr {
    match &body.kind {
        ExprKind::Block { tail: Some(tail), .. } => tail,
        _ => body,
    }
}

// ---------------------------------------------------------------- expressions

#[test]
fn an_empty_file_is_a_program() {
    let program = accepted("");
    assert!(program.main.is_none());
    assert_eq!(program.fns.len(), 0);
    let seeded: Vec<&str> = program.enums.iter().map(|e| e.name.as_str()).collect();
    assert_eq!(seeded, vec!["Option", "Result", "IoError"]);
    assert_eq!(program.enums[2].variants[1].fields.len(), 1);
}

#[test]
fn a_function_of_scalars() {
    let program = accepted("fn add(a: I64, b: I64) -> I64 { a + b }  fn main() { let n = add(1, 2); }");
    let (add, def) = find(&program, "add");
    assert_eq!(def.params, 2);
    assert!(matches!(def.ret, Ty::I64));
    assert!(matches!(tail(&def.body).kind, ExprKind::Binary { .. }));
    assert_eq!(program.main, Some(find(&program, "main").0));
    assert_eq!(add.0, 0);
}

#[test]
fn a_result_of_the_wrong_type() {
    assert_eq!(wrong("fn f() -> I64 { true }"), vec!["expected I64, found Bool"]);
}

#[test]
fn an_unknown_name() {
    assert_eq!(wrong("fn f() -> I64 { x }"), vec!["unknown name `x`"]);
}

#[test]
fn an_inner_scope_shadows_and_ends() {
    accepted("fn f() -> I64 { let x = 1; { let x = true; x; } x }");
    assert_eq!(
        wrong("fn f() -> I64 { { let y = 1; } y }"),
        vec!["unknown name `y`"]
    );
}

#[test]
fn errors_come_in_source_order() {
    let checked = one("fn f() { a; }  fn g(x: Missing) { b; }");
    assert_eq!(
        messages(&checked.errors),
        vec!["unknown name `a`", "unknown type `Missing`", "unknown name `b`"]
    );
    let starts: Vec<usize> = checked.errors.iter().map(|d| d.span.start).collect();
    assert!(starts.windows(2).all(|w| w[0] <= w[1]));
    assert!(!checked.ok());
}

#[test]
fn operators_ask_for_their_types() {
    assert_eq!(wrong("fn f() { true + false; }"), vec!["`+` does not apply to Bool"]);
    assert_eq!(wrong("fn f() { -true; }"), vec!["`-` does not apply to Bool"]);
    accepted("fn f() -> Bool { 1 < 2 && !(3 == 4) }");
}

#[test]
fn a_loop_gives_what_it_breaks_with() {
    let program = accepted("fn f() -> I64 { loop { break 7; } }");
    let (_, def) = find(&program, "f");
    assert!(matches!(tail(&def.body).ty, Ty::I64));
    assert_eq!(
        wrong("fn f() { break; }"),
        vec!["`break` is only available inside a loop"]
    );
    assert_eq!(
        wrong("fn f() { while true { break 1; } }"),
        vec!["`break` can only carry a value out of a `loop`"]
    );
    assert_eq!(
        wrong("fn f() { continue; }"),
        vec!["`continue` is only available inside a loop"]
    );
}

#[test]
fn an_if_without_else_gives_nothing() {
    assert_eq!(
        wrong("fn f() { let x = if true { 1 }; }"),
        vec!["an `if` without an `else` must produce (), found I64"]
    );
    accepted("fn f() -> I64 { if true { 1 } else if false { 2 } else { 3 } }");
}

#[test]
fn only_a_mutable_place_is_assigned() {
    accepted("fn f() { let mut x = 1; x = 2; }");
    assert_eq!(
        wrong("fn f() { let x = 1; x = 2; }"),
        vec!["`x` is not declared `mut`"]
    );
    assert_eq!(
        wrong("fn f() { 1 = 2; }"),
        vec!["only a variable or one of its fields can be assigned"]
    );
}

#[test]
fn constructor_names_cannot_be_bound() {
    assert_eq!(wrong("fn f() { let None = 1; }"), vec!["`None` cannot be a binding"]);
    assert_eq!(wrong("fn Some() {}"), vec!["`Some` is a built-in constructor"]);
}

#[test]
fn options_are_settled_by_what_is_expected() {
    accepted("fn f() -> Option<I64> { None }  fn g() -> Option<I64> { Some(1) }");
    assert_eq!(
        wrong("fn f() { let x = None; }"),
        vec!["cannot tell what type `None` builds here"]
    );
    accepted("fn f(r: Result<I64, String>) -> Result<Bool, String> { let x = r?; Ok(x == 1) }");
    assert_eq!(
        wrong("fn f(r: Option<I64>) -> I64 { r? }"),
        vec!["`?` needs the function to return the same shape, but it returns I64"]
    );
}

#[test]
fn functions_are_not_values() {
    assert_eq!(wrong("fn g() {}  fn f() { g; }"), vec!["functions are not values yet"]);
    assert_eq!(wrong("fn f() { |x| 1; }"), vec!["functions are not values yet"]);
    assert_eq!(wrong("fn f() { nothing(); }"), vec!["unknown function `nothing`"]);
}

// ---------------------------------------------------------------- structs, enums and patterns

#[test]
fn named_arguments_go_by_name() {
    let program = accepted(
        "struct Point { x: I64, y: Bool }  fn f() -> Point { Point(y: true, x: 1) }",
    );
    let (_, def) = find(&program, "f");
    match &tail(&def.body).kind {
        ExprKind::Construct { ctor: Ctor::Struct(id), args } => {
            assert_eq!(program.structs[id.0 as usize].name, "Point");
            assert!(matches!(args[0].kind, ExprKind::Int(1)));
            assert!(matches!(args[1].kind, ExprKind::Bool(true)));
        }
        other => panic!("not a construction: {:?}", other),
    }
}

#[test]
fn arguments_that_do_not_fit() {
    let head = "struct Point { x: I64, y: I64 }  fn f() { ";
    let with = |call: &str| wrong(&format!("{}{}; }}", head, call));
    assert_eq!(with("Point(1)"), vec!["`Point` takes 2 fields, found 1"]);
    assert_eq!(with("Point(x: 1)"), vec!["missing field: y"]);
    assert_eq!(with("Point(x: 1, x: 2, y: 3)"), vec!["`x` is given twice"]);
    assert_eq!(with("Point(x: 1, z: 2, y: 3)"), vec!["`Point` has no field named `z`"]);
    assert_eq!(
        with("Point(1, y: 2)"),
        vec!["arguments are either all named or all positional"]
    );
}

#[test]
fn a_field_is_read_and_assigned() {
    accepted(
        "struct P { x: I64 }  fn f() -> I64 { let mut p = P(x: 1); p.x = 2; p.x }",
    );
    assert_eq!(
        wrong("struct P { x: I64 }  fn f(p: P) -> I64 { p.z }"),
        vec!["`P` has no field `z`"]
    );
    assert_eq!(wrong("fn f(p: I64) -> I64 { p.z }"), vec!["I64 has no fields"]);
}

#[test]
fn a_match_covers_every_variant() {
    let head = "enum Color { Red, Green, Mix(I64, I64) }  fn f(c: Color) -> I64 { match c ";
    accepted(&format!("{}{{ Color.Red => 1, Color.Green => 2, Color.Mix(a, _) => a }} }}", head));
    accepted(&format!("{}{{ Color.Red => 1, _ => 2 }} }}", head));
    assert_eq!(
        wrong(&format!("{}{{ Color.Red => 1, Color.Mix(_, _) => 2 }} }}", head)),
        vec!["this `match` does not cover Color.Green"]
    );
    assert_eq!(
        wrong(&format!("{}{{ Color.Red => 1, Color.Mix(_) => 2, _ => 3 }} }}", head)),
        vec!["`Color.Mix` has 2 fields, found 1"]
    );
    assert_eq!(
        wrong(&format!("{}{{ Color.Red if true => 1, Color.Green | Color.Mix(_, _) => 2 }} }}", head)),
        vec!["this `match` does not cover Color.Red"]
    );
}

#[test]
fn a_match_on_integers_needs_a_catch_all() {
    assert_eq!(
        wrong("fn f(n: I64) -> I64 { match n { 1 => 2, 3 => 4 } }"),
        vec!["this `match` on I64 needs a catch-all arm"]
    );
    accepted("fn f(n: I64) -> I64 { match n { 1 => 2, other => other } }");
    assert_eq!(
        wrong("fn f(n: I64) { match n {} }"),
        vec!["a `match` needs at least one arm"]
    );
}

#[test]
fn struct_patterns_name_their_fields() {
    let head = "struct P { x: I64, y: I64 }  fn f(p: P) -> I64 { match p ";
    accepted(&format!("{}{{ P(x: a, ..) => a }} }}", head));
    assert_eq!(
        wrong(&format!("{}{{ P(x: _) => 1, _ => 2 }} }}", head)),
        vec!["missing fields: y"]
    );
    assert_eq!(
        wrong(&format!("{}{{ P(x: _, x: _, ..) => 1, _ => 2 }} }}", head)),
        vec!["`x` is matched twice"]
    );
}

#[test]
fn a_name_is_declared_once() {
    assert_eq!(
        wrong("struct P { x: I64 }  enum P { A }"),
        vec!["`P` is declared twice"]
    );
    assert_eq!(
        wrong("struct P { x: I64, x: Bool }"),
        vec!["field `x` is declared twice"]
    );
    assert_eq!(wrong("fn f() {}  fn f() {}"), vec!["`f` is declared twice"]);
    assert_eq!(
        wrong("struct P { x: I64 }  fn P() {}"),
        vec!["`P` is already the name of a struct"]
    );
}

// ---------------------------------------------------------------- generics

#[test]
fn a_template_is_copied_for_its_arguments() {
    let program = accepted(
        "fn same<T>(x: T) -> T { x }  fn f() -> I64 { same(true); same(2); same(1) }",
    );
    let (template, def) = find(&program, "same");
    assert!(def.inert);
    assert!(matches!(def.body.kind, ExprKind::Unit));
    let copies: Vec<&FnDef> =
        program.fns.iter().filter(|f| f.name.starts_with("same<")).collect();
    let names: Vec<&str> = copies.iter().map(|f| f.name.as_str()).collect();
    // Equal arguments share one copy.
    assert_eq!(names, vec!["same<Bool>", "same<I64>"]);
    assert!(copies.iter().all(|f| !f.inert && f.type_params.is_empty()));
    assert!(matches!(copies[1].locals[0].ty, Ty::I64));
    let (_, f) = find(&program, "f");
    match &tail(&f.body).kind {
        ExprKind::Call { callee, .. } => {
            assert_ne!(*callee, template);
            assert_eq!(program.fns[callee.0 as usize].name, "same<I64>");
        }
        other => panic!("not a call: {:?}", other),
    }
}

#[test]
fn a_template_that_calls_a_template() {
    let program = accepted(
        "fn inner<T>(x: T) -> T { x }  fn outer<U>(y: U) -> U { inner(y) }  \
         fn f() -> Bool { outer(true) }",
    );
    let (inner, _) = find(&program, "inner<Bool>");
    let (_, outer) = find(&program, "outer<Bool>");
    match &tail(&outer.body).kind {
        ExprKind::Call { callee, .. } => assert_eq!(*callee, inner),
        other => panic!("not a call: {:?}", other),
    }
}

#[test]
fn a_template_that_asks_for_ever_deeper_copies() {
    let found = wrong(
        "struct Box<T> { it: T }  fn deep<T>(x: T) { deep(Box(it: x)); }  fn f() { deep(1); }",
    );
    assert_eq!(found, vec!["`deep` instantiates itself at an ever-deeper type"]);
}

#[test]
fn generic_structs_and_enums() {
    let program = accepted(
        "struct Pair<A, B> { first: A, second: B }  \
         fn f() -> I64 { let p = Pair(first: 1, second: true); p.first }  \
         fn g(q: Pair<I64, Bool>) -> Bool { q.second }",
    );
    let made: Vec<&str> = program
        .structs
        .iter()
        .filter(|s| s.name.starts_with("Pair<"))
        .map(|s| s.name.as_str())
        .collect();
    assert_eq!(made, vec!["Pair<I64, Bool>"]);
    assert_eq!(
        wrong("struct Box<T> { it: T }  fn f(b: Box) {}"),
        vec!["`Box` takes 1 type argument, found 0"]
    );
    assert_eq!(
        wrong("enum Maybe<T> { No, Yes(T) }  fn f() { let m = Maybe.No; }"),
        vec!["cannot tell what type `T` is in this construction of `Maybe`"]
    );
    accepted("enum Maybe<T> { No, Yes(T) }  fn f() -> Maybe<I64> { Maybe.Yes(1) }");
}

#[test]
fn a_struct_that_holds_itself_in_an_instance() {
    accepted("struct Box<T> { it: T }  struct Node { next: Option<Box<I64>> }  fn f(n: Node) {}");
}

#[test]
fn a_parameter_that_nothing_pins_down() {
    assert_eq!(
        wrong("fn none<T>() -> I64 { 1 }  fn f() { none(); }"),
        vec!["cannot tell what type `T` is in this call of `none`"]
    );
    accepted("fn none<T>() -> I64 { 1 }  fn f() -> I64 { none::<Bool>() }");
}

#[test]
fn sharing_what_owns_something_is_found_in_the_copy() {
    let checked = one(
        "fn keep<T>(x: sink T) { shared(x); }  fn f() { keep(open(\"a\")); }",
    );
    assert_eq!(messages(&checked.errors), vec!["`shared` cannot take File"]);
    assert_eq!(
        checked.errors[0].label.as_deref(),
        Some("instantiated here with an affine payload")
    );
}

// ---------------------------------------------------------------- traits

#[test]
fn a_method_is_found_through_its_impl() {
    let program = accepted(
        "trait Show { fn show(self: Self) -> I64; }  struct P { x: I64 }  \
         impl Show for P { fn show(self: P) -> I64 { self.x } }  \
         fn f(p: P) -> I64 { p.show() }",
    );
    let (_, f) = find(&program, "f");
    match &tail(&f.body).kind {
        ExprKind::Call { callee, args } => {
            assert_eq!(args.len(), 1);
            assert_eq!(program.fns[callee.0 as usize].params, 1);
        }
        other => panic!("not a call: {:?}", other),
    }
}

#[test]
fn a_bound_is_settled_in_the_copy() {
    let program = accepted(
        "trait Show { fn show(self: Self) -> I64; }  struct P { x: I64 }  \
         impl Show for P { fn show(self: P) -> I64 { self.x } }  \
         fn twice<T: Show>(t: T) -> I64 { t.show() }  fn f(p: P) -> I64 { twice(p) }",
    );
    let (_, copy) = find(&program, "twice<P>");
    match &tail(&copy.body).kind {
        ExprKind::Call { callee, .. } => {
            let def = &program.fns[callee.0 as usize];
            assert!(!def.inert);
            assert!(matches!(def.ret, Ty::I64));
        }
        other => panic!("not a call: {:?}", other),
    }
}

#[test]
fn a_bound_that_is_not_met() {
    assert_eq!(
        wrong(
            "trait Show { fn show(self: Self) -> I64; }  \
             fn twice<T: Show>(t: T) -> I64 { t.show() }  fn f() -> I64 { twice(1) }"
        ),
        vec!["`twice` requires `T: Show`, and `I64` is not `Show`"]
    );
    accepted("fn eq<T: Eq>(a: T, b: T) -> Bool { a == b }  fn f() -> Bool { eq(1, 2) }");
    assert_eq!(
        wrong("struct P { x: I64 }  fn eq<T: Eq>(a: T) {}  fn f(p: P) { eq(p); }"),
        vec!["`eq` requires `T: Eq`, and `P` is not `Eq`"]
    );
}

#[test]
fn one_impl_for_a_trait_and_a_type() {
    assert_eq!(
        wrong(
            "trait T { fn m(self: Self); }  struct P { x: I64 }  \
             impl T for P { fn m(self: P) {} }  impl T for P { fn m(self: P) {} }"
        ),
        vec!["`T` is already implemented for `P`"]
    );
}

#[test]
fn an_impl_answers_for_every_method() {
    assert_eq!(
        wrong("trait T { fn m(self: Self); fn n(self: Self); }  struct P { x: I64 }  impl T for P { fn m(self: P) {} }"),
        vec!["`impl T for P` does not implement `n`"]
    );
    assert_eq!(
        wrong("trait T { fn m(self: Self); }  struct P { x: I64 }  impl T for P { fn m(self: P) {} fn k(self: P) {} }"),
        vec!["`T` has no method `k`"]
    );
    assert_eq!(
        wrong("trait T { fn m(self: Self); }  struct P { x: I64 }  impl T for P { fn m(self: P) -> I64 { 1 } }"),
        vec!["the signature of `m` does not match `T`'s"]
    );
    assert_eq!(
        wrong("impl Eq for I64 {}"),
        vec!["`Eq` cannot be implemented by hand"]
    );
}

// ---------------------------------------------------------------- ownership

#[test]
fn a_handed_over_value_is_gone() {
    assert_eq!(
        wrong("fn f() { let a = open(\"x\"); close(a); close(a); }"),
        vec!["`a` has already been moved"]
    );
    accepted("fn f() { let a = open(\"x\"); close(a); }");
}

#[test]
fn a_body_that_hands_over_makes_its_parameter_a_sink() {
    let program = accepted(
        "fn inner(h: File) { close(h); }  fn outer(h: File) { inner(h); }  fn read(h: File, n: I64) {}",
    );
    assert_eq!(find(&program, "inner").1.modes, vec![Mode::Sink]);
    assert_eq!(find(&program, "outer").1.modes, vec![Mode::Sink]);
    assert_eq!(find(&program, "read").1.modes, vec![Mode::Read, Mode::Read]);
}

// ---------------------------------------------------------------- tasks

#[test]
fn tasks_are_built_and_awaited_in_tasks() {
    accepted("task fn f() uses { clock } { await sleep(1); }");
    assert_eq!(
        wrong("fn f() { sleep(1); }"),
        vec!["only a `task fn` can create a task, and `f` is not one"]
    );
    assert_eq!(
        wrong("task fn f() { await sleep(1); }"),
        vec!["`f` does not declare the capability `clock`"]
    );
    assert_eq!(
        wrong("task fn f() uses { clock } { sleep(1); }"),
        vec!["this builds a task and then discards it"]
    );
    assert_eq!(
        wrong("fn f(n: I64) { await n; }"),
        vec!["`await` is only available inside a `task fn`"]
    );
    assert_eq!(
        wrong("task fn f(n: I64) { await n; }"),
        vec!["`await` applies to a task, not I64"]
    );
    assert_eq!(
        wrong("fn f() uses { clock } {}"),
        vec!["capabilities are only meaningful on a `task fn`"]
    );
    assert_eq!(wrong("task fn f() uses { disk } {}"), vec!["unknown capability `disk`"]);
}
// ---------------------------------------------------------------- reactors

const COUNTER: &str = "reactor Counter(limit: I64) { \
    export signal healthy = open < limit; \
    signal open = opened - closed; \
    state opened: I64 = 0; \
    state closed: I64 = 0; \
    input open_one: () [capacity: 8, overflow: reject]; \
    on open_one() { opened = opened + 1; } \
    on close_some(n: I64) [capacity: 4, overflow: drop_oldest] { closed = closed + n; } \
    signal fixed = limit + 1; }";

#[test]
fn a_reactor_is_put_in_dependency_order() {
    let program = accepted(COUNTER);
    let counter = &program.reactors[0];
    assert_eq!(counter.name, "Counter");
    assert_eq!(counter.params.len(), 1);
    let names: Vec<&str> = counter.nodes.iter().map(|n| n.name.as_str()).collect();
    assert_eq!(names, vec!["limit", "healthy", "open", "opened", "closed", "fixed"]);
    let order: Vec<&str> =
        counter.order.iter().map(|n| names[n.0 as usize]).collect();
    assert_eq!(order, vec!["limit", "opened", "closed", "open", "healthy", "fixed"]);
    let deps: Vec<Vec<&str>> = counter
        .nodes
        .iter()
        .map(|n| n.deps.iter().map(|d| names[d.0 as usize]).collect())
        .collect();
    assert_eq!(deps[1], vec!["open", "limit"]);
    assert_eq!(deps[2], vec!["opened", "closed"]);
    assert!(deps[3].is_empty());
    assert_eq!(deps[5], vec!["limit"]);
    assert!(matches!(counter.nodes[1].ty, Ty::Bool));
    assert!(matches!(counter.nodes[2].ty, Ty::I64));
    assert_eq!(counter.exports.len(), 1);
    assert_eq!(counter.exports[0].0, 1);
    let slots: Vec<&str> = counter.slots.iter().map(|n| names[n.0 as usize]).collect();
    assert_eq!(slots, vec!["limit", "opened", "closed"]);
}

#[test]
fn a_message_touches_what_depends_on_what_it_writes() {
    let program = accepted(COUNTER);
    let counter = &program.reactors[0];
    let name = |n: u32| counter.nodes[n as usize].name.as_str();
    let plan = |i: usize| -> Vec<&str> {
        counter.inputs[i].plan.iter().map(|n| name(n.0)).collect()
    };
    assert_eq!(counter.inputs[0].name, "open_one");
    assert_eq!(counter.inputs[0].capacity, 8);
    assert_eq!(counter.inputs[0].overflow, Overflow::Reject);
    assert_eq!(plan(0), vec!["opened", "open", "healthy"]);
    assert_eq!(counter.inputs[1].name, "close_some");
    assert_eq!(counter.inputs[1].overflow, Overflow::DropOldest);
    assert!(matches!(counter.inputs[1].ty, Ty::I64));
    assert_eq!(plan(1), vec!["closed", "open", "healthy"]);
}

#[test]
fn members_are_lifted_to_functions() {
    let program = accepted(COUNTER);
    let (_, init) = find(&program, "Counter.opened.init");
    assert_eq!(init.params, 0);
    let (_, healthy) = find(&program, "Counter.healthy");
    assert_eq!(healthy.params, 2);
    assert!(matches!(healthy.ret, Ty::Bool));
    assert_eq!(healthy.locals[0].role, LocalRole::Signal);
    assert_eq!(healthy.locals[1].role, LocalRole::Param);
    let (id, handler) = find(&program, "Counter.on.close_some");
    assert_eq!(program.reactors[0].inputs[1].handler, id);
    // The message and every slot, in slot order.
    let roles: Vec<LocalRole> = handler.locals.iter().map(|l| l.role).collect();
    assert_eq!(
        roles,
        vec![
            LocalRole::Message,
            LocalRole::Param,
            LocalRole::State(1),
            LocalRole::State(2)
        ]
    );
    assert_eq!(handler.params, 4);
    assert!(!handler.locals[1].mutable);
    assert!(handler.locals[2].mutable);
    assert!(matches!(program.reactors[0].nodes[1].kind, NodeKind::Signal { .. }));
}

#[test]
fn signals_that_wait_for_each_other() {
    let checked = one("reactor R { signal a = b + 1; signal b = a + 1; }");
    assert_eq!(messages(&checked.errors), vec!["instantaneous causality cycle a → b → a"]);
    let d = &checked.errors[0];
    assert_eq!(d.label.as_deref(), Some("`a` depends on `b`"));
    assert_eq!(d.secondary.len(), 1);
    assert_eq!(d.secondary[0].1, "`b` depends on `a`");
    assert_eq!(d.notes.len(), 2);
}

#[test]
fn a_state_cell_breaks_a_cycle() {
    accepted(
        "reactor R { signal a = b + 1; state b: I64 = 0; \
         on tick() [capacity: 1, overflow: reject] { b = b + 1; } }",
    );
    assert_eq!(
        wrong("reactor R { signal a = a + 1; }"),
        vec!["instantaneous causality cycle a → a"]
    );
}

#[test]
fn an_initialiser_reads_parameters_only() {
    accepted("reactor R(n: I64) { state a: I64 = n + 1; }");
    assert_eq!(
        wrong("reactor R { state a: I64 = b; state b: I64 = 0; }"),
        vec!["a `state` initialiser cannot read the state `b`"]
    );
    assert_eq!(
        wrong("reactor R { state a: I64 = s(); signal s = 1; }"),
        vec!["a `state` initialiser cannot call the signal `s`"]
    );
}

#[test]
fn inputs_and_handlers_come_in_pairs() {
    assert_eq!(
        wrong("reactor R { input a: () [capacity: 1, overflow: reject]; }"),
        vec!["`a` has no `on a` handler"]
    );
    let checked = one(
        "reactor R { input a: () [capacity: 1, overflow: reject]; on a() {} on b() {} }",
    );
    assert_eq!(messages(&checked.errors), vec!["`R` has no input `b`"]);
    assert_eq!(checked.errors[0].notes, vec!["its inputs are: a"]);
    assert_eq!(
        wrong("reactor R { input a: () [capacity: 1, overflow: reject]; on a() {} on a() {} }"),
        vec!["`a` already has a handler"]
    );
}

#[test]
fn a_handler_that_declares_its_input() {
    assert_eq!(
        wrong("reactor R { on a(n: I64) {} }"),
        vec!["a type here declares `a`, so it needs a queue policy"]
    );
    assert_eq!(
        wrong("reactor R { on a(n) [capacity: 1, overflow: reject] {} }"),
        vec!["`a` is declared here, so `n` needs the message type"]
    );
}

#[test]
fn a_handler_binds_its_message() {
    let input = "reactor R { input a: I64 [capacity: 1, overflow: reject]; ";
    accepted(&format!("{}on a(n) {{ let m = n + 1; }} }}", input));
    assert_eq!(
        wrong(&format!("{}on a() {{}} }}", input)),
        vec!["`on a` binds the message it was sent, so it takes one name, not 0"]
    );
    assert_eq!(
        wrong("reactor R { input a: () [capacity: 1, overflow: reject]; on a(n) {} }"),
        vec!["`a` carries no message, so `on a()` binds nothing"]
    );
}

#[test]
fn a_queue_has_a_bound_and_a_policy() {
    let queue = |q: &str| wrong(&format!("reactor R {{ on a() {} {{}} }}", q));
    assert_eq!(
        queue("[capacity: 0, overflow: reject]"),
        vec!["a capacity must be positive"]
    );
    assert_eq!(
        queue("[capacity: 1 + 1, overflow: reject]"),
        vec!["a capacity must be an integer literal"]
    );
    assert_eq!(
        queue("[capacity: 1, overflow: burst]"),
        vec!["unknown overflow policy `burst`"]
    );
    assert_eq!(queue("[capacity: 1, overflow: wait]"), Vec::<String>::new());
}

#[test]
fn member_names_are_distinct() {
    let checked = one("reactor R(a: I64) { state a: I64 = 0; }");
    assert_eq!(messages(&checked.errors), vec!["`a` is declared twice in `R`"]);
    assert_eq!(checked.errors[0].secondary[0].1, "first declared here");
    assert_eq!(
        wrong("reactor R { signal Some = 1; }"),
        vec!["`Some` cannot be the name of a member"]
    );
}

#[test]
fn a_reactor_owns_nothing() {
    assert_eq!(
        wrong("reactor R(f: File) {}"),
        vec!["a reactor's parameter cannot hold a `File`"]
    );
    assert_eq!(
        wrong("reactor R(n: sink I64) {}"),
        vec!["a reactor parameter has no mode"]
    );
}

#[test]
fn a_handler_reads_no_signal_and_a_signal_no_input() {
    assert_eq!(
        wrong("reactor R { state n: I64 = 0; signal s = n; on a() [capacity: 1, overflow: reject] { n = s; } }"),
        vec!["an `on` handler cannot read the signal `s`"]
    );
    assert_eq!(
        wrong("reactor R { signal s = a; on a(n: I64) [capacity: 1, overflow: reject] {} }"),
        vec!["`a` is an input, not a value"]
    );
}

#[test]
fn a_turn_reaches_nothing_impure() {
    let checked = one(
        "fn log() { print(\"x\"); }  reactor R { signal s = { log(); 1 }; }",
    );
    assert_eq!(checked.errors.len(), 1);
    assert_eq!(
        wrong("reactor R { signal s = { print(\"x\"); 1 }; }").len(),
        1
    );
}

#[test]
fn an_effect_is_started_after_the_turn() {
    accepted(
        "task fn work(n: I64) -> I64 uses { clock } { await sleep(n); n }  \
         reactor R uses { clock } { state n: I64 = 0; \
         on done(m: I64) [capacity: 1, overflow: reject] { n = m; } \
         on go() [capacity: 1, overflow: reject] { after work(n) -> done; } }",
    );
    assert_eq!(
        wrong(
            "task fn work() uses { clock } { await sleep(1); }  fn f() { after work(); }"
        ),
        vec!["`after` is only available inside an `on` handler"]
    );
}

#[test]
fn spawning_and_sending() {
    accepted(
        "reactor R(n: I64) { export signal s = n; on a(m: I64) [capacity: 1, overflow: reject] {} }  \
         task fn f() { scope { let r = spawn reactor R(1); await send(r.a, 2); let v = latest(r.s); let w = v + 1; } }",
    );
    assert_eq!(
        wrong("reactor R {}  task fn f() { spawn reactor R(); }"),
        vec!["`spawn reactor` must appear inside a `scope`"]
    );
    assert_eq!(
        wrong("task fn f() { scope { spawn reactor Q(); } }"),
        vec!["unknown reactor `Q`"]
    );
}

// ---------------------------------------------------------------- several files

#[test]
fn an_import_binds_a_name() {
    let checked = many(&[
        (
            "main.norn",
            "import { digits, Point as P } from \"./fmt\"; fn main() -> I64 { let p = P(x: 1); digits(p.x) }",
        ),
        (
            "fmt.norn",
            "export fn digits(n: I64) -> I64 { n } export struct Point { x: I64 }",
        ),
    ]);
    assert!(checked.ok());
    assert_eq!(checked.errors.len(), 2);
    // A file other than the first puts its own name before what it declares.
    find(&checked.program, "main");
    find(&checked.program, "fmt.digits");
}

#[test]
fn a_namespace_import() {
    let checked = many(&[
        (
            "main.norn",
            "import * as fmt from \"./fmt\"; fn main() -> I64 { fmt.digits(1) }",
        ),
        ("fmt.norn", "export fn digits(n: I64) -> I64 { n }"),
    ]);
    assert!(checked.ok());
}

#[test]
fn two_files_may_import_each_other() {
    let checked = many(&[
        (
            "a.norn",
            "import { g } from \"./b\"; export fn f(n: I64) -> I64 { g(n) }",
        ),
        (
            "b.norn",
            "import { f } from \"./a\"; export fn g(n: I64) -> I64 { f(n) }",
        ),
    ]);
    assert!(checked.ok());
}

#[test]
fn each_bad_import_is_told_once() {
    let checked = many(&[
        (
            "main.norn",
            "import { hidden, missing, shown } from \"./fmt\"; \
             import { shown } from \"./fmt\"; \
             import * as print from \"./fmt\"; \
             import { x } from \"fmt\"; \
             import { x } from \"./fmt.norn\"; \
             import { x } from \"./main\"; \
             import { x } from \"std/nothing\"; \
             import { x } from \"./nowhere\"; \
             fn f() { shown(); }",
        ),
        ("fmt.norn", "fn hidden() {} export fn shown() {}"),
    ]);
    assert_eq!(
        messages(&checked.errors[0]),
        vec![
            "`hidden` is not exported by `./fmt`",
            "`missing` is not defined in `./fmt`",
            "the imported name `shown` is already taken",
            "the imported name `print` is already taken",
            "`fmt` does not name a module",
            "the `.norn` extension is implied",
            "a file cannot import itself",
            "no module `std/nothing` in the standard library",
            "cannot find module `./nowhere`",
        ]
    );
    let labels: Vec<Option<&str>> =
        checked.errors[0].iter().map(|d| d.label.as_deref()).collect();
    assert_eq!(labels[2], Some("bound by an earlier import"));
    assert_eq!(labels[3], Some("a built-in function"));
    assert_eq!(
        checked.errors[0][7].notes,
        vec!["the standard library provides `std/fmt` and `std/fs`"]
    );
    assert_eq!(checked.errors[0][8].notes, vec!["expected a module at `nowhere.norn`"]);
    assert!(checked.errors[1].is_empty());
    assert!(!checked.ok());
}

#[test]
fn what_an_imported_name_collides_with() {
    let label = |import: &str, rest: &str| -> String {
        let source = format!("import {} from \"./b\"; {}", import, rest);
        let checked = many(&[
            ("a.norn", source.as_str()),
            ("b.norn", "export fn it() {}"),
        ]);
        checked.errors[0][0].label.clone().unwrap()
    };
    assert_eq!(label("{ it as Some }", ""), "a built-in constructor");
    assert_eq!(label("{ it as send }", ""), "a built-in function");
    assert_eq!(label("{ it, it }", ""), "bound by an earlier import");
    assert_eq!(label("{ it as f }", "fn f() {}"), "declared in this file");
    assert_eq!(label("{ it as I64 }", ""), "a built-in type");
    assert_eq!(label("{ it as Eq }", ""), "a built-in trait");
}

#[test]
fn errors_belong_to_their_files() {
    let checked = many(&[
        ("a.norn", "fn f() -> I64 { 1 }"),
        ("b.norn", "fn f() -> I64 { true }"),
    ]);
    assert!(checked.errors[0].is_empty());
    assert_eq!(messages(&checked.errors[1]), vec!["expected I64, found Bool"]);
}

#[test]
fn an_impl_lives_with_its_trait_or_its_type() {
    let checked = many(&[
        (
            "a.norn",
            "import { T } from \"./b\"; import { P } from \"./c\"; impl T for P { fn m(self: P) {} }",
        ),
        ("b.norn", "export trait T { fn m(self: Self); }"),
        ("c.norn", "export struct P { x: I64 }"),
    ]);
    assert_eq!(
        messages(&checked.errors[0]),
        vec!["this impl lives in neither `b.T`'s module nor `P`'s"]
    );
}

#[test]
fn a_stem_prefixes_what_other_files_declare() {
    let checked = many(&[
        ("src/main.norn", "fn main() {}"),
        ("src/util/text.norn", "fn trim() {}  reactor Gate { state n: I64 = 0; }"),
    ]);
    assert!(checked.ok());
    find(&checked.program, "main");
    find(&checked.program, "text.trim");
    find(&checked.program, "text.Gate.n.init");
    assert_eq!(checked.program.reactors[0].name, "text.Gate");
}

#[test]
fn only_the_entry_has_a_main() {
    let checked = many(&[
        ("a.norn", "fn start() {}"),
        ("b.norn", "fn main() {}"),
    ]);
    assert!(checked.program.main.is_none());
}

#[test]
fn an_effect_does_not_wait_for_room() {
    let source = |policy: &str| {
        format!(
            "reactor Sink {{ on put(n: I64) [capacity: 1, overflow: {}] {{}} }}  \
             task fn tell(s: Sink) {{ await send(s.put, 1); }}  \
             reactor Source(s: Sink) {{ on go() [capacity: 1, overflow: reject] {{ after tell(s); }} }}",
            policy
        )
    };
    assert_eq!(wrong(&source("reject")), Vec::<String>::new());
    assert_eq!(wrong(&source("wait")).len(), 1);
}

#[test]
fn a_mode_that_was_written_stays() {
    let program = accepted("fn keep(h: sink File) { close(h); }  fn look(n: I64) {}");
    assert_eq!(find(&program, "keep").1.modes, vec![Mode::Sink]);
    assert_eq!(find(&program, "look").1.modes, vec![Mode::Read]);
}

#[test]
fn a_turn_reaches_no_loop_and_no_recursion() {
    assert_eq!(
        wrong("fn spin() { while true {} }  reactor R { signal s = { spin(); 1 }; }").len(),
        1
    );
    assert_eq!(
        wrong("fn again() { again(); }  reactor R { signal s = { again(); 1 }; }").len(),
        1
    );
}

#[test]
fn a_name_bound_in_a_body_is_no_dependency() {
    let program = accepted(
        "reactor R { signal a = { let b = 1; b + 1 }; signal b = a + 1; }",
    );
    let names: Vec<Vec<u32>> = program.reactors[0]
        .nodes
        .iter()
        .map(|n| n.deps.iter().map(|d| d.0).collect())
        .collect();
    assert_eq!(names, vec![vec![], vec![0]]);
}

#[test]
fn a_called_signal_is_typed_first() {
    let program = accepted(
        "reactor R { state n: I64 = 0; signal total = twice(n) + 1; signal twice = n + n; }",
    );
    let order: Vec<u32> = program.reactors[0].order.iter().map(|n| n.0).collect();
    assert_eq!(order, vec![0, 2, 1]);
}

// ---------------------------------------------------------------- more of the same, at the edges

#[test]
fn options_and_results_are_matched_bare() {
    accepted(
        "fn f(o: Option<I64>) -> I64 { match o { Some(n) => n, None => 0 } }  \
         fn g(r: Result<I64, String>) -> I64 { match r { Ok(n) => n, Err(_) => 0 } }",
    );
    assert_eq!(
        wrong("fn f(o: Option<I64>) -> I64 { match o { Some(n) => n } }"),
        vec!["this `match` does not cover Option.None"]
    );
    assert_eq!(
        wrong("fn f(n: I64) -> I64 { match n { Some(m) => m, _ => 0 } }"),
        vec!["unknown name `m`", "`Some` matches Option or Result, but the value is I64"]
            .into_iter()
            .rev()
            .collect::<Vec<&str>>()
    );
    assert_eq!(
        wrong("fn f(o: Option<I64>) -> I64 { match o { Option.Most(n) => 1, _ => 0 } }"),
        vec!["`Option` has no variant `Most`"]
    );
}

#[test]
fn alternatives_bind_nothing() {
    assert_eq!(
        wrong("enum E { A(I64), B(I64) }  fn f(e: E) -> I64 { match e { E.A(n) | E.B(n) => 1, _ => 2 } }"),
        vec!["an alternative pattern may not bind names yet"]
    );
    accepted("enum E { A, B, C }  fn f(e: E) -> I64 { match e { E.A | E.B => 1, E.C => 2 } }");
}

#[test]
fn literals_are_matched_by_their_own_type() {
    assert_eq!(
        wrong("fn f(n: I64) -> I64 { match n { true => 1, _ => 2 } }"),
        vec!["this pattern matches Bool, but the value is I64"]
    );
    accepted("fn f(b: Bool, s: String) -> I64 { match b { true => 1, _ => match s { \"a\" => 2, _ => 3 } } }");
}

#[test]
fn arms_agree_on_a_type() {
    assert_eq!(
        wrong("fn f(n: I64) { let x = match n { 1 => 2, _ => true }; }"),
        vec!["expected I64, found Bool"]
    );
    assert_eq!(
        wrong("fn f(b: Bool) { let x = if b { 1 } else { \"a\" }; }"),
        vec!["expected I64, found String"]
    );
}

#[test]
fn a_borrow_lasts_for_its_call() {
    accepted("fn look(f: &File) {}  fn g() { let h = open(\"a\"); look(&h); close(h); }");
    assert_eq!(
        wrong("fn f(h: File) { let b = &h; }"),
        vec!["`b` would be a borrow"]
    );
    assert_eq!(
        wrong("fn f() -> &I64 { 1 }"),
        vec!["a reference cannot be written here"]
    );
    assert_eq!(
        wrong("fn f(x: &mut I64) {}"),
        vec!["`&mut` has no meaning yet"]
    );
    assert_eq!(
        wrong("fn look(f: &File) {}  fn g(h: File) { look(h); }").len(),
        1
    );
}

#[test]
fn only_bytes_are_indexed() {
    accepted("fn f(b: Bytes) -> I64 { b[0] }");
    assert_eq!(
        wrong("fn f(s: String) -> I64 { s[0] }"),
        vec!["only `Bytes` can be indexed in v0, not String"]
    );
    assert_eq!(
        wrong("fn f(b: Bytes) -> I64 { b[true] }"),
        vec!["expected I64, found Bool"]
    );
}

#[test]
fn failures_go_up_by_their_own_type() {
    assert_eq!(
        wrong("fn f(r: Result<I64, String>) -> Result<I64, Bool> { Ok(r?) }"),
        vec!["this fails with String, but the function fails with Bool"]
    );
    accepted("fn f(o: Option<I64>) -> Option<Bool> { let n = o?; Some(n == 1) }");
    assert_eq!(
        wrong("fn f(n: I64) -> Option<I64> { Some(n?) }"),
        vec!["`?` applies to Result and Option, not I64"]
    );
}

#[test]
fn types_that_cannot_be_written() {
    assert_eq!(
        wrong("fn f(s: Signal<I64>) {}"),
        vec!["`Signal` is not a type that can be written"]
    );
    accepted("fn f(s: Flow<Bytes>) {}");
    assert_eq!(
        wrong("fn f(s: Flow<I64>) {}"),
        vec!["the only flow in v0 is `Flow<Bytes>`"]
    );
    assert_eq!(
        wrong("fn f(r: Result<I64>) {}"),
        vec!["`Result` takes 2 type arguments, found 1"]
    );
    assert_eq!(
        wrong("fn f(n: I64<Bool>) {}"),
        vec!["`I64` takes no type arguments"]
    );
}

#[test]
fn values_that_are_not_values() {
    assert_eq!(
        wrong("struct P { x: I64 }  fn f() { let p = P; }"),
        vec!["unknown name `P`"]
    );
    assert_eq!(
        wrong("enum E { A, B(I64) }  fn f() { let e = E.C; }"),
        vec!["`E` has no variant `C`"]
    );
    assert_eq!(
        wrong("enum E { A, B(I64) }  fn f() { let e = E.B; }"),
        vec!["`E.B` carries a payload"]
    );
    assert_eq!(
        wrong("reactor R {}  fn f() { let r = R; }"),
        vec!["unknown name `R`"]
    );
    assert_eq!(
        wrong("trait T {}  fn f() { let t = T; }"),
        vec!["`T` is a trait, not a value"]
    );
}

#[test]
fn callees_that_are_not_functions() {
    assert_eq!(
        wrong("enum E { A }  fn f() { E(); }"),
        vec!["`E` is an enum"]
    );
    assert_eq!(
        wrong("reactor R {}  fn f() { R(); }"),
        vec!["`R` is a reactor"]
    );
    assert_eq!(
        wrong("fn f() { (1)(); }"),
        vec!["only a named function or a method can be called"]
    );
    assert_eq!(
        wrong("fn f<T>(x: T) { T(); }"),
        vec!["`T` is a type parameter, not a constructor"]
    );
    assert_eq!(
        wrong("fn g() {}  fn f() { g::<I64>(); }"),
        vec!["`g` takes no type arguments"]
    );
    assert_eq!(
        wrong("fn f() { print(1, 2); }"),
        vec!["`print` takes 1 positional argument"]
    );
}

#[test]
fn methods_come_from_traits() {
    let head = "trait A { fn m(self: Self) -> I64; }  trait B { fn m(self: Self) -> I64; }  \
                struct P { x: I64 }  impl A for P { fn m(self: P) -> I64 { 1 } }  ";
    let with = |rest: &str| wrong(&format!("{}{}", head, rest));
    assert_eq!(with("fn f(p: P) -> I64 { p.m() }"), Vec::<String>::new());
    assert_eq!(with("fn f(p: P) -> I64 { p.k() }"), vec!["P has no method `k`"]);
    assert_eq!(
        with("fn f(p: P) -> I64 { p.x() }"),
        vec!["`x` is a field of P, not a method"]
    );
    assert_eq!(
        with("impl B for P { fn m(self: P) -> I64 { 2 } }  fn f(p: P) -> I64 { p.m() }"),
        vec!["P has more than one method named `m`"]
    );
    assert_eq!(
        with("fn f<T>(t: T) -> I64 { t.m() }"),
        vec!["a bare `T` has no methods"]
    );
    assert_eq!(
        with("fn f<T: A + B>(t: T) -> I64 { t.m() }"),
        vec!["more than one of `T`'s bounds provides `m`"]
    );
    assert_eq!(
        with("fn f<T: A>(t: T) -> I64 { t.k() }"),
        vec!["none of `T`'s bounds provides `k`"]
    );
}

#[test]
fn bounds_stand_on_functions() {
    assert_eq!(
        wrong("struct B<T: Eq> { it: T }"),
        vec!["`T` cannot declare a bound here"]
    );
    assert_eq!(
        wrong("fn f<T, T>(x: T) {}"),
        vec!["type parameter `T` is declared twice"]
    );
    assert_eq!(
        wrong("fn f<Self>() {}"),
        vec!["`Self` cannot be a type parameter"]
    );
    assert_eq!(
        wrong("fn f<T: Missing>(x: T) {}"),
        vec!["unknown trait `Missing`"]
    );
    assert_eq!(wrong("fn main<T>() {}"), vec!["`main` cannot be generic"]);
}

#[test]
fn a_trait_says_what_its_members_are() {
    assert_eq!(
        wrong("trait T { fn m(x: I64); }"),
        vec!["`m`'s first parameter must be `Self`"]
    );
    assert_eq!(
        wrong("trait T<U> { fn m(self: Self); }"),
        vec!["a trait takes no type parameters yet"]
    );
    assert_eq!(
        wrong("trait T { task fn m(self: Self); }"),
        vec!["a trait member is a plain `fn` for now"]
    );
    assert_eq!(
        wrong("trait T { fn m(self: Self, x: sink I64); }  struct P { y: I64 }  impl T for P { fn m(self: P, x: I64) {} }"),
        vec!["`m` and `T`'s declaration disagree about `sink`"]
    );
    assert_eq!(
        wrong("trait T { fn m(self: Self); }  impl T for Option<I64> { fn m(self: Option<I64>) {} }"),
        vec!["Option<I64> cannot implement a trait"]
    );
}

#[test]
fn a_namespace_reaches_what_is_exported() {
    let other = "export struct P { x: I64 }  export enum E { A, B }  export reactor R { }  \
                 fn hidden() {}  export trait T {}";
    let with = |rest: &str| {
        let source = format!("import * as m from \"./b\"; {}", rest);
        messages(&many(&[("a.norn", source.as_str()), ("b.norn", other)]).errors[0])
    };
    assert_eq!(
        with("fn f() -> m.P { m.P(x: 1) }  fn g(p: m.P) -> I64 { match p { m.P(x: n) => n } }"),
        Vec::<String>::new()
    );
    assert_eq!(with("fn f() -> m.E { m.E.A }"), Vec::<String>::new());
    assert_eq!(with("fn f() { m.hidden(); }"), vec!["`hidden` is not exported by `m`"]);
    assert_eq!(with("fn f() { m.nothing(); }"), vec!["`nothing` is not defined in `m`"]);
    assert_eq!(with("fn f(t: m.T) {}"), vec!["`m.T` is a trait"]);
    assert_eq!(with("fn f() { let p = m.P; }"), vec!["`m.P` is a struct, not a value"]);
    assert_eq!(with("fn f() { let r = m.R; }"), vec!["`m.R` is a reactor, not a value"]);
    assert_eq!(with("fn f() { let e = m.E; }"), vec!["`m.E` is an enum"]);
    assert_eq!(with("fn f() { let x = m; }"), vec!["`m` is a module namespace, not a value"]);
    assert_eq!(
        with("task fn f() { scope { let r = spawn reactor m.R(); } }"),
        Vec::<String>::new()
    );
}

#[test]
fn what_a_turn_may_not_do() {
    let turn = |body: &str| wrong(&format!("reactor R {{ signal s = {{ {}; 1 }}; }}", body));
    assert_eq!(turn("let x = 1"), Vec::<String>::new());
    assert_eq!(turn("while true {}").len(), 1);
    assert_eq!(turn("await sleep(1)").len(), 1);
    assert_eq!(turn("scope {}").len(), 1);
    assert_eq!(
        wrong("reactor R { state n: I64 = 0; signal s = { n = 1; n }; }"),
        vec!["`n` can only be assigned inside an `on` handler"]
    );
    assert_eq!(
        wrong("reactor R(p: I64) { on a() [capacity: 1, overflow: reject] { p = 1; } }"),
        vec!["`p` is a reactor parameter"]
    );
    assert_eq!(
        wrong("reactor R { on a(m: I64) [capacity: 1, overflow: reject] { m = 1; } }"),
        vec!["`m` is the message this handler was given"]
    );
    assert_eq!(
        wrong("reactor R { signal s = 1; on a() [capacity: 1, overflow: reject] { s = 1; } }"),
        vec!["`s` is a signal, and a signal is never assigned"]
    );
}

#[test]
fn an_effect_and_its_reply() {
    let head = "task fn work() -> I64 { 1 }  reactor R { on done(b: Bool) [capacity: 1, overflow: reject] {} \
                on go() [capacity: 1, overflow: reject] { ";
    let with = |body: &str| wrong(&format!("{}{}; }} }}", head, body));
    assert_eq!(
        with("after work() -> done"),
        vec!["this effect produces I64, but `done` takes Bool"]
    );
    assert_eq!(
        with("after work()"),
        vec!["this effect produces I64, and nothing would receive it"]
    );
    assert_eq!(with("after work() -> gone"), vec!["`R` has no input `gone`"]);
    assert_eq!(
        with("after 1"),
        vec!["`after` describes work to start later, and this is I64"]
    );
}

#[test]
fn spawned_tasks_give_nothing_back() {
    assert_eq!(
        wrong("task fn w() -> I64 { 1 }  task fn f() { scope { spawn w(); } }"),
        vec!["`spawn` needs a task that produces (), and this one produces I64"]
    );
    accepted("task fn w() {}  task fn f() { scope { spawn w(); } }");
    assert_eq!(
        wrong("fn f() { scope {} }"),
        vec!["a `scope` is only available inside a `task fn`"]
    );
}

#[test]
fn moving_out_of_one_branch() {
    assert_eq!(
        wrong("fn f(b: Bool) { let h = open(\"x\"); if b { close(h); } close(h); }").len(),
        1
    );
    accepted("fn f(b: Bool) { let h = open(\"x\"); if b { close(h); } else { close(h); } }");
    assert_eq!(
        wrong("fn f() { let h = open(\"x\"); while true { close(h); } }").len(),
        1
    );
}

#[test]
fn one_enum_for_equal_arguments() {
    let program = accepted(
        "enum Maybe<T> { No, Yes(T) }  fn f() -> Maybe<I64> { Maybe.Yes(1) }  \
         fn g(m: Maybe<I64>) -> Maybe<I64> { Maybe.No }  fn h() -> Maybe<Bool> { Maybe.No }",
    );
    let made: Vec<&str> = program
        .enums
        .iter()
        .filter(|e| e.name.starts_with("Maybe<"))
        .map(|e| e.name.as_str())
        .collect();
    assert_eq!(made, vec!["Maybe<I64>", "Maybe<Bool>"]);
}

#[test]
fn the_first_argument_settles_a_parameter() {
    assert_eq!(
        wrong("fn pair<T>(a: T, b: T) {}  fn f() { pair(1, true); }"),
        vec!["expected I64, found Bool"]
    );
}

#[test]
fn ordinary_values_copy_unless_they_are_handed_over() {
    accepted("fn f(n: I64) -> I64 { let m = n; n + m }");
    assert_eq!(
        wrong("fn take(n: sink I64) {}  fn f() -> I64 { let n = 1; take(n); n }").len(),
        1
    );
}

#[test]
fn a_struct_owns_what_its_fields_own() {
    assert_eq!(
        wrong("struct Holder { n: I64, f: File }  reactor R(h: Holder) {}"),
        vec!["a reactor's parameter cannot hold a `Holder`"]
    );
    accepted("struct Plain { n: I64 }  reactor R(p: Plain) {}");
}

#[test]
fn an_effect_runs_its_arguments_in_the_turn() {
    let source = |argument: &str| {
        format!(
            "fn quiet() -> I64 {{ 1 }}  fn noisy() -> I64 {{ print(\"x\"); 1 }}  \
             task fn work(n: I64) {{}}  \
             reactor R {{ on go() [capacity: 1, overflow: reject] {{ after work({}()); }} }}",
            argument
        )
    };
    assert_eq!(wrong(&source("quiet")), Vec::<String>::new());
    assert_eq!(wrong(&source("noisy")).len(), 1);
    // What the task itself does is not part of the turn.
    accepted(
        "task fn work() { print(\"x\"); }  \
         reactor R { on go() [capacity: 1, overflow: reject] { after work(); } }",
    );
}

#[test]
fn capabilities_stand_in_the_order_of_the_vocabulary() {
    let program = accepted("task fn f() uses { clock, net, clock } {}");
    assert_eq!(find(&program, "f").1.uses, vec![Capability(0), Capability(1)]);
}

#[test]
fn an_effect_that_is_itself_a_waiting_send() {
    let found = |policy: &str| {
        let source = format!(
            "reactor Sink {{ on put(n: I64) [capacity: 1, overflow: {}] {{}} }}  \
             reactor Source(s: Sink) {{ on go() [capacity: 1, overflow: reject] {{ after send(s.put, 1); }} }}",
            policy
        );
        let mut host = vocabulary();
        host.send.pure_call = true;
        let checked = check(&read(&source), host);
        let at = source.find("after").unwrap();
        assert!(checked.errors.iter().all(|d| d.span.start == at));
        assert!(checked.errors.iter().all(|d| d.secondary.len() == 1 && d.notes.len() == 2));
        messages(&checked.errors)
    };
    assert_eq!(found("reject"), Vec::<String>::new());
    assert_eq!(found("wait"), vec!["this sends to `Sink.put`, a `wait` input"]);
}

#[test]
fn a_jump_on_the_right_of_and_may_not_happen() {
    let gone = vec!["`c` has already been moved"];
    let with = |jump: &str| {
        wrong(&format!(
            "fn f(a: Bool, b: Bool) {{ let c = open(\"x\"); if a {{ close(c); {} }} close(c); }}",
            jump
        ))
    };
    assert_eq!(with("let d = b && { return };"), gone);
    assert_eq!(with("let d = b || { return };"), gone);
    assert_eq!(with("return;"), Vec::<String>::new());
    // What is left of the operator always runs.
    assert_eq!(with("let d = { return } && b;"), Vec::<String>::new());
    // A move on the right that comes to its end counts; one that jumps away does not.
    assert_eq!(
        wrong("fn f(b: Bool) { let c = open(\"x\"); let d = b && { close(c); true }; close(c); }"),
        gone
    );
    accepted("fn f(b: Bool) { let c = open(\"x\"); let d = b && { close(c); return }; close(c); }");
}

#[test]
fn a_jump_to_a_loop_on_the_right_of_and() {
    let with = |jump: &str| {
        wrong(&format!(
            "fn f(a: Bool, b: Bool) {{ loop {{ let c = open(\"x\"); if a {{ close(c); let d = b && {{ {} }}; }} close(c); break; }} }}",
            jump
        ))
    };
    let gone = vec!["`c` has already been moved"];
    assert_eq!(with("break"), gone);
    assert_eq!(with("continue"), gone);
}

#[test]
fn a_guard_that_jumps_ends_its_own_arm() {
    let with = |arms: &str| {
        wrong(&format!(
            "fn f(a: Bool, n: I64) {{ let c = open(\"x\"); if a {{ close(c); match n {{ {} }} }} close(c); }}",
            arms
        ))
    };
    let gone = vec!["`c` has already been moved"];
    assert_eq!(with("1 if { return } => {}, _ => {}"), gone);
    assert_eq!(with("1 if { return } => {}, _ => { return; }"), Vec::<String>::new());
    assert_eq!(with("1 if true => { return; }, _ => { return; }"), Vec::<String>::new());
}

#[test]
fn a_condition_that_breaks_reaches_past_its_loop() {
    let with = |condition: &str| {
        wrong(&format!(
            "fn f(a: Bool) {{ let c = open(\"x\"); if a {{ close(c); while {{ {} }} {{}} }} close(c); }}",
            condition
        ))
    };
    assert_eq!(with("break"), vec!["`c` has already been moved"]);
    assert_eq!(with("a"), vec!["`c` has already been moved"]);
    assert_eq!(with("return"), Vec::<String>::new());
    assert_eq!(with("return; break"), Vec::<String>::new());
}

#[test]
fn reading_an_input_points_at_its_handler() {
    let checked = one("reactor R { signal s = a; on a(n: I64) [capacity: 1, overflow: reject] {} }");
    assert_eq!(
        checked.errors[0].notes,
        vec!["respond to it with `on {name}(…) {{ … }}`; a node body cannot read one"]
    );
}

#[test]
fn a_refused_copy_adds_no_function() {
    let program = one(
        "struct Box<T> { it: T }  fn deep<T>(x: T) { deep(Box(it: x)); deep(Box(it: x)); }  fn f() { deep(1); }",
    )
    .program;
    let mut names: Vec<&str> = program.fns.iter().map(|f| f.name.as_str()).collect();
    let all = names.len();
    names.sort();
    names.dedup();
    assert_eq!(names.len(), all);
}

#[test]
fn type_arguments_that_nothing_takes_are_not_looked_at() {
    assert_eq!(
        wrong("struct P { x: I64 }  fn f(p: P<Nope>) {}"),
        vec!["`P` takes no type arguments"]
    );
    assert_eq!(
        wrong("enum E { A }  fn f(e: E<Nope, I64>) {}"),
        vec!["`E` takes no type arguments"]
    );
    assert_eq!(wrong("fn f(n: Nope<Gone>) {}"), vec!["`Nope` takes no type arguments"]);
    assert_eq!(wrong("fn f(n: Nope) {}"), vec!["unknown type `Nope`"]);
    // A template looks at what it is given.
    assert_eq!(
        wrong("struct Box<T> { it: T }  fn f(b: Box<Nope>) {}"),
        vec!["unknown type `Nope`"]
    );
    let checked = many(&[
        ("a.norn", "import * as m from \"./b\"; fn f(p: m.P<Nope>) {}"),
        ("b.norn", "export struct P { x: I64 }"),
    ]);
    assert_eq!(messages(&checked.errors[0]), vec!["`m.P` takes no type arguments"]);
}
