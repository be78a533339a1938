//! What a file declares, what its import specifiers name, and the names its imports bind.

use vstd::prelude::*;
use vstd::string::*;
use crate::ast;
use crate::binding::is_builtin_variant;
use crate::call::builtin_named;
use crate::checker::{decls_of, ns_of, pending_of, targets_of, Checker};
use crate::hir::FnId;
use crate::reports;
use crate::resolve::not_exported;
use crate::say;
use crate::span::{Diagnostic, Report, Span};
use crate::specifier::{
    ends_with, has_suffix, resolution, resolve_specifier, Key, Resolved, SpecifierError,
};
use crate::state::{builtin_variant, DeclKind, Ns, State, TypeName};
use crate::table::{find, Table};
use crate::text::same;

verus! {

impl State {
    #[verifier::opaque]
    pub open spec fn with_decls(self, m: Map<Seq<char>, (DeclKind, bool)>) -> State {
        if self.current < self.decls.len() {
            State { decls: self.decls.update(self.current as int, m), ..self }
        } else {
            self
        }
    }

    #[verifier::opaque]
    pub open spec fn with_targets(self, list: Seq<Option<usize>>) -> State {
        if self.current < self.import_target.len() {
            State { import_target: self.import_target.update(self.current as int, list), ..self }
        } else {
            self
        }
    }

    /// The file an import of the file being looked at names.
    #[verifier::opaque]
    pub open spec fn target(self, index: int) -> Option<usize> {
        if self.current < self.import_target.len() && 0 <= index
            < self.import_target[self.current as int].len() {
            self.import_target[self.current as int][index]
        } else {
            None
        }
    }

    /// What imports resolve the file being looked at by.
    #[verifier::opaque]
    pub open spec fn key(self) -> Seq<char> {
        if self.current < self.keys.len() {
            self.keys[self.current as int]
        } else {
            ""@
        }
    }

    /// A function import that still needs its id.
    #[verifier::opaque]
    pub open spec fn pending(self, local: Seq<char>, target: usize, source: Seq<char>) -> State {
        State {
            pending_fn_imports: self.pending_fn_imports.push(
                (self.current, local, target, source),
            ),
            ..self
        }
    }

    #[verifier::opaque]
    pub open spec fn nothing_pending(self) -> State {
        State { pending_fn_imports: seq![], ..self }
    }

    /// A function under a name in some file.
    #[verifier::opaque]
    pub open spec fn naming_fn_in(self, module: usize, name: Seq<char>, id: FnId) -> State {
        if module < self.ns.len() {
            let ns = self.ns[module as int];
            State {
                ns: self.ns.update(module as int, Ns { fns: ns.fns.insert(name, id), ..ns }),
                ..self
            }
        } else {
            self
        }
    }
}

// ---------------------------------------------------------------- what a file declares

/// The name an item declares, what it is, and whether others may use it.
pub open spec fn declared(item: ast::Item) -> Option<(Seq<char>, DeclKind, bool)> {
    match item {
        ast::Item::Fn(d) => Some((d.name.name@, DeclKind::Fn, d.exported)),
        ast::Item::Struct(d) => Some((d.name.name@, DeclKind::Struct, d.exported)),
        ast::Item::Enum(d) => Some((d.name.name@, DeclKind::Enum, d.exported)),
        ast::Item::Reactor(d) => Some((d.name.name@, DeclKind::Reactor, d.exported)),
        ast::Item::Trait(d) => Some((d.name.name@, DeclKind::Trait, d.exported)),
        ast::Item::Impl(_) => None,
    }
}

/// The first declaration of a name counts.
pub open spec fn declarations(items: Seq<ast::Item>) -> Map<Seq<char>, (DeclKind, bool)>
    decreases items.len(),
{
    if items.len() == 0 {
        Map::empty()
    } else {
        let front = declarations(items.drop_last());
        match declared(items.last()) {
            Some(d) => if front.dom().contains(d.0) {
                front
            } else {
                front.insert(d.0, (d.1, d.2))
            },
            None => front,
        }
    }
}

#[verifier::opaque]
pub open spec fn collect_decls(s: State, module: ast::Module) -> State {
    s.with_decls(declarations(module.items@))
}

// ---------------------------------------------------------------- what an import names

/// A specifier without the extension, however often it was written.
pub open spec fn trimmed(specifier: Seq<char>) -> Seq<char>
    decreases specifier.len(),
{
    if ends_with(specifier, ".norn"@) && specifier.len() > 0 && ".norn"@.len() > 0 {
        trimmed(specifier.take(specifier.len() - ".norn"@.len()))
    } else {
        specifier
    }
}

/// The file a key stands for, or why there is none.
#[verifier::opaque]
pub open spec fn file_of(
    s: State,
    specifier: Seq<char>,
    span: Span,
    key: Seq<char>,
    std: bool,
) -> Result<usize, Report> {
    if key == s.key() {
        Err(reports::imports_itself(span))
    } else {
        match find(s.key_index, key) {
            Some(index) => Ok(index),
            None => if std {
                Err(reports::no_std_module(span, specifier, s.vocabulary.catalogue))
            } else {
                Err(reports::no_module(span, specifier, key))
            },
        }
    }
}

/// The file an import names, or why it names none.
#[verifier::opaque]
pub open spec fn import_file(s: State, specifier: Seq<char>, span: Span) -> Result<usize, Report> {
    match resolution(s.key(), specifier) {
        Err(SpecifierError::Bare) => Err(reports::bare_specifier(span, specifier)),
        Err(SpecifierError::Extension) => Err(reports::extension_written(span, trimmed(specifier))),
        Ok(Key::File(key)) => file_of(s, specifier, span, key, false),
        Ok(Key::Std(key)) => file_of(s, specifier, span, key, true),
    }
}

pub open spec fn import_files(s: State, imports: Seq<ast::ImportDecl>) -> (
    State,
    Seq<Option<usize>>,
)
    decreases imports.len(),
{
    if imports.len() == 0 {
        (s, seq![])
    } else {
        let r = import_files(s, imports.drop_last());
        match import_file(r.0, imports.last().specifier@, imports.last().specifier_span) {
            Ok(index) => (r.0, r.1.push(Some(index))),
            Err(report) => (r.0.push(report), r.1.push(None)),
        }
    }
}

#[verifier::opaque]
pub open spec fn check_specifiers(s: State, module: ast::Module) -> State {
    let r = import_files(s, module.imports@);
    r.0.with_targets(r.1)
}

// ---------------------------------------------------------------- what an import binds

/// What an imported name would collide with.
#[verifier::opaque]
pub open spec fn import_collision(
    s: State,
    local: Seq<char>,
    claimed: Map<Seq<char>, Span>,
) -> Option<
    Seq<char>,
> {
    if builtin_variant(local) {
        Some("a built-in constructor"@)
    } else if builtin_named(s.vocabulary, local) is Some {
        Some("a built-in function"@)
    } else if claimed.dom().contains(local) {
        Some("bound by an earlier import"@)
    } else if s.namespace_named(local) is Some {
        Some("an imported module"@)
    } else if s.decl(s.current, local) is Some {
        Some("declared in this file"@)
    } else if s.type_named(local) is Some {
        Some("a built-in type"@)
    } else if s.trait_named(local) is Some {
        Some("a built-in trait"@)
    } else {
        None
    }
}

#[verifier::opaque]
pub open spec fn bind_namespace(
    s: State,
    claimed: Map<Seq<char>, Span>,
    name: ast::Ident,
    target: usize,
) -> (State, Map<Seq<char>, Span>) {
    match import_collision(s, name.name@, claimed) {
        Some(what) => (s.push(reports::namespace_taken(name.span, name.name@, what)), claimed),
        None => (s.naming_namespace(name.name@, target), claimed.insert(name.name@, name.span)),
    }
}

/// The name an import binds: its alias, or else the name it has where it is declared.
pub open spec fn local_name(item: ast::ImportItem) -> Seq<char> {
    match item.alias {
        Some(alias) => alias.name@,
        None => item.name.name@,
    }
}

/// A type is bound at once. A reactor is both a type and a reactor.
#[verifier::opaque]
pub open spec fn bind_type(s: State, local: Seq<char>, t: TypeName) -> State {
    match t {
        TypeName::Reactor(id) => s.naming_reactor(local, id).naming_type(local, t),
        _ => s.naming_type(local, t),
    }
}

/// What an import binds, by what it names. A function has no id yet. What the other file refused
/// has its own error there.
#[verifier::opaque]
pub open spec fn bind_kind(
    s: State,
    kind: DeclKind,
    local: Seq<char>,
    target: usize,
    source: Seq<char>,
) -> State {
    match kind {
        DeclKind::Fn => s.pending(local, target, source),
        DeclKind::Trait => match find(s.at(target).traits, source) {
            Some(id) => s.naming_trait(local, id),
            None => s,
        },
        _ => match find(s.at(target).types, source) {
            Some(t) => bind_type(s, local, t),
            None => s,
        },
    }
}

#[verifier::opaque]
pub open spec fn bind_item(
    s: State,
    claimed: Map<Seq<char>, Span>,
    specifier: Seq<char>,
    item: ast::ImportItem,
    target: usize,
) -> (State, Map<Seq<char>, Span>) {
    let source = item.name.name@;
    let local = local_name(item);
    match s.decl(target, source) {
        None => (
            s.push(
                reports::import_undefined(
                    item.name.span,
                    source,
                    specifier,
                    s.module_name(target),
                ),
            ),
            claimed,
        ),
        Some(d) => if !d.1 {
            (s.push(not_exported(s, source, specifier, target, item.name.span)), claimed)
        } else {
            match import_collision(s, local, claimed) {
                Some(what) => (
                    s.push(reports::import_taken(item.span, local, what, source)),
                    claimed,
                ),
                None => (
                    bind_kind(s, d.0, local, target, source),
                    claimed.insert(local, item.span),
                ),
            }
        },
    }
}

pub open spec fn bind_items(
    s: State,
    claimed: Map<Seq<char>, Span>,
    specifier: Seq<char>,
    items: Seq<ast::ImportItem>,
    target: usize,
) -> (State, Map<Seq<char>, Span>)
    decreases items.len(),
{
    if items.len() == 0 {
        (s, claimed)
    } else {
        let r = bind_items(s, claimed, specifier, items.drop_last(), target);
        bind_item(r.0, r.1, specifier, items.last(), target)
    }
}

#[verifier::opaque]
pub open spec fn bind_import(
    s: State,
    claimed: Map<Seq<char>, Span>,
    decl: ast::ImportDecl,
    target: usize,
) -> (State, Map<Seq<char>, Span>) {
    match decl.kind {
        ast::ImportKind::Namespace(name) => bind_namespace(s, claimed, name, target),
        ast::ImportKind::Named(items) => bind_items(
            s,
            claimed,
            decl.specifier@,
            items@,
            target,
        ),
    }
}

/// The imports of a file, of which those that name no file bind nothing.
pub open spec fn bind_each(s: State, imports: Seq<ast::ImportDecl>) -> (
    State,
    Map<Seq<char>, Span>,
)
    decreases imports.len(),
{
    if imports.len() == 0 {
        (s, Map::empty())
    } else {
        let r = bind_each(s, imports.drop_last());
        match r.0.target(imports.len() - 1) {
            Some(target) => bind_import(r.0, r.1, imports.last(), target),
            None => r,
        }
    }
}

#[verifier::opaque]
pub open spec fn bind_imports(s: State, module: ast::Module) -> State {
    bind_each(s, module.imports@).0
}

pub open spec fn bind_fns(s: State, list: Seq<(usize, Seq<char>, usize, Seq<char>)>) -> State
    decreases list.len(),
{
    if list.len() == 0 {
        s
    } else {
        let before = bind_fns(s, list.drop_last());
        let (module, local, target, source) = list.last();
        match find(before.at(target).fns, source) {
            Some(id) => before.naming_fn_in(module, local, id),
            None => before,
        }
    }
}

/// The function imports of all files, once every function has its id.
#[verifier::opaque]
pub open spec fn bind_fn_imports(s: State) -> State {
    bind_fns(s.nothing_pending(), s.pending_fn_imports)
}

// ---------------------------------------------------------------- one name, one meaning

/// No name is of two kinds, and a reactor is also a type.
pub open spec fn apart(ns: Ns) -> bool {
    &&& forall|name: Seq<char>|
        !(#[trigger] ns.types.dom().contains(name) && ns.traits.dom().contains(name))
    &&& forall|name: Seq<char>|
        !(#[trigger] ns.namespaces.dom().contains(name) && ns.types.dom().contains(name))
    &&& forall|name: Seq<char>|
        !(#[trigger] ns.namespaces.dom().contains(name) && ns.traits.dom().contains(name))
    &&& forall|name: Seq<char>| #[trigger]
        ns.reactors.dom().contains(name) ==> ns.types.dom().contains(name)
}

pub open spec fn same_there<V>(a: Map<Seq<char>, V>, b: Map<Seq<char>, V>) -> bool {
    forall|name: Seq<char>| #[trigger]
        a.dom().contains(name) ==> b.dom().contains(name) && b[name] == a[name]
}

/// Every name still means what it did.
pub open spec fn meanings_kept(a: Ns, b: Ns) -> bool {
    &&& same_there(a.types, b.types)
    &&& same_there(a.traits, b.traits)
    &&& same_there(a.namespaces, b.namespaces)
    &&& a.fns == b.fns
    &&& apart(a) ==> same_there(a.reactors, b.reactors) && apart(b)
}

/// In the file being looked at, names were added and none was changed.
pub open spec fn only_named(a: State, b: State) -> bool {
    &&& b.current == a.current
    &&& b.ns.len() == a.ns.len()
    &&& meanings_kept(a.here(), b.here())
}

proof fn only_named_transitive(a: State, b: State, c: State)
    requires
        only_named(a, b),
        only_named(b, c),
    ensures
        only_named(a, c),
{
    let (x, y, z) = (a.here(), b.here(), c.here());
    assert forall|name: Seq<char>| #[trigger] x.types.dom().contains(name) implies z.types.dom().contains(
        name,
    ) && z.types[name] == x.types[name] by {
        assert(y.types.dom().contains(name));
    }
    assert forall|name: Seq<char>| #[trigger]
        x.traits.dom().contains(name) implies z.traits.dom().contains(name) && z.traits[name]
        == x.traits[name] by {
        assert(y.traits.dom().contains(name));
    }
    assert forall|name: Seq<char>| #[trigger]
        x.namespaces.dom().contains(name) implies z.namespaces.dom().contains(name)
        && z.namespaces[name] == x.namespaces[name] by {
        assert(y.namespaces.dom().contains(name));
    }
    if apart(x) {
        assert forall|name: Seq<char>| #[trigger]
            x.reactors.dom().contains(name) implies z.reactors.dom().contains(name)
            && z.reactors[name] == x.reactors[name] by {
            assert(y.reactors.dom().contains(name));
        }
    }
}

proof fn reporting_names_nothing(s: State, r: Report)
    ensures
        only_named(s, s.push(r)),
{
    reveal(State::push);
    reveal(State::here);
    reveal(State::at);
}

/// What is not in the way is of no kind yet.
proof fn free_names_are_free(s: State, local: Seq<char>, claimed: Map<Seq<char>, Span>)
    requires
        import_collision(s, local, claimed) is None,
    ensures
        !s.here().types.dom().contains(local),
        !s.here().traits.dom().contains(local),
        !s.here().namespaces.dom().contains(local),
        !claimed.dom().contains(local),
{
    reveal(import_collision);
    reveal(State::type_named);
    reveal(State::trait_named);
    reveal(State::namespace_named);
}

/// A free name may be given to anything.
proof fn naming_a_free_name(s: State, name: Seq<char>)
    requires
        !s.here().types.dom().contains(name),
        !s.here().traits.dom().contains(name),
        !s.here().namespaces.dom().contains(name),
    ensures
        forall|v: usize| only_named(s, #[trigger] s.naming_namespace(name, v)),
        forall|v: crate::hir::TraitId| only_named(s, #[trigger] s.naming_trait(name, v)),
        forall|v: TypeName| only_named(s, #[trigger] bind_type(s, name, v)),
{
    reveal(State::naming_namespace);
    reveal(State::naming_trait);
    reveal(State::naming_type);
    reveal(State::naming_reactor);
    reveal(State::with_here);
    reveal(State::here);
    reveal(State::at);
    reveal(bind_type);
}

proof fn binding_a_kind_only_names(
    s: State,
    kind: DeclKind,
    local: Seq<char>,
    target: usize,
    source: Seq<char>,
)
    requires
        !s.here().types.dom().contains(local),
        !s.here().traits.dom().contains(local),
        !s.here().namespaces.dom().contains(local),
    ensures
        only_named(s, bind_kind(s, kind, local, target, source)),
{
    naming_a_free_name(s, local);
    reveal(bind_kind);
    reveal(State::pending);
    reveal(State::here);
    reveal(State::at);
}

proof fn binding_items_only_names(
    s: State,
    claimed: Map<Seq<char>, Span>,
    specifier: Seq<char>,
    items: Seq<ast::ImportItem>,
    target: usize,
)
    ensures
        only_named(s, bind_items(s, claimed, specifier, items, target).0),
    decreases items.len(),
{
    if items.len() > 0 {
        binding_items_only_names(s, claimed, specifier, items.drop_last(), target);
        let r = bind_items(s, claimed, specifier, items.drop_last(), target);
        let item = items.last();
        let local = local_name(item);
        reveal(bind_item);
        let source = item.name.name@;
        match r.0.decl(target, source) {
            None => {
                reporting_names_nothing(
                    r.0,
                    reports::import_undefined(
                        item.name.span,
                        source,
                        specifier,
                        r.0.module_name(target),
                    ),
                );
            },
            Some(d) => {
                if !d.1 {
                    reporting_names_nothing(
                        r.0,
                        not_exported(r.0, source, specifier, target, item.name.span),
                    );
                } else {
                    match import_collision(r.0, local, r.1) {
                        Some(what) => {
                            reporting_names_nothing(
                                r.0,
                                reports::import_taken(item.span, local, what, source),
                            );
                        },
                        None => {
                            free_names_are_free(r.0, local, r.1);
                            binding_a_kind_only_names(r.0, d.0, local, target, source);
                        },
                    }
                }
            },
        }
        only_named_transitive(s, r.0, bind_items(s, claimed, specifier, items, target).0);
    }
}

proof fn binding_each_only_names(s: State, imports: Seq<ast::ImportDecl>)
    ensures
        only_named(s, bind_each(s, imports).0),
    decreases imports.len(),
{
    if imports.len() > 0 {
        binding_each_only_names(s, imports.drop_last());
        let r = bind_each(s, imports.drop_last());
        if let Some(target) = r.0.target(imports.len() - 1) {
            reveal(bind_import);
            match imports.last().kind {
                ast::ImportKind::Namespace(name) => {
                    reveal(bind_namespace);
                    match import_collision(r.0, name.name@, r.1) {
                        Some(what) => {
                            reporting_names_nothing(
                                r.0,
                                reports::namespace_taken(name.span, name.name@, what),
                            );
                        },
                        None => {
                            free_names_are_free(r.0, name.name@, r.1);
                            naming_a_free_name(r.0, name.name@);
                        },
                    }
                },
                ast::ImportKind::Named(items) => {
                    binding_items_only_names(
                        r.0,
                        r.1,
                        imports.last().specifier@,
                        items@,
                        target,
                    );
                },
            }
        }
        only_named_transitive(s, r.0, bind_each(s, imports).0);
    }
}

/// An import takes no name that means something already: what a name meant before the imports of a
/// file were bound it means after, and no name comes to be of two kinds.
pub proof fn imports_shadow_nothing(s: State, module: ast::Module)
    ensures
        only_named(s, bind_imports(s, module)),
{
    reveal(bind_imports);
    binding_each_only_names(s, module.imports@);
}

// ---------------------------------------------------------------- carrying it out

pub open spec fn as_found(r: Result<usize, Diagnostic>) -> Result<usize, Report> {
    match r {
        Ok(i) => Ok(i),
        Err(d) => Err(d@),
    }
}

pub open spec fn as_words(r: Option<&'static str>) -> Option<Seq<char>> {
    match r {
        Some(t) => Some(t@),
        None => None,
    }
}

fn trim(specifier: &str) -> (r: String)
    ensures
        r@ == trimmed(specifier@),
    decreases specifier@.len(),
{
    proof {
        reveal_strlit(".norn");
    }
    if has_suffix(specifier, ".norn") {
        let n: usize = specifier.unicode_len();
        assert(specifier@.subrange(0, n - 5) =~= specifier@.take(n - 5));
        trim(specifier.substring_char(0, n - 5))
    } else {
        specifier.to_owned()
    }
}

fn item_decl(item: &ast::Item) -> (r: Option<(&String, DeclKind, bool)>)
    ensures
        match r {
            Some(got) => declared(*item) == Some((got.0@, got.1, got.2)),
            None => declared(*item) is None,
        },
{
    match item {
        ast::Item::Fn(d) => Some((&d.name.name, DeclKind::Fn, d.exported)),
        ast::Item::Struct(d) => Some((&d.name.name, DeclKind::Struct, d.exported)),
        ast::Item::Enum(d) => Some((&d.name.name, DeclKind::Enum, d.exported)),
        ast::Item::Reactor(d) => Some((&d.name.name, DeclKind::Reactor, d.exported)),
        ast::Item::Trait(d) => Some((&d.name.name, DeclKind::Trait, d.exported)),
        ast::Item::Impl(_) => None,
    }
}

impl Checker {
    fn set_decls(&mut self, m: Table<(DeclKind, bool)>)
        ensures
            final(self)@ == old(self)@.with_decls(m@),
    {
        proof {
            reveal(Checker::view);
            reveal(State::with_decls);
        }
        let at: usize = self.current;
        if at < self.decls.len() {
            let ghost view = m@;
            self.decls[at] = m;
            assert(decls_of(self.decls@) =~= decls_of(old(self).decls@).update(at as int, view));
        }
    }

    pub fn collect_decls(&mut self, module: &ast::Module)
        ensures
            final(self)@ == collect_decls(old(self)@, *module),
    {
        proof {
            reveal(collect_decls);
        }
        let mut m: Table<(DeclKind, bool)> = Table::new();
        let ghost all = module.items@;
        assert(all.take(0) =~= seq![]);
        for i in 0..module.items.len()
            invariant
                all == module.items@,
                m@ == declarations(all.take(i as int)),
        {
            assert(all.take(i + 1).drop_last() =~= all.take(i as int));
            if let Some((name, kind, exported)) = item_decl(&module.items[i]) {
                m.insert_first(name.as_str(), (kind, exported));
            }
        }
        assert(all.take(module.items.len() as int) =~= all);
        self.set_decls(m);
    }

    fn key(&self) -> (r: String)
        ensures
            r@ == self@.key(),
    {
        proof {
            reveal(Checker::view);
            reveal(State::key);
        }
        if self.current < self.keys.len() {
            self.keys[self.current].clone()
        } else {
            "".to_owned()
        }
    }

    fn file_of(&self, specifier: &str, span: Span, key: &str, std: bool) -> (r: Result<
        usize,
        Diagnostic,
    >)
        ensures
            as_found(r) == file_of(self@, specifier@, span, key@, std),
    {
        proof {
            reveal(file_of);
            reveal(Checker::view);
        }
        if same(key, self.key().as_str()) {
            return Err(say::imports_itself(span));
        }
        match self.key_index.get(key) {
            Some(index) => Ok(index),
            None => {
                if std {
                    Err(say::no_std_module(span, specifier, self.vocabulary.catalogue.as_str()))
                } else {
                    Err(say::no_module(span, specifier, key))
                }
            },
        }
    }

    fn import_file(&self, specifier: &str, span: Span) -> (r: Result<usize, Diagnostic>)
        ensures
            as_found(r) == import_file(self@, specifier@, span),
    {
        proof {
            reveal(import_file);
        }
        match resolve_specifier(self.key().as_str(), specifier) {
            Err(SpecifierError::Bare) => Err(say::bare_specifier(span, specifier)),
            Err(SpecifierError::Extension) => Err(
                say::extension_written(span, trim(specifier).as_str()),
            ),
            Ok(Resolved::File(key)) => self.file_of(specifier, span, key.as_str(), false),
            Ok(Resolved::Std(key)) => self.file_of(specifier, span, key.as_str(), true),
        }
    }

    fn set_targets(&mut self, list: Vec<Option<usize>>)
        ensures
            final(self)@ == old(self)@.with_targets(list@),
    {
        proof {
            reveal(Checker::view);
            reveal(State::with_targets);
        }
        let at: usize = self.current;
        if at < self.import_target.len() {
            let ghost view = list@;
            self.import_target[at] = list;
            assert(targets_of(self.import_target@) =~= targets_of(
                old(self).import_target@,
            ).update(at as int, view));
        }
    }

    pub fn check_specifiers(&mut self, module: &ast::Module)
        ensures
            final(self)@ == check_specifiers(old(self)@, *module),
    {
        proof {
            reveal(check_specifiers);
        }
        let mut targets: Vec<Option<usize>> = Vec::new();
        let ghost start = self@;
        let ghost all = module.imports@;
        assert(all.take(0) =~= seq![]);
        for i in 0..module.imports.len()
            invariant
                all == module.imports@,
                self@ == import_files(start, all.take(i as int)).0,
                targets@ == import_files(start, all.take(i as int)).1,
        {
            assert(all.take(i + 1).drop_last() =~= all.take(i as int));
            let decl = &module.imports[i];
            match self.import_file(decl.specifier.as_str(), decl.specifier_span) {
                Ok(index) => {
                    targets.push(Some(index));
                },
                Err(d) => {
                    self.push(d);
                    targets.push(None);
                },
            }
        }
        assert(all.take(module.imports.len() as int) =~= all);
        self.set_targets(targets);
    }

    fn import_collision(&self, local: &str, claimed: &Table<Span>) -> (r: Option<&'static str>)
        ensures
            as_words(r) == import_collision(self@, local@, claimed@),
    {
        proof {
            reveal(import_collision);
        }
        if is_builtin_variant(local) {
            return Some("a built-in constructor");
        }
        if self.builtin_named(local).is_some() {
            return Some("a built-in function");
        }
        if claimed.contains(local) {
            return Some("bound by an earlier import");
        }
        if self.namespace_named(local).is_some() {
            return Some("an imported module");
        }
        if self.decl(self.current(), local).is_some() {
            return Some("declared in this file");
        }
        if self.type_named(local).is_some() {
            return Some("a built-in type");
        }
        if self.trait_named(local).is_some() {
            return Some("a built-in trait");
        }
        None
    }

    fn bind_namespace(&mut self, claimed: &mut Table<Span>, name: &ast::Ident, target: usize)
        ensures
            final(self)@ == bind_namespace(old(self)@, old(claimed)@, *name, target).0,
            final(claimed)@ == bind_namespace(old(self)@, old(claimed)@, *name, target).1,
    {
        proof {
            reveal(bind_namespace);
        }
        match self.import_collision(name.name.as_str(), claimed) {
            Some(what) => {
                self.push(say::namespace_taken(name.span, name.name.as_str(), what));
            },
            None => {
                claimed.insert(name.name.as_str(), name.span);
                self.name_namespace(name.name.as_str(), target);
            },
        }
    }

    fn add_pending(&mut self, local: &str, target: usize, source: &str)
        ensures
            final(self)@ == old(self)@.pending(local@, target, source@),
    {
        proof {
            reveal(Checker::view);
            reveal(State::pending);
        }
        self.pending_fn_imports.push((self.current, local.to_owned(), target, source.to_owned()));
        assert(pending_of(self.pending_fn_imports@) =~= pending_of(
            old(self).pending_fn_imports@,
        ).push((self.current, local@, target, source@)));
    }

    fn bind_type(&mut self, local: &str, t: TypeName)
        ensures
            final(self)@ == bind_type(old(self)@, local@, t),
    {
        proof {
            reveal(bind_type);
        }
        if let TypeName::Reactor(id) = t {
            self.name_reactor(local, id);
        }
        self.name_type(local, t);
    }

    fn bind_kind(&mut self, kind: DeclKind, local: &str, target: usize, source: &str)
        ensures
            final(self)@ == bind_kind(old(self)@, kind, local@, target, source@),
    {
        proof {
            reveal(bind_kind);
        }
        match kind {
            DeclKind::Fn => self.add_pending(local, target, source),
            DeclKind::Trait => {
                if let Some(id) = self.trait_at(target, source) {
                    self.name_trait(local, id);
                }
            },
            _ => {
                if let Some(t) = self.type_at(target, source) {
                    self.bind_type(local, t);
                }
            },
        }
    }

    fn bind_item(
        &mut self,
        claimed: &mut Table<Span>,
        specifier: &str,
        item: &ast::ImportItem,
        target: usize,
    )
        ensures
            final(self)@ == bind_item(old(self)@, old(claimed)@, specifier@, *item, target).0,
            final(claimed)@ == bind_item(old(self)@, old(claimed)@, specifier@, *item, target).1,
    {
        proof {
            reveal(bind_item);
        }
        let source = item.name.name.as_str();
        let local = match &item.alias {
            Some(alias) => alias.name.as_str(),
            None => item.name.name.as_str(),
        };
        let (kind, exported) = match self.decl(target, source) {
            None => {
                let file = self.module_name(target);
                self.push(
                    say::import_undefined(item.name.span, source, specifier, file.as_str()),
                );
                return;
            },
            Some(d) => d,
        };
        if !exported {
            self.not_exported(source, specifier, target, item.name.span);
            return;
        }
        match self.import_collision(local, claimed) {
            Some(what) => {
                self.push(say::import_taken(item.span, local, what, source));
            },
            None => {
                claimed.insert(local, item.span);
                self.bind_kind(kind, local, target, source);
            },
        }
    }

    fn bind_items(
        &mut self,
        claimed: &mut Table<Span>,
        specifier: &str,
        items: &Vec<ast::ImportItem>,
        target: usize,
    )
        ensures
            final(self)@ == bind_items(old(self)@, old(claimed)@, specifier@, items@, target).0,
            final(claimed)@ == bind_items(old(self)@, old(claimed)@, specifier@, items@, target).1,
    {
        let ghost start = self@;
        let ghost first = claimed@;
        let ghost all = items@;
        assert(all.take(0) =~= seq![]);
        for i in 0..items.len()
            invariant
                all == items@,
                self@ == bind_items(start, first, specifier@, all.take(i as int), target).0,
                claimed@ == bind_items(start, first, specifier@, all.take(i as int), target).1,
        {
            assert(all.take(i + 1).drop_last() =~= all.take(i as int));
            self.bind_item(claimed, specifier, &items[i], target);
        }
        assert(all.take(items.len() as int) =~= all);
    }

    fn bind_import(&mut self, claimed: &mut Table<Span>, decl: &ast::ImportDecl, target: usize)
        ensures
            final(self)@ == bind_import(old(self)@, old(claimed)@, *decl, target).0,
            final(claimed)@ == bind_import(old(self)@, old(claimed)@, *decl, target).1,
    {
        proof {
            reveal(bind_import);
        }
        match &decl.kind {
            ast::ImportKind::Namespace(name) => self.bind_namespace(claimed, name, target),
            ast::ImportKind::Named(items) => {
                self.bind_items(claimed, decl.specifier.as_str(), items, target);
            },
        }
    }

    fn target(&self, index: usize) -> (r: Option<usize>)
        ensures
            r == self@.target(index as int),
    {
        proof {
            reveal(Checker::view);
            reveal(State::target);
        }
        if self.current < self.import_target.len() {
            let list = &self.import_target[self.current];
            if index < list.len() {
                return list[index];
            }
        }
        None
    }

    pub fn bind_imports(&mut self, module: &ast::Module)
        ensures
            final(self)@ == bind_imports(old(self)@, *module),
    {
        proof {
            reveal(bind_imports);
        }
        let mut claimed: Table<Span> = Table::new();
        let ghost start = self@;
        let ghost all = module.imports@;
        assert(all.take(0) =~= seq![]);
        for i in 0..module.imports.len()
            invariant
                all == module.imports@,
                self@ == bind_each(start, all.take(i as int)).0,
                claimed@ == bind_each(start, all.take(i as int)).1,
        {
            assert(all.take(i + 1).drop_last() =~= all.take(i as int));
            if let Some(target) = self.target(i) {
                self.bind_import(&mut claimed, &module.imports[i], target);
            }
        }
        assert(all.take(module.imports.len() as int) =~= all);
    }

    fn take_pending(&mut self) -> (r: Vec<(usize, String, usize, String)>)
        ensures
            final(self)@ == old(self)@.nothing_pending(),
            pending_of(r@) == old(self)@.pending_fn_imports,
    {
        proof {
            reveal(Checker::view);
            reveal(State::nothing_pending);
        }
        let mut list: Vec<(usize, String, usize, String)> = Vec::new();
        list.append(&mut self.pending_fn_imports);
        assert(list@ =~= old(self).pending_fn_imports@);
        assert(pending_of(self.pending_fn_imports@) =~= seq![]);
        list
    }

    fn name_fn_in(&mut self, module: usize, name: &str, id: FnId)
        ensures
            final(self)@ == old(self)@.naming_fn_in(module, name@, id),
    {
        proof {
            reveal(Checker::view);
            reveal(State::naming_fn_in);
        }
        if module < self.ns.len() {
            self.ns[module].fns.insert(name, id);
            assert(ns_of(self.ns@) =~= ns_of(old(self).ns@).update(
                module as int,
                Ns {
                    fns: ns_of(old(self).ns@)[module as int].fns.insert(name@, id),
                    ..ns_of(old(self).ns@)[module as int]
                },
            ));
        }
    }

    pub fn bind_fn_imports(&mut self)
        ensures
            final(self)@ == bind_fn_imports(old(self)@),
    {
        proof {
            reveal(bind_fn_imports);
        }
        let list = self.take_pending();
        let ghost start = self@;
        let ghost all = pending_of(list@);
        assert(all.take(0) =~= seq![]);
        for i in 0..list.len()
            invariant
                all == pending_of(list@),
                self@ == bind_fns(start, all.take(i as int)),
        {
            assert(all.take(i + 1).drop_last() =~= all.take(i as int));
            if let Some(id) = self.fn_at(list[i].2, list[i].3.as_str()) {
                self.name_fn_in(list[i].0, list[i].1.as_str(), id);
            }
        }
        assert(all.take(list.len() as int) =~= all);
    }
}

} // verus!
