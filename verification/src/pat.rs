//! Patterns: what a written pattern matches, and what it binds.

use vstd::prelude::*;
use vstd::string::*;
use crate::ast;
use crate::binding::{declare_local, is_builtin_variant};
use crate::checker::Checker;
use crate::copies::{self, field_names, field_tys, place_of};
use crate::hir::{
    pats, tys, EnumId, Pat, PatKind, StructId, Ty, ERR, NONE, OK, OPTION, RESULT, SOME,
};
use crate::model;
use crate::reports;
use crate::resolve::resolve_ns;
use crate::say;
use crate::span::{texts, Span};
use crate::state::{builtin_variant, NsItem, State, TypeName};
use crate::text::{decimal, join, joined, number, same};

verus! {

/// What a constructor pattern takes apart.
#[derive(Clone, Copy, PartialEq, Eq, Structural, Debug)]
pub enum PatCtor {
    Struct(StructId),
    Variant(EnumId, usize),
}

/// A constructor pattern before its arguments are looked at.
pub struct Head {
    pub ctor: PatCtor,
    pub names: Seq<Seq<char>>,
    pub types: Seq<model::Ty>,
    /// How the constructor is called in a diagnostic.
    pub subject: Seq<char>,
}

pub open spec fn error_pat(span: Span) -> model::Pat {
    model::Pat { kind: model::PatKind::Error, span }
}

pub open spec fn wild_pat(span: Span) -> model::Pat {
    model::Pat { kind: model::PatKind::Wild, span }
}

pub open spec fn built_pat(ctor: PatCtor, args: Seq<model::Pat>, span: Span) -> model::Pat {
    model::Pat {
        kind: match ctor {
            PatCtor::Struct(strukt) => model::PatKind::Struct { strukt, args },
            PatCtor::Variant(enum_id, variant) => model::PatKind::Variant {
                enum_id,
                variant,
                args,
            },
        },
        span,
    }
}

/// A variant spelling to show where one has to be named.
#[verifier::opaque]
pub open spec fn enum_example(s: State, id: EnumId) -> Seq<char> {
    if s.enum_variants(id).len() == 0 {
        "Variant"@
    } else if s.enum_variants(id)[0].fields.len() == 0 {
        s.enum_variants(id)[0].name
    } else {
        s.enum_variants(id)[0].name + "(…)"@
    }
}

#[verifier::opaque]
pub open spec fn expect_pat_ty(
    s: State,
    found: model::Ty,
    expected: model::Ty,
    span: Span,
) -> State {
    if found.fits(expected) {
        s
    } else {
        s.push(reports::pattern_mismatch(span, s.ty_name(found), s.ty_name(expected)))
    }
}

// ---------------------------------------------------------------- constructors

/// One of the four bare constructor names, resolved against the value.
#[verifier::opaque]
pub open spec fn builtin_head(s: State, name: Seq<char>, ty: model::Ty, span: Span) -> (
    State,
    Option<Head>,
) {
    if name == "None"@ && ty is Option {
        (s, Some(payload_head(EnumId(OPTION), NONE, seq![], name)))
    } else if name == "Some"@ && ty is Option {
        (s, Some(payload_head(EnumId(OPTION), SOME, seq![option_of(ty)], name)))
    } else if name == "Ok"@ && ty is Result {
        (s, Some(payload_head(EnumId(RESULT), OK, seq![ok_of(ty)], name)))
    } else if name == "Err"@ && ty is Result {
        (s, Some(payload_head(EnumId(RESULT), ERR, seq![err_of(ty)], name)))
    } else {
        (s.push(reports::builtin_pat_mismatch(span, name, s.ty_name(ty))), None)
    }
}

pub open spec fn option_of(ty: model::Ty) -> model::Ty {
    match ty {
        model::Ty::Option(t) => *t,
        _ => model::Ty::Error,
    }
}

pub open spec fn ok_of(ty: model::Ty) -> model::Ty {
    match ty {
        model::Ty::Result(t, _) => *t,
        _ => model::Ty::Error,
    }
}

pub open spec fn err_of(ty: model::Ty) -> model::Ty {
    match ty {
        model::Ty::Result(_, e) => *e,
        _ => model::Ty::Error,
    }
}

/// A payload whose fields are known by their place.
pub open spec fn payload_head(
    id: EnumId,
    variant: usize,
    types: Seq<model::Ty>,
    subject: Seq<char>,
) -> Head {
    Head {
        ctor: PatCtor::Variant(id, variant),
        names: Seq::new(types.len(), |i: int| decimal(i as nat)),
        types,
        subject,
    }
}

/// A struct pattern. One that names a template proceeds with the instance the value is.
#[verifier::opaque]
pub open spec fn struct_head(
    s: State,
    id: StructId,
    display: Seq<char>,
    ty: model::Ty,
    span: Span,
) -> (State, Head) {
    let id1 = matched_struct(s, id, ty);
    let s1 = expect_pat_ty(s, model::Ty::Struct(id1), ty, span);
    (
        s1,
        Head {
            ctor: PatCtor::Struct(id1),
            names: field_names(s1.struct_fields(id1)),
            types: field_tys(s1.struct_fields(id1)),
            subject: display,
        },
    )
}

#[verifier::opaque]
pub open spec fn matched_struct(s: State, id: StructId, ty: model::Ty) -> StructId {
    match ty {
        model::Ty::Struct(found) => match s.struct_base(found) {
            Some((base, _)) => if base == id {
                found
            } else {
                id
            },
            None => id,
        },
        _ => id,
    }
}

/// A variant pattern of a user enum.
#[verifier::opaque]
pub open spec fn variant_head(
    s: State,
    id: EnumId,
    display: Seq<char>,
    variant: ast::Ident,
    ty: model::Ty,
    span: Span,
) -> (State, Option<Head>) {
    let id1 = matched_enum(s, id, ty);
    let s1 = expect_pat_ty(s, model::Ty::Enum(id1), ty, span);
    match s1.variant_place(id1, variant.name@) {
        None => (s1.push(reports::no_variant(variant.span, display, variant.name@)), None),
        Some(i) => (
            s1,
            Some(
                Head {
                    ctor: PatCtor::Variant(id1, i as usize),
                    names: field_names(s1.variant_fields(id1, i)),
                    types: field_tys(s1.variant_fields(id1, i)),
                    subject: display + "."@ + variant.name@,
                },
            ),
        ),
    }
}

#[verifier::opaque]
pub open spec fn matched_enum(s: State, id: EnumId, ty: model::Ty) -> EnumId {
    match ty {
        model::Ty::Enum(found) => match s.enum_base(found) {
            Some((base, _)) => if base == id {
                found
            } else {
                id
            },
            None => id,
        },
        _ => id,
    }
}

/// What the path of a constructor pattern names.
#[verifier::opaque]
pub open spec fn construct_head(s: State, path: ast::Path, ty: model::Ty, span: Span) -> (
    State,
    Option<Head>,
) {
    let first = path.head.name@;
    if path.rest@.len() == 0 {
        if builtin_variant(first) {
            builtin_head(s, first, ty, span)
        } else {
            match s.type_named(first) {
                Some(TypeName::Struct(id)) => {
                    let (s1, h) = struct_head(s, id, first, ty, span);
                    (s1, Some(h))
                },
                _ => (s.push(reports::unknown_struct(span, first)), None),
            }
        }
    } else if path.rest@.len() == 1 {
        construct_pair_head(s, path, ty, span)
    } else if path.rest@.len() == 2 && s.namespace_named(first) is Some {
        let (s1, item) = resolve_ns(s, path);
        match item {
            Some(Some(NsItem::Enum(id))) => variant_head(
                s1,
                id,
                first + "."@ + path.rest@[0].name@,
                path.rest@[1],
                ty,
                span,
            ),
            Some(Some(_)) => (s1.push(reports::unknown_ctor(span, path.text())), None),
            _ => (s1, None),
        }
    } else {
        (s.push(reports::unknown_ctor(span, path.text())), None)
    }
}

/// `Enum.Variant`, or a struct reached through a namespace.
#[verifier::opaque]
pub open spec fn construct_pair_head(s: State, path: ast::Path, ty: model::Ty, span: Span) -> (
    State,
    Option<Head>,
) {
    let first = path.head.name@;
    let second = path.rest@[0];
    match s.type_named(first) {
        Some(TypeName::Enum(id)) => if id == EnumId(OPTION) || id == EnumId(RESULT) {
            match s.variant_place(id, second.name@) {
                None => (s.push(reports::no_variant(second.span, first, second.name@)), None),
                Some(_) => builtin_head(s, second.name@, ty, span),
            }
        } else {
            variant_head(s, id, first, second, ty, span)
        },
        _ => if s.namespace_named(first) is Some {
            let (s1, item) = resolve_ns(s, path);
            match item {
                Some(Some(NsItem::Struct(id))) => {
                    let (s2, h) = struct_head(s1, id, path.text(), ty, span);
                    (s2, Some(h))
                },
                Some(Some(NsItem::Enum(id))) => (
                    s1.push(reports::names_an_enum(span, path.text(), enum_example(s1, id))),
                    None,
                ),
                Some(Some(_)) => (s1.push(reports::unknown_ctor(span, path.text())), None),
                _ => (s1, None),
            }
        } else {
            (s.push(reports::unknown_enum(path.head.span, first)), None)
        },
    }
}

// ---------------------------------------------------------------- arguments

pub open spec fn named_pats(args: Seq<ast::PatArg>) -> nat
    decreases args.len(),
{
    if args.len() == 0 {
        0
    } else if args.last().name is Some {
        named_pats(args.drop_last()) + 1
    } else {
        named_pats(args.drop_last())
    }
}

pub open spec fn field_suffix(n: nat) -> Seq<char> {
    if n == 1 {
        ""@
    } else {
        "s"@
    }
}

/// Which argument each field gets, when the arguments are named.
pub open spec fn named_slots(
    s: State,
    names: Seq<Seq<char>>,
    args: Seq<ast::PatArg>,
    subject: Seq<char>,
) -> (State, Option<Seq<Option<usize>>>)
    decreases args.len(),
{
    if args.len() == 0 {
        (s, Some(empty_slots(names.len())))
    } else {
        let (s1, so_far) = named_slots(s, names, args.drop_last(), subject);
        match (so_far, args.last().name) {
            (Some(slots), Some(name)) => match place_of(names, name.name@) {
                None => (s1.push(reports::no_pat_field(name.span, subject, name.name@)), None),
                Some(i) => if slots[i] is Some {
                    (s1.push(reports::matched_twice(name.span, name.name@)), None)
                } else {
                    (s1, Some(slots.update(i, Some((args.len() - 1) as usize))))
                },
            },
            _ => (s1, None),
        }
    }
}

pub open spec fn empty_slots(n: nat) -> Seq<Option<usize>> {
    Seq::new(n, |i: int| None)
}

pub open spec fn positional_slots(n: nat, given: nat) -> Seq<Option<usize>> {
    Seq::new(
        n,
        |i: int|
            if i < given {
                Some(i as usize)
            } else {
                None
            },
    )
}

/// The names of the fields no argument went to.
pub open spec fn unfilled(names: Seq<Seq<char>>, slots: Seq<Option<usize>>) -> Seq<Seq<char>>
    decreases slots.len(),
{
    if slots.len() == 0 {
        seq![]
    } else if slots.last() is None {
        unfilled(names, slots.drop_last()).push(names[slots.len() - 1])
    } else {
        unfilled(names, slots.drop_last())
    }
}

/// Which argument each field gets: all positional or all named, and every field unless `..` says
/// that the rest does not matter.
#[verifier::opaque]
pub open spec fn pat_slots(
    s: State,
    names: Seq<Seq<char>>,
    args: Seq<ast::PatArg>,
    rest: bool,
    subject: Seq<char>,
    span: Span,
) -> (State, Option<Seq<Option<usize>>>) {
    let named = named_pats(args);
    if named != 0 && named != args.len() {
        (s.push(reports::mixed_pat_args(span)), None)
    } else if named == 0 {
        if args.len() < names.len() && !rest {
            (
                s.push(
                    reports::too_few_pat_args(
                        span,
                        subject,
                        decimal(names.len()),
                        field_suffix(names.len()),
                        decimal(args.len()),
                    ),
                ),
                None,
            )
        } else if args.len() > names.len() {
            (
                s.push(
                    reports::too_many_pat_args(
                        span,
                        subject,
                        decimal(names.len()),
                        field_suffix(names.len()),
                        decimal(args.len()),
                    ),
                ),
                None,
            )
        } else {
            (s, Some(positional_slots(names.len(), args.len())))
        }
    } else {
        let (s1, found) = named_slots(s, names, args, subject);
        match found {
            None => (s1, None),
            Some(slots) => if !rest && unfilled(names, slots).len() > 0 {
                (
                    s1.push(
                        reports::missing_pat_fields(span, joined(unfilled(names, slots), ", "@)),
                    ),
                    None,
                )
            } else {
                (s1, Some(slots))
            },
        }
    }
}

// ---------------------------------------------------------------- patterns

/// A checked pattern for a value of a type, with the names it binds declared.
pub open spec fn check_pat(s: State, pat: ast::Pat, ty: model::Ty) -> (State, model::Pat)
    decreases pat, 3nat, 0nat,
{
    let span = pat.span;
    match pat.kind {
        ast::PatKind::Wild => (s, wild_pat(span)),
        ast::PatKind::Binding(name) => if builtin_variant(name.name@) {
            bare_ctor_pat(s, name.name@, ty, span)
        } else {
            let (s1, local) = declare_local(s, name.name@, ty, false, name.span);
            (s1, model::Pat { kind: model::PatKind::Bind(local), span })
        },
        ast::PatKind::Int(v) => (
            expect_pat_ty(s, model::Ty::I64, ty, span),
            model::Pat { kind: model::PatKind::Int(v), span },
        ),
        ast::PatKind::Str(v) => (
            expect_pat_ty(s, model::Ty::Str, ty, span),
            model::Pat { kind: model::PatKind::Str(v@), span },
        ),
        ast::PatKind::Bool(v) => (
            expect_pat_ty(s, model::Ty::Bool, ty, span),
            model::Pat { kind: model::PatKind::Bool(v), span },
        ),
        ast::PatKind::Or(alts) => {
            let (s1, checked) = check_alternatives(s, alts@, ty);
            if any_binds(checked) {
                (s1.push(reports::alternatives_bind(span)), error_pat(span))
            } else {
                (s1, model::Pat { kind: model::PatKind::Or(checked), span })
            }
        },
        ast::PatKind::Construct { path, args, rest } => {
            let (s1, head) = construct_head(s, path, ty, span);
            match head {
                None => (s1, error_pat(span)),
                Some(h) => construct_pat(s1, h, args@, rest, span),
            }
        },
    }
}

/// A bare constructor name written like a binding: `None`.
#[verifier::opaque]
pub open spec fn bare_ctor_pat(s: State, name: Seq<char>, ty: model::Ty, span: Span) -> (
    State,
    model::Pat,
) {
    let (s1, head) = builtin_head(s, name, ty, span);
    match head {
        None => (s1, error_pat(span)),
        Some(h) => {
            let (s2, slots) = pat_slots(s1, h.names, seq![], false, h.subject, span);
            match slots {
                None => (s2, error_pat(span)),
                Some(slots) => (s2, built_pat(h.ctor, wilds(slots.len(), span), span)),
            }
        },
    }
}

pub open spec fn wilds(n: nat, span: Span) -> Seq<model::Pat> {
    Seq::new(n, |i: int| wild_pat(span))
}

pub open spec fn construct_pat(
    s: State,
    h: Head,
    args: Seq<ast::PatArg>,
    rest: bool,
    span: Span,
) -> (State, model::Pat)
    decreases args, 2nat, 0nat,
{
    let (s1, slots) = pat_slots(s, h.names, args, rest, h.subject, span);
    match slots {
        None => (s1, error_pat(span)),
        Some(slots) => {
            let (s2, sub) = check_slots(s1, slots, h.types, args, span);
            (s2, built_pat(h.ctor, sub, span))
        },
    }
}

/// The argument of each field in declaration order, with a wildcard where there is none.
pub open spec fn check_slots(
    s: State,
    slots: Seq<Option<usize>>,
    types: Seq<model::Ty>,
    args: Seq<ast::PatArg>,
    span: Span,
) -> (State, Seq<model::Pat>)
    decreases args, 1nat, slots.len(),
{
    if slots.len() == 0 {
        (s, seq![])
    } else {
        let (s1, done) = check_slots(s, slots.drop_last(), types, args, span);
        match slots.last() {
            Some(k) => if k < args.len() && slots.len() <= types.len() {
                let (s2, p) = check_pat(s1, args[k as int].pat, types[slots.len() - 1]);
                (s2, done.push(p))
            } else {
                (s1, done.push(wild_pat(span)))
            },
            None => (s1, done.push(wild_pat(span))),
        }
    }
}

pub open spec fn check_alternatives(s: State, alts: Seq<ast::Pat>, ty: model::Ty) -> (
    State,
    Seq<model::Pat>,
)
    decreases alts, 1nat, 0nat,
{
    if alts.len() == 0 {
        (s, seq![])
    } else {
        let (s1, done) = check_alternatives(s, alts.drop_last(), ty);
        let (s2, p) = check_pat(s1, alts.last(), ty);
        (s2, done.push(p))
    }
}

/// Whether a pattern binds a name.
pub open spec fn binds_anything(p: model::Pat) -> bool
    decreases p,
{
    match p.kind {
        model::PatKind::Bind(_) => true,
        model::PatKind::Variant { args, .. } => any_binds(args),
        model::PatKind::Struct { args, .. } => any_binds(args),
        model::PatKind::Or(alts) => any_binds(alts),
        _ => false,
    }
}

pub open spec fn any_binds(list: Seq<model::Pat>) -> bool
    decreases list,
{
    list.len() > 0 && (any_binds(list.drop_last()) || binds_anything(list.last()))
}

/// A checked pattern, from outside.
#[verifier::opaque]
pub open spec fn pattern(s: State, pat: ast::Pat, ty: model::Ty) -> (State, model::Pat) {
    check_pat(s, pat, ty)
}

// ---------------------------------------------------------------- carrying it out

/// A constructor pattern before its arguments are looked at.
pub struct HeadMade {
    pub ctor: PatCtor,
    pub names: Vec<String>,
    pub types: Vec<Ty>,
    pub subject: String,
}

impl HeadMade {
    pub open spec fn view(&self) -> Head {
        Head {
            ctor: self.ctor,
            names: texts(self.names@),
            types: tys(self.types@),
            subject: self.subject@,
        }
    }
}

pub open spec fn maybe_head(h: Option<HeadMade>) -> Option<Head> {
    match h {
        Some(h) => Some(h@),
        None => None,
    }
}

pub open spec fn maybe_slots(r: Option<Vec<Option<usize>>>) -> Option<Seq<Option<usize>>> {
    match r {
        Some(v) => Some(v@),
        None => None,
    }
}

fn build_pat(ctor: PatCtor, args: Vec<Pat>, span: Span) -> (r: Pat)
    ensures
        r@ == built_pat(ctor, pats(args@), span),
{
    match ctor {
        PatCtor::Struct(strukt) => Pat { kind: PatKind::Struct { strukt, args }, span },
        PatCtor::Variant(enum_id, variant) => Pat {
            kind: PatKind::Variant { enum_id, variant, args },
            span,
        },
    }
}

fn payload(id: EnumId, variant: usize, types: Vec<Ty>, subject: &str) -> (r: HeadMade)
    ensures
        r@ == payload_head(id, variant, tys(types@), subject@),
{
    let mut names: Vec<String> = Vec::new();
    for i in 0..types.len()
        invariant
            names.len() == i,
            forall|j: int| 0 <= j < i ==> #[trigger] names@[j]@ == decimal(j as nat),
    {
        names.push(number(i));
    }
    assert(texts(names@) =~= Seq::new(tys(types@).len(), |i: int| decimal(i as nat)));
    HeadMade { ctor: PatCtor::Variant(id, variant), names, types, subject: subject.to_owned() }
}

fn one_ty(t: &Ty) -> (r: Vec<Ty>)
    ensures
        tys(r@) == seq![t@],
{
    let mut r: Vec<Ty> = Vec::new();
    r.push(t.copy());
    assert(tys(r@) =~= seq![t@]);
    r
}

fn suffix(n: usize) -> (r: &'static str)
    ensures
        r@ == field_suffix(n as nat),
{
    if n == 1 {
        ""
    } else {
        "s"
    }
}

/// A named pattern argument list fills each field at most once, with one of the arguments.
pub proof fn slots_are_distinct(
    s: State,
    names: Seq<Seq<char>>,
    args: Seq<ast::PatArg>,
    rest: bool,
    subject: Seq<char>,
    span: Span,
    i: int,
    j: int,
)
    requires
        args.len() <= usize::MAX,
        pat_slots(s, names, args, rest, subject, span).1 is Some,
        0 <= i < j < names.len(),
    ensures
        pat_slots(s, names, args, rest, subject, span).1->0.len() == names.len(),
        pat_slots(s, names, args, rest, subject, span).1->0[i] matches Some(k) ==> k < args.len(),
        pat_slots(s, names, args, rest, subject, span).1->0[i] is None || pat_slots(
            s,
            names,
            args,
            rest,
            subject,
            span,
        ).1->0[i] != pat_slots(s, names, args, rest, subject, span).1->0[j],
{
    reveal(pat_slots);
    if named_pats(args) != 0 {
        named_slots_distinct(s, names, args, subject, i, j);
    }
}

proof fn named_slots_distinct(
    s: State,
    names: Seq<Seq<char>>,
    args: Seq<ast::PatArg>,
    subject: Seq<char>,
    i: int,
    j: int,
)
    requires
        args.len() <= usize::MAX,
        named_slots(s, names, args, subject).1 is Some,
        0 <= i < names.len(),
        0 <= j < names.len(),
        i != j,
    ensures
        named_slots(s, names, args, subject).1->0.len() == names.len(),
        named_slots(s, names, args, subject).1->0[i] matches Some(k) ==> k < args.len(),
        named_slots(s, names, args, subject).1->0[j] matches Some(k) ==> k < args.len(),
        named_slots(s, names, args, subject).1->0[i] is None || named_slots(
            s,
            names,
            args,
            subject,
        ).1->0[i] != named_slots(s, names, args, subject).1->0[j],
    decreases args.len(),
{
    if args.len() > 0 {
        let (s1, so_far) = named_slots(s, names, args.drop_last(), subject);
        named_slots_distinct(s, names, args.drop_last(), subject, i, j);
        copies::place_is_first(names, args.last().name->0.name@);
    }
}

impl Checker {
    pub fn enum_example(&self, id: EnumId) -> (r: String)
        ensures
            r@ == enum_example(self@, id),
    {
        proof {
            reveal(enum_example);
        }
        let variants = self.enum_variants(id);
        assert(crate::hir::variants_of(variants@).len() == variants@.len());
        if variants.len() == 0 {
            return "Variant".to_owned();
        }
        assert(crate::hir::variants_of(variants@)[0] == variants@[0]@);
        assert(crate::hir::fields_of(variants@[0].fields@).len() == variants@[0].fields@.len());
        if variants[0].fields.len() == 0 {
            variants[0].name.clone()
        } else {
            variants[0].name.clone().concat("(…)")
        }
    }

    fn expect_pat_ty(&mut self, found: &Ty, expected: &Ty, span: Span)
        ensures
            final(self)@ == expect_pat_ty(old(self)@, found@, expected@, span),
    {
        proof {
            reveal(expect_pat_ty);
        }
        if !found.fits(expected) {
            let got = self.ty_name(found);
            let want = self.ty_name(expected);
            self.push(say::pattern_mismatch(span, got.as_str(), want.as_str()));
        }
    }

    fn builtin_head(&mut self, name: &str, ty: &Ty, span: Span) -> (r: Option<HeadMade>)
        ensures
            final(self)@ == builtin_head(old(self)@, name@, ty@, span).0,
            maybe_head(r) == builtin_head(old(self)@, name@, ty@, span).1,
    {
        proof {
            reveal(builtin_head);
            reveal_strlit("None");
            reveal_strlit("Some");
            reveal_strlit("Ok");
            reveal_strlit("Err");
        }
        match ty {
            Ty::Option(inner) => {
                if same(name, "None") {
                    let none: Vec<Ty> = Vec::new();
                    assert(tys(none@) =~= seq![]);
                    return Some(payload(EnumId(OPTION), NONE, none, name));
                }
                if same(name, "Some") {
                    return Some(payload(EnumId(OPTION), SOME, one_ty(inner), name));
                }
            },
            Ty::Result(ok, err) => {
                if same(name, "Ok") {
                    return Some(payload(EnumId(RESULT), OK, one_ty(ok), name));
                }
                if same(name, "Err") {
                    return Some(payload(EnumId(RESULT), ERR, one_ty(err), name));
                }
            },
            _ => {},
        }
        let found = self.ty_name(ty);
        self.push(say::builtin_pat_mismatch(span, name, found.as_str()));
        None
    }

    fn matched_struct(&self, id: StructId, ty: &Ty) -> (r: StructId)
        ensures
            r == matched_struct(self@, id, ty@),
    {
        proof {
            reveal(matched_struct);
        }
        if let Ty::Struct(found) = ty {
            if let Some((base, _)) = self.struct_base(*found) {
                if base == id {
                    return *found;
                }
            }
        }
        id
    }

    fn matched_enum(&self, id: EnumId, ty: &Ty) -> (r: EnumId)
        ensures
            r == matched_enum(self@, id, ty@),
    {
        proof {
            reveal(matched_enum);
        }
        if let Ty::Enum(found) = ty {
            if let Some((base, _)) = self.enum_base(*found) {
                if base == id {
                    return *found;
                }
            }
        }
        id
    }

    fn struct_head(&mut self, id: StructId, display: &str, ty: &Ty, span: Span) -> (r: HeadMade)
        ensures
            final(self)@ == struct_head(old(self)@, id, display@, ty@, span).0,
            r@ == struct_head(old(self)@, id, display@, ty@, span).1,
    {
        proof {
            reveal(struct_head);
        }
        let id1 = self.matched_struct(id, ty);
        self.expect_pat_ty(&Ty::Struct(id1), ty, span);
        let fields = self.struct_fields(id1);
        let (names, types) = copies::field_lists(&fields);
        HeadMade { ctor: PatCtor::Struct(id1), names, types, subject: display.to_owned() }
    }

    fn variant_head(
        &mut self,
        id: EnumId,
        display: &str,
        variant: &ast::Ident,
        ty: &Ty,
        span: Span,
    ) -> (r: Option<HeadMade>)
        ensures
            final(self)@ == variant_head(old(self)@, id, display@, *variant, ty@, span).0,
            maybe_head(r) == variant_head(old(self)@, id, display@, *variant, ty@, span).1,
    {
        proof {
            reveal(variant_head);
        }
        let id1 = self.matched_enum(id, ty);
        self.expect_pat_ty(&Ty::Enum(id1), ty, span);
        match self.variant_place(id1, variant.name.as_str()) {
            None => {
                self.push(say::no_variant(variant.span, display, variant.name.as_str()));
                None
            },
            Some(i) => {
                let fields = self.variant_fields(id1, i);
                let (names, types) = copies::field_lists(&fields);
                let subject = display.to_owned().concat(".").concat(variant.name.as_str());
                Some(HeadMade { ctor: PatCtor::Variant(id1, i), names, types, subject })
            },
        }
    }

    fn construct_head(&mut self, path: &ast::Path, ty: &Ty, span: Span) -> (r: Option<HeadMade>)
        ensures
            final(self)@ == construct_head(old(self)@, *path, ty@, span).0,
            maybe_head(r) == construct_head(old(self)@, *path, ty@, span).1,
    {
        proof {
            reveal(construct_head);
        }
        let first = path.head.name.as_str();
        if path.rest.len() == 0 {
            if is_builtin_variant(first) {
                return self.builtin_head(first, ty, span);
            }
            return match self.type_named(first) {
                Some(TypeName::Struct(id)) => Some(self.struct_head(id, first, ty, span)),
                _ => {
                    self.push(say::unknown_struct(span, first));
                    None
                },
            };
        }
        if path.rest.len() == 1 {
            return self.construct_pair_head(path, ty, span);
        }
        if path.rest.len() == 2 && self.namespace_named(first).is_some() {
            return match self.resolve_ns(path) {
                Some(Some(NsItem::Enum(id))) => {
                    let display = first.to_owned().concat(".").concat(path.rest[0].name.as_str());
                    self.variant_head(id, display.as_str(), &path.rest[1], ty, span)
                },
                Some(Some(_)) => {
                    let text = path.written();
                    self.push(say::unknown_ctor(span, text.as_str()));
                    None
                },
                _ => None,
            };
        }
        let text = path.written();
        self.push(say::unknown_ctor(span, text.as_str()));
        None
    }

    fn construct_pair_head(&mut self, path: &ast::Path, ty: &Ty, span: Span) -> (r: Option<
        HeadMade,
    >)
        requires
            path.rest.len() == 1,
        ensures
            final(self)@ == construct_pair_head(old(self)@, *path, ty@, span).0,
            maybe_head(r) == construct_pair_head(old(self)@, *path, ty@, span).1,
    {
        proof {
            reveal(construct_pair_head);
        }
        let first = path.head.name.as_str();
        let second = &path.rest[0];
        if let Some(TypeName::Enum(id)) = self.type_named(first) {
            if id == EnumId(OPTION) || id == EnumId(RESULT) {
                if self.variant_place(id, second.name.as_str()).is_none() {
                    self.push(say::no_variant(second.span, first, second.name.as_str()));
                    return None;
                }
                return self.builtin_head(second.name.as_str(), ty, span);
            }
            return self.variant_head(id, first, second, ty, span);
        }
        if self.namespace_named(first).is_some() {
            let text = path.written();
            return match self.resolve_ns(path) {
                Some(Some(NsItem::Struct(id))) => Some(
                    self.struct_head(id, text.as_str(), ty, span),
                ),
                Some(Some(NsItem::Enum(id))) => {
                    let example = self.enum_example(id);
                    self.push(say::names_an_enum(span, text.as_str(), example.as_str()));
                    None
                },
                Some(Some(_)) => {
                    self.push(say::unknown_ctor(span, text.as_str()));
                    None
                },
                _ => None,
            };
        }
        self.push(say::unknown_enum(path.head.span, first));
        None
    }

    fn named_slots(&mut self, names: &Vec<String>, args: &Vec<ast::PatArg>, subject: &str) -> (r:
        Option<Vec<Option<usize>>>)
        ensures
            final(self)@ == named_slots(old(self)@, texts(names@), args@, subject@).0,
            maybe_slots(r) == named_slots(old(self)@, texts(names@), args@, subject@).1,
            r matches Some(v) ==> v.len() == names.len(),
    {
        let mut slots: Vec<Option<usize>> = Vec::new();
        for i in 0..names.len()
            invariant
                slots.len() == i,
                forall|j: int| 0 <= j < i ==> slots@[j] is None,
        {
            slots.push(None);
        }
        let ghost start = self@;
        let ghost all = args@;
        let mut failed: bool = false;
        assert(all.take(0) =~= seq![]);
        assert(slots@ =~= empty_slots(texts(names@).len()));
        for i in 0..args.len()
            invariant
                all == args@,
                slots.len() == names.len(),
                self@ == named_slots(start, texts(names@), all.take(i as int), subject@).0,
                named_slots(start, texts(names@), all.take(i as int), subject@).1 == (if failed {
                    None
                } else {
                    Some(slots@)
                }),
        {
            assert(all.take(i + 1).drop_last() =~= all.take(i as int));
            assert(all.take(i + 1).last() == args@[i as int]);
            if !failed {
                match &args[i].name {
                    None => {
                        failed = true;
                    },
                    Some(name) => match copies::place(names, name.name.as_str()) {
                        None => {
                            self.push(say::no_pat_field(name.span, subject, name.name.as_str()));
                            failed = true;
                        },
                        Some(k) => {
                            if slots[k].is_some() {
                                self.push(say::matched_twice(name.span, name.name.as_str()));
                                failed = true;
                            } else {
                                slots.set(k, Some(i));
                            }
                        },
                    },
                }
            }
        }
        assert(all.take(args.len() as int) =~= all);
        if failed {
            None
        } else {
            Some(slots)
        }
    }

    fn pat_slots(
        &mut self,
        names: &Vec<String>,
        args: &Vec<ast::PatArg>,
        rest: bool,
        subject: &str,
        span: Span,
    ) -> (r: Option<Vec<Option<usize>>>)
        ensures
            final(self)@ == pat_slots(old(self)@, texts(names@), args@, rest, subject@, span).0,
            maybe_slots(r) == pat_slots(
                old(self)@,
                texts(names@),
                args@,
                rest,
                subject@,
                span,
            ).1,
            r matches Some(v) ==> v.len() == names.len(),
    {
        proof {
            reveal(pat_slots);
        }
        let named: usize = count_named(args);
        assert(texts(names@).len() == names@.len());
        if named != 0 && named != args.len() {
            self.push(say::mixed_pat_args(span));
            return None;
        }
        if named == 0 {
            let want = number(names.len());
            let found = number(args.len());
            if args.len() < names.len() && !rest {
                self.push(
                    say::too_few_pat_args(
                        span,
                        subject,
                        want.as_str(),
                        suffix(names.len()),
                        found.as_str(),
                    ),
                );
                return None;
            }
            if args.len() > names.len() {
                self.push(
                    say::too_many_pat_args(
                        span,
                        subject,
                        want.as_str(),
                        suffix(names.len()),
                        found.as_str(),
                    ),
                );
                return None;
            }
            let mut slots: Vec<Option<usize>> = Vec::new();
            for i in 0..names.len()
                invariant
                    slots.len() == i,
                    forall|j: int|
                        0 <= j < i ==> #[trigger] slots@[j] == positional_slots(
                            names.len() as nat,
                            args.len() as nat,
                        )[j],
            {
                if i < args.len() {
                    slots.push(Some(i));
                } else {
                    slots.push(None);
                }
            }
            assert(slots@ =~= positional_slots(names.len() as nat, args.len() as nat));
            return Some(slots);
        }
        let slots = match self.named_slots(names, args, subject) {
            None => {
                return None;
            },
            Some(slots) => slots,
        };
        let missing = list_unfilled(names, &slots);
        assert(texts(missing@).len() == missing@.len());
        if !rest && missing.len() > 0 {
            let list = join(&missing, ", ");
            self.push(say::missing_pat_fields(span, list.as_str()));
            return None;
        }
        Some(slots)
    }

    fn check_pat(&mut self, pat: &ast::Pat, ty: &Ty) -> (r: Pat)
        ensures
            final(self)@ == check_pat(old(self)@, *pat, ty@).0,
            r@ == check_pat(old(self)@, *pat, ty@).1,
        decreases pat, 3nat, 0nat,
    {
        let span = pat.span;
        match &pat.kind {
            ast::PatKind::Wild => Pat { kind: PatKind::Wild, span },
            ast::PatKind::Binding(name) => {
                if is_builtin_variant(name.name.as_str()) {
                    return self.bare_ctor_pat(name.name.as_str(), ty, span);
                }
                let local = self.declare_local(name.name.as_str(), ty.copy(), false, name.span);
                Pat { kind: PatKind::Bind(local), span }
            },
            ast::PatKind::Int(v) => {
                self.expect_pat_ty(&Ty::I64, ty, span);
                Pat { kind: PatKind::Int(*v), span }
            },
            ast::PatKind::Str(v) => {
                self.expect_pat_ty(&Ty::Str, ty, span);
                Pat { kind: PatKind::Str(v.clone()), span }
            },
            ast::PatKind::Bool(v) => {
                self.expect_pat_ty(&Ty::Bool, ty, span);
                Pat { kind: PatKind::Bool(*v), span }
            },
            ast::PatKind::Or(alts) => {
                let checked = self.check_alternatives(alts, ty);
                if some_bind(&checked) {
                    self.push(say::alternatives_bind(span));
                    return Pat { kind: PatKind::Error, span };
                }
                Pat { kind: PatKind::Or(checked), span }
            },
            ast::PatKind::Construct { path, args, rest } => {
                match self.construct_head(path, ty, span) {
                    None => Pat { kind: PatKind::Error, span },
                    Some(h) => self.construct_pat(&h, args, *rest, span),
                }
            },
        }
    }

    fn bare_ctor_pat(&mut self, name: &str, ty: &Ty, span: Span) -> (r: Pat)
        ensures
            final(self)@ == bare_ctor_pat(old(self)@, name@, ty@, span).0,
            r@ == bare_ctor_pat(old(self)@, name@, ty@, span).1,
    {
        proof {
            reveal(bare_ctor_pat);
        }
        let h = match self.builtin_head(name, ty, span) {
            None => {
                return Pat { kind: PatKind::Error, span };
            },
            Some(h) => h,
        };
        let none: Vec<ast::PatArg> = Vec::new();
        assert(none@ =~= seq![]);
        let slots = match self.pat_slots(&h.names, &none, false, h.subject.as_str(), span) {
            None => {
                return Pat { kind: PatKind::Error, span };
            },
            Some(slots) => slots,
        };
        let mut args: Vec<Pat> = Vec::new();
        for i in 0..slots.len()
            invariant
                args.len() == i,
                forall|j: int| 0 <= j < i ==> #[trigger] args@[j]@ == wild_pat(span),
        {
            args.push(Pat { kind: PatKind::Wild, span });
        }
        assert forall|j: int| 0 <= j < slots@.len() implies #[trigger] pats(args@)[j] == wild_pat(
            span,
        ) by {
            assert(args@[j]@ == wild_pat(span));
        }
        assert(pats(args@) =~= wilds(slots@.len(), span));
        build_pat(h.ctor, args, span)
    }

    fn construct_pat(&mut self, h: &HeadMade, args: &Vec<ast::PatArg>, rest: bool, span: Span) -> (
    r: Pat)
        ensures
            final(self)@ == construct_pat(old(self)@, h@, args@, rest, span).0,
            r@ == construct_pat(old(self)@, h@, args@, rest, span).1,
        decreases args, 2nat, 0nat,
    {
        match self.pat_slots(&h.names, args, rest, h.subject.as_str(), span) {
            None => Pat { kind: PatKind::Error, span },
            Some(slots) => {
                let sub = self.check_slots(&slots, &h.types, args, span);
                build_pat(h.ctor, sub, span)
            },
        }
    }

    fn check_slots(
        &mut self,
        slots: &Vec<Option<usize>>,
        types: &Vec<Ty>,
        args: &Vec<ast::PatArg>,
        span: Span,
    ) -> (r: Vec<Pat>)
        ensures
            final(self)@ == check_slots(old(self)@, slots@, tys(types@), args@, span).0,
            pats(r@) == check_slots(old(self)@, slots@, tys(types@), args@, span).1,
        decreases args, 1nat, 0nat,
    {
        let mut r: Vec<Pat> = Vec::new();
        let ghost start = self@;
        let ghost all = slots@;
        assert(all.take(0) =~= seq![]);
        assert(pats(r@) =~= seq![]);
        for i in 0..slots.len()
            invariant
                all == slots@,
                self@ == check_slots(start, all.take(i as int), tys(types@), args@, span).0,
                pats(r@) == check_slots(start, all.take(i as int), tys(types@), args@, span).1,
        {
            let ghost before = pats(r@);
            assert(all.take(i + 1).drop_last() =~= all.take(i as int));
            let p = match slots[i] {
                Some(k) => {
                    if k < args.len() && i < types.len() {
                        self.check_pat(&args[k].pat, &types[i])
                    } else {
                        Pat { kind: PatKind::Wild, span }
                    }
                },
                None => Pat { kind: PatKind::Wild, span },
            };
            r.push(p);
            assert(pats(r@) =~= before.push(p@));
        }
        assert(all.take(slots.len() as int) =~= all);
        r
    }

    fn check_alternatives(&mut self, alts: &Vec<ast::Pat>, ty: &Ty) -> (r: Vec<Pat>)
        ensures
            final(self)@ == check_alternatives(old(self)@, alts@, ty@).0,
            pats(r@) == check_alternatives(old(self)@, alts@, ty@).1,
        decreases alts, 1nat, 0nat,
    {
        let mut r: Vec<Pat> = Vec::new();
        let ghost start = self@;
        let ghost all = alts@;
        assert(all.take(0) =~= seq![]);
        assert(pats(r@) =~= seq![]);
        for i in 0..alts.len()
            invariant
                all == alts@,
                self@ == check_alternatives(start, all.take(i as int), ty@).0,
                pats(r@) == check_alternatives(start, all.take(i as int), ty@).1,
        {
            let ghost before = pats(r@);
            assert(all.take(i + 1).drop_last() =~= all.take(i as int));
            let p = self.check_pat(&alts[i], ty);
            r.push(p);
            assert(pats(r@) =~= before.push(p@));
        }
        assert(all.take(alts.len() as int) =~= all);
        r
    }

    /// A checked pattern for a value of a type.
    pub fn pattern(&mut self, pat: &ast::Pat, ty: &Ty) -> (r: Pat)
        ensures
            final(self)@ == pattern(old(self)@, *pat, ty@).0,
            r@ == pattern(old(self)@, *pat, ty@).1,
    {
        proof {
            reveal(pattern);
        }
        self.check_pat(pat, ty)
    }
}

fn count_named(args: &Vec<ast::PatArg>) -> (r: usize)
    ensures
        r == named_pats(args@),
{
    let mut n: usize = 0;
    let ghost all = args@;
    assert(all.take(0) =~= seq![]);
    for i in 0..args.len()
        invariant
            all == args@,
            n <= i,
            n == named_pats(all.take(i as int)),
    {
        assert(all.take(i + 1).drop_last() =~= all.take(i as int));
        if args[i].name.is_some() {
            n = n + 1;
        }
    }
    assert(all.take(args.len() as int) =~= all);
    n
}

fn list_unfilled(names: &Vec<String>, slots: &Vec<Option<usize>>) -> (r: Vec<String>)
    requires
        slots.len() == names.len(),
    ensures
        texts(r@) == unfilled(texts(names@), slots@),
{
    let mut r: Vec<String> = Vec::new();
    let ghost all = slots@;
    assert(all.take(0) =~= seq![]);
    assert(texts(r@) =~= seq![]);
    for i in 0..slots.len()
        invariant
            all == slots@,
            slots.len() == names.len(),
            texts(r@) == unfilled(texts(names@), all.take(i as int)),
    {
        let ghost before = texts(r@);
        assert(all.take(i + 1).drop_last() =~= all.take(i as int));
        if slots[i].is_none() {
            r.push(names[i].clone());
            assert(texts(r@) =~= before.push(names@[i as int]@));
        }
    }
    assert(all.take(slots.len() as int) =~= all);
    r
}

fn binds(p: &Pat) -> (r: bool)
    ensures
        r == binds_anything(p@),
    decreases p,
{
    match &p.kind {
        PatKind::Bind(_) => true,
        PatKind::Variant { args, .. } => some_bind(args),
        PatKind::Struct { args, .. } => some_bind(args),
        PatKind::Or(alts) => some_bind(alts),
        _ => false,
    }
}

fn some_bind(list: &Vec<Pat>) -> (r: bool)
    ensures
        r == any_binds(pats(list@)),
    decreases list,
{
    let ghost all = pats(list@);
    let mut found: bool = false;
    assert(all.take(0) =~= seq![]);
    for i in 0..list.len()
        invariant
            all == pats(list@),
            found == any_binds(all.take(i as int)),
    {
        assert(all.take(i + 1).drop_last() =~= all.take(i as int));
        if !found {
            found = binds(&list[i]);
        }
    }
    assert(all.take(list.len() as int) =~= all);
    found
}

} // verus!
