//! What a pattern matches, said of the pattern that is written and of the one the program is given.

use vstd::prelude::*;
use crate::ast;
use crate::binding::{declare_local, declare_role};
use crate::hir::{EnumId, ERR, NONE, OK, OPTION, RESULT, SOME};
use crate::model;
use crate::pat::{
    bare_ctor_pat, builtin_head, check_alternatives, check_pat, check_slots, construct_head,
    construct_pat, expect_pat_ty, named_pats, pat_slots, pattern, positional_slots,
};
use crate::state::{builtin_variant, State};

verus! {

/// A value that the patterns here tell apart.
pub enum Shape {
    Int(i64),
    Bool(bool),
    Text(Seq<char>),
    Nothing,
    Just(Box<Shape>),
    Well(Box<Shape>),
    Ill(Box<Shape>),
}

/// What a value carries, under the name of the constructor that made it.
pub open spec fn payload(name: Seq<char>, v: Shape) -> Option<Shape> {
    match v {
        Shape::Just(x) => if name == "Some"@ {
            Some(*x)
        } else {
            None
        },
        Shape::Well(x) => if name == "Ok"@ {
            Some(*x)
        } else {
            None
        },
        Shape::Ill(x) => if name == "Err"@ {
            Some(*x)
        } else {
            None
        },
        _ => None,
    }
}

/// Whether a written pattern matches a value.
pub open spec fn said_to_match(p: ast::Pat, v: Shape) -> bool
    decreases p,
{
    match p.kind {
        ast::PatKind::Wild => true,
        ast::PatKind::Binding(name) => name.name@ != "None"@ || v is Nothing,
        ast::PatKind::Int(n) => v == Shape::Int(n),
        ast::PatKind::Str(t) => v == Shape::Text(t@),
        ast::PatKind::Bool(b) => v == Shape::Bool(b),
        ast::PatKind::Or(alts) => exists|k: int|
            0 <= k < alts@.len() && said_to_match(#[trigger] alts@[k], v),
        ast::PatKind::Construct { path, args, .. } => args@.len() == 1 && payload(
            path.head.name@,
            v,
        ) is Some && said_to_match(args@[0].pat, payload(path.head.name@, v)->0),
    }
}

/// Whether a typed pattern matches a value.
pub open spec fn does_match(p: model::Pat, v: Shape) -> bool
    decreases p,
{
    match p.kind {
        model::PatKind::Wild => true,
        model::PatKind::Bind(_) => true,
        model::PatKind::Int(n) => v == Shape::Int(n),
        model::PatKind::Str(t) => v == Shape::Text(t),
        model::PatKind::Bool(b) => v == Shape::Bool(b),
        model::PatKind::Or(alts) => exists|k: int|
            0 <= k < alts.len() && does_match(#[trigger] alts[k], v),
        model::PatKind::Variant { enum_id, variant, args } => match v {
            Shape::Nothing => enum_id == EnumId(OPTION) && variant == NONE && args.len() == 0,
            Shape::Just(x) => enum_id == EnumId(OPTION) && variant == SOME && args.len() == 1
                && does_match(args[0], *x),
            Shape::Well(x) => enum_id == EnumId(RESULT) && variant == OK && args.len() == 1
                && does_match(args[0], *x),
            Shape::Ill(x) => enum_id == EnumId(RESULT) && variant == ERR && args.len() == 1
                && does_match(args[0], *x),
            _ => false,
        },
        _ => false,
    }
}

/// A typed pattern binds each name at the type of what stands there.
pub open spec fn binds_at(s: State, p: model::Pat, ty: model::Ty) -> bool
    decreases p,
{
    match p.kind {
        model::PatKind::Bind(id) => s.local_ty(id) == ty,
        model::PatKind::Or(alts) => forall|k: int|
            0 <= k < alts.len() ==> binds_at(s, #[trigger] alts[k], ty),
        model::PatKind::Variant { enum_id, variant, args } => match ty {
            model::Ty::Option(t) => enum_id == EnumId(OPTION) && (variant == NONE || (variant
                == SOME && args.len() == 1 && binds_at(s, args[0], *t))),
            model::Ty::Result(t, e) => enum_id == EnumId(RESULT) && args.len() == 1 && ((variant
                == OK && binds_at(s, args[0], *t)) || (variant == ERR && binds_at(
                s,
                args[0],
                *e,
            ))),
            _ => false,
        },
        _ => true,
    }
}

/// Literals, names, `_`, alternatives, and the four constructors written with their payload.
pub open spec fn plain_pat(p: ast::Pat) -> bool
    decreases p,
{
    match p.kind {
        ast::PatKind::Binding(name) => builtin_variant(name.name@) ==> name.name@ == "None"@,
        ast::PatKind::Or(alts) => forall|k: int|
            0 <= k < alts@.len() ==> plain_pat(#[trigger] alts@[k]),
        ast::PatKind::Construct { path, args, rest } => path.rest@.len() == 0 && (path.head.name@
            == "Some"@ || path.head.name@ == "Ok"@ || path.head.name@ == "Err"@) && args@.len() == 1
            && args@[0].name is None && !rest && plain_pat(args@[0].pat),
        _ => true,
    }
}

/// Nothing in a typed pattern stands for a mistake.
pub open spec fn pat_sound(p: model::Pat) -> bool
    decreases p,
{
    match p.kind {
        model::PatKind::Error => false,
        model::PatKind::Variant { args, .. } => forall|k: int|
            0 <= k < args.len() ==> pat_sound(#[trigger] args[k]),
        model::PatKind::Struct { args, .. } => forall|k: int|
            0 <= k < args.len() ==> pat_sound(#[trigger] args[k]),
        model::PatKind::Or(alts) => forall|k: int|
            0 <= k < alts.len() ==> pat_sound(#[trigger] alts[k]),
        _ => true,
    }
}

/// No borrow stands in a type, at any depth that a pattern looks at.
pub open spec fn owned_through(ty: model::Ty) -> bool
    decreases ty,
{
    match ty {
        model::Ty::Ref(_) => false,
        model::Ty::Option(t) => owned_through(*t),
        model::Ty::Result(t, e) => owned_through(*t) && owned_through(*e),
        _ => true,
    }
}

/// The locals there were are the locals there are, and more may have come.
pub open spec fn more_locals(a: State, b: State) -> bool {
    &&& a.locals.len() <= b.locals.len()
    &&& forall|i: int| 0 <= i < a.locals.len() ==> #[trigger] b.locals[i] == a.locals[i]
}

proof fn binds_at_later(a: State, b: State, p: model::Pat, ty: model::Ty)
    requires
        more_locals(a, b),
        binds_at(a, p, ty),
        no_errors(ty),
    ensures
        binds_at(b, p, ty),
    decreases p,
{
    reveal(State::local_ty);
    match p.kind {
        model::PatKind::Or(alts) => {
            assert forall|k: int| 0 <= k < alts.len() implies binds_at(
                b,
                #[trigger] alts[k],
                ty,
            ) by {
                binds_at_later(a, b, alts[k], ty);
            }
        },
        model::PatKind::Variant { enum_id, variant, args } => match ty {
            model::Ty::Option(t) => {
                if variant != NONE {
                    binds_at_later(a, b, args[0], *t);
                }
            },
            model::Ty::Result(t, e) => {
                if binds_at(a, args[0], *t) {
                    binds_at_later(a, b, args[0], *t);
                }
                if binds_at(a, args[0], *e) {
                    binds_at_later(a, b, args[0], *e);
                }
            },
            _ => {},
        },
        _ => {},
    }
}

/// No mistake stands in a type, at any depth that a pattern looks at.
pub open spec fn no_errors(ty: model::Ty) -> bool
    decreases ty,
{
    match ty {
        model::Ty::Error => false,
        model::Ty::Option(t) => no_errors(*t),
        model::Ty::Result(t, e) => no_errors(*t) && no_errors(*e),
        _ => true,
    }
}

proof fn names_differ()
    ensures
        "None"@ != "Some"@,
        "None"@ != "Ok"@,
        "None"@ != "Err"@,
        "Some"@ != "Ok"@,
        "Some"@ != "Err"@,
        "Ok"@ != "Err"@,
{
    reveal_strlit("None");
    reveal_strlit("Some");
    reveal_strlit("Ok");
    reveal_strlit("Err");
    assert("None"@[0] == 'N');
    assert("Some"@[0] == 'S');
    assert("Ok"@.len() == 2);
    assert("Err"@.len() == 3);
}

proof fn reporting_keeps_locals(
    s: State,
    found: model::Ty,
    want: model::Ty,
    span: crate::span::Span,
)
    ensures
        expect_pat_ty(s, found, want, span).locals == s.locals,
{
    reveal(expect_pat_ty);
    reveal(State::push);
}

proof fn sound_alternatives(p: model::Pat, alts: Seq<model::Pat>)
    requires
        p.kind == model::PatKind::Or(alts),
        pat_sound(p),
    ensures
        forall|k: int| 0 <= k < alts.len() ==> pat_sound(#[trigger] alts[k]),
{
    assert forall|k: int| 0 <= k < alts.len() implies pat_sound(#[trigger] alts[k]) by {
        assert(p.kind->Or_0 == alts);
        assert(pat_sound(p.kind->Or_0[k]));
    }
}

proof fn alternatives_decide(
    p: ast::Pat,
    alts: Seq<ast::Pat>,
    got: model::Pat,
    checked: Seq<model::Pat>,
    v: Shape,
)
    requires
        p.kind is Or,
        p.kind->Or_0@ == alts,
        got.kind == model::PatKind::Or(checked),
        checked.len() == alts.len(),
        forall|k: int|
            0 <= k < alts.len() ==> does_match(#[trigger] checked[k], v) == said_to_match(
                alts[k],
                v,
            ),
    ensures
        does_match(got, v) == said_to_match(p, v),
{
    if said_to_match(p, v) {
        let k = choose|k: int| 0 <= k < alts.len() && said_to_match(#[trigger] alts[k], v);
        assert(does_match(checked[k], v));
        assert(does_match(got.kind->Or_0[k], v));
    }
    if does_match(got, v) {
        let k = choose|k: int| 0 <= k < checked.len() && does_match(#[trigger] checked[k], v);
        assert(said_to_match(alts[k], v));
        assert(said_to_match(p.kind->Or_0@[k], v));
    }
}

proof fn patterns_match(s: State, p: ast::Pat, ty: model::Ty, v: Shape)
    requires
        plain_pat(p),
        pat_sound(check_pat(s, p, ty).1),
        owned_through(ty),
        no_errors(ty),
        check_pat(s, p, ty).0.locals.len() <= u32::MAX,
    ensures
        does_match(check_pat(s, p, ty).1, v) == said_to_match(p, v),
        binds_at(check_pat(s, p, ty).0, check_pat(s, p, ty).1, ty),
        more_locals(s, check_pat(s, p, ty).0),
    decreases p,
{
    let span = p.span;
    names_differ();
    match p.kind {
        ast::PatKind::Binding(name) => {
            if builtin_variant(name.name@) {
                reveal(bare_ctor_pat);
                reveal(builtin_head);
                reveal(pat_slots);
                reveal(State::push);
            } else {
                reveal(declare_local);
                reveal(declare_role);
                reveal(State::bound);
                reveal(State::local_ty);
            }
        },
        ast::PatKind::Int(_) => reporting_keeps_locals(s, model::Ty::I64, ty, span),
        ast::PatKind::Str(_) => reporting_keeps_locals(s, model::Ty::Str, ty, span),
        ast::PatKind::Bool(_) => reporting_keeps_locals(s, model::Ty::Bool, ty, span),
        ast::PatKind::Or(alts) => {
            assert(decreases_to!(p => alts));
            assert(decreases_to!(alts => alts@));
            reveal(State::push);
            let (s1, checked) = check_alternatives(s, alts@, ty);
            let got = check_pat(s, p, ty).1;
            assert(got.kind == model::PatKind::Or(checked));
            sound_alternatives(got, checked);
            alternatives_match(s, alts@, ty, v);
            alternatives_decide(p, alts@, got, checked, v);
        },
        ast::PatKind::Construct { path, args, rest } => {
            assert(decreases_to!(p => args));
            assert(decreases_to!(args => args@));
            constructs_match(s, p, ty, v);
        },
        _ => {},
    }
}

proof fn constructs_match(s: State, p: ast::Pat, ty: model::Ty, v: Shape)
    requires
        plain_pat(p),
        p.kind is Construct,
        pat_sound(check_pat(s, p, ty).1),
        owned_through(ty),
        no_errors(ty),
        check_pat(s, p, ty).0.locals.len() <= u32::MAX,
        decreases_to!(p => p.kind->Construct_args@),
    ensures
        does_match(check_pat(s, p, ty).1, v) == said_to_match(p, v),
        binds_at(check_pat(s, p, ty).0, check_pat(s, p, ty).1, ty),
        more_locals(s, check_pat(s, p, ty).0),
    decreases p, 0nat,
{
    names_differ();
    let path = p.kind->Construct_path;
    let args = p.kind->Construct_args@;
    let name = path.head.name@;
    let span = p.span;
    let (s1, head) = construct_head(s, path, ty, span);
    assert((s1, head) == builtin_head(s, name, ty, span)) by {
        reveal(construct_head);
    }
    reveal(builtin_head);
    assert(head is Some);
    let h = head->0;
    assert(h.types.len() == 1 && h.names.len() == 1 && s1 == s);
    assert(named_pats(args) == 0) by {
        assert(args.last() == args[0]);
        assert(args.drop_last().len() == 0);
        assert(named_pats(args.drop_last()) == 0);
    }
    let slots = positional_slots(1, 1);
    assert(pat_slots(s1, h.names, args, false, h.subject, span) == (s1, Some(slots))) by {
        reveal(pat_slots);
    }
    let inner = check_pat(s1, args[0].pat, h.types[0]);
    let sub = check_slots(s1, slots, h.types, args, span);
    assert(slots.drop_last().len() == 0);
    assert(check_slots(s1, slots.drop_last(), h.types, args, span).1.len() == 0);
    assert(check_slots(s1, slots.drop_last(), h.types, args, span).0 == s1);
    assert(slots.last() == Some(0usize));
    assert(sub.0 == inner.0);
    assert(sub.1.len() == 1 && sub.1[0] == inner.1);
    let got = check_pat(s, p, ty);
    assert(got == construct_pat(s1, h, args, false, span));
    assert(decreases_to!(args => args[0]));
    assert(decreases_to!(args[0] => args[0].pat));
    match got.1.kind {
        model::PatKind::Variant { args: list, .. } => {
            assert(list == sub.1);
            assert(pat_sound(list[0]));
        },
        _ => {},
    }
    let w = match payload(name, v) {
        Some(x) => x,
        None => v,
    };
    patterns_match(s1, args[0].pat, h.types[0], w);
}

proof fn alternatives_match(s: State, alts: Seq<ast::Pat>, ty: model::Ty, v: Shape)
    requires
        forall|k: int| 0 <= k < alts.len() ==> plain_pat(#[trigger] alts[k]),
        ({
            let (s1, checked) = check_alternatives(s, alts, ty);
            &&& forall|k: int| 0 <= k < checked.len() ==> pat_sound(#[trigger] checked[k])
            &&& s1.locals.len() <= u32::MAX
        }),
        owned_through(ty),
        no_errors(ty),
    ensures
        ({
            let (s1, checked) = check_alternatives(s, alts, ty);
            &&& checked.len() == alts.len()
            &&& more_locals(s, s1)
            &&& forall|k: int|
                0 <= k < alts.len() ==> does_match(#[trigger] checked[k], v) == said_to_match(
                    alts[k],
                    v,
                ) && binds_at(s1, checked[k], ty)
        }),
    decreases alts,
{
    if alts.len() > 0 {
        let init = alts.drop_last();
        let (s0, first) = check_alternatives(s, init, ty);
        let (s1, checked) = check_alternatives(s, alts, ty);
        let (s2, last) = check_pat(s0, alts.last(), ty);
        assert(checked == first.push(last));
        assert forall|k: int| 0 <= k < init.len() implies plain_pat(#[trigger] init[k]) by {
            assert(plain_pat(alts[k]));
        }
        assert forall|k: int| 0 <= k < first.len() implies pat_sound(#[trigger] first[k]) by {
            assert(pat_sound(checked[k]));
        }
        assert(checked[first.len() as int] == last);
        assert(pat_sound(last));
        assert(plain_pat(alts[alts.len() - 1]));
        assert(decreases_to!(alts => alts.last()));
        patterns_match(s0, alts.last(), ty, v);
        alternatives_match(s, init, ty, v);
        assert forall|k: int| 0 <= k < alts.len() implies does_match(#[trigger] checked[k], v)
            == said_to_match(alts[k], v) && binds_at(s1, checked[k], ty) by {
            if k < init.len() {
                assert(checked[k] == first[k]);
                assert(init[k] == alts[k]);
                binds_at_later(s0, s1, first[k], ty);
            }
        }
    }
}

/// Typing a pattern keeps what it matches, and gives each name it binds the type of what stands in
/// its place.
pub proof fn patterns_keep_what_they_match(s: State, p: ast::Pat, ty: model::Ty, v: Shape)
    requires
        plain_pat(p),
        pat_sound(pattern(s, p, ty).1),
        owned_through(ty),
        no_errors(ty),
        pattern(s, p, ty).0.locals.len() <= u32::MAX,
    ensures
        does_match(pattern(s, p, ty).1, v) == said_to_match(p, v),
        binds_at(pattern(s, p, ty).0, pattern(s, p, ty).1, ty),
        more_locals(s, pattern(s, p, ty).0),
{
    reveal(pattern);
    patterns_match(s, p, ty, v);
}

} // verus!
