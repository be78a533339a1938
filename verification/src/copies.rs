//! Copies of lists, each holding what the original holds.

use vstd::prelude::*;
use vstd::string::*;
use crate::hir::{bindings, fields_of, named_tys, tys, variants_of, FieldDef, Ty, VariantDef};
use crate::model;
use crate::span::texts;

verus! {

/// A list of plain values.
pub fn plain<T: Copy>(v: &Vec<T>) -> (r: Vec<T>)
    ensures
        r@ == v@,
{
    let mut r: Vec<T> = Vec::new();
    for i in 0..v.len()
        invariant
            r@ == v@.take(i as int),
    {
        r.push(v[i]);
        assert(v@.take(i + 1) =~= v@.take(i as int).push(v@[i as int]));
    }
    assert(v@.take(v.len() as int) =~= v@);
    r
}

pub fn strings(v: &Vec<String>) -> (r: Vec<String>)
    ensures
        texts(r@) == texts(v@),
{
    let mut r: Vec<String> = Vec::new();
    for i in 0..v.len()
        invariant
            r.len() == i,
            forall|j: int| 0 <= j < i ==> #[trigger] r@[j]@ == v@[j]@,
    {
        r.push(v[i].clone());
    }
    assert(texts(r@) =~= texts(v@));
    r
}

pub fn types(v: &Vec<Ty>) -> (r: Vec<Ty>)
    ensures
        tys(r@) == tys(v@),
{
    let mut r: Vec<Ty> = Vec::new();
    for i in 0..v.len()
        invariant
            r.len() == i,
            forall|j: int| 0 <= j < i ==> #[trigger] r@[j]@ == v@[j]@,
    {
        r.push(v[i].copy());
    }
    assert(tys(r@) =~= tys(v@));
    r
}

pub fn named(v: &Vec<(String, Ty)>) -> (r: Vec<(String, Ty)>)
    ensures
        named_tys(r@) == named_tys(v@),
{
    let mut r: Vec<(String, Ty)> = Vec::new();
    for i in 0..v.len()
        invariant
            r.len() == i,
            forall|j: int|
                0 <= j < i ==> (#[trigger] r@[j]).0@ == v@[j].0@ && r@[j].1@ == v@[j].1@,
    {
        r.push((v[i].0.clone(), v[i].1.copy()));
    }
    assert(named_tys(r@) =~= named_tys(v@));
    r
}

pub fn fields(v: &Vec<FieldDef>) -> (r: Vec<FieldDef>)
    ensures
        fields_of(r@) == fields_of(v@),
{
    let mut r: Vec<FieldDef> = Vec::new();
    for i in 0..v.len()
        invariant
            r.len() == i,
            forall|j: int| 0 <= j < i ==> #[trigger] r@[j]@ == v@[j]@,
    {
        r.push(FieldDef { name: v[i].name.clone(), ty: v[i].ty.copy(), span: v[i].span });
    }
    assert(fields_of(r@) =~= fields_of(v@));
    r
}

pub fn variants(v: &Vec<VariantDef>) -> (r: Vec<VariantDef>)
    ensures
        variants_of(r@) == variants_of(v@),
{
    let mut r: Vec<VariantDef> = Vec::new();
    for i in 0..v.len()
        invariant
            r.len() == i,
            forall|j: int| 0 <= j < i ==> #[trigger] r@[j]@ == v@[j]@,
    {
        r.push(
            VariantDef {
                name: v[i].name.clone(),
                fields: fields(&v[i].fields),
                positional: v[i].positional,
                span: v[i].span,
            },
        );
    }
    assert(variants_of(r@) =~= variants_of(v@));
    r
}

/// The names of several fields.
pub open spec fn field_names(s: Seq<model::FieldDef>) -> Seq<Seq<char>> {
    Seq::new(s.len(), |i: int| s[i].name)
}

/// The types of several fields.
pub open spec fn field_tys(s: Seq<model::FieldDef>) -> Seq<model::Ty> {
    Seq::new(s.len(), |i: int| s[i].ty)
}

/// The names of several fields and their types.
pub fn field_lists(v: &Vec<FieldDef>) -> (r: (Vec<String>, Vec<Ty>))
    ensures
        texts(r.0@) == field_names(fields_of(v@)),
        tys(r.1@) == field_tys(fields_of(v@)),
{
    let mut names: Vec<String> = Vec::new();
    let mut types: Vec<Ty> = Vec::new();
    for i in 0..v.len()
        invariant
            names.len() == i,
            types.len() == i,
            forall|j: int| 0 <= j < i ==> #[trigger] names@[j]@ == v@[j].name@,
            forall|j: int| 0 <= j < i ==> #[trigger] types@[j]@ == v@[j].ty@,
    {
        names.push(v[i].name.clone());
        types.push(v[i].ty.copy());
    }
    assert(texts(names@) =~= field_names(fields_of(v@)));
    assert(tys(types@) =~= field_tys(fields_of(v@)));
    (names, types)
}

/// The names of named types.
pub open spec fn first_halves(s: Seq<(Seq<char>, model::Ty)>) -> Seq<Seq<char>> {
    Seq::new(s.len(), |i: int| s[i].0)
}

/// The types of named types.
pub open spec fn second_halves(s: Seq<(Seq<char>, model::Ty)>) -> Seq<model::Ty> {
    Seq::new(s.len(), |i: int| s[i].1)
}

pub fn named_lists(v: &Vec<(String, Ty)>) -> (r: (Vec<String>, Vec<Ty>))
    ensures
        texts(r.0@) == first_halves(named_tys(v@)),
        tys(r.1@) == second_halves(named_tys(v@)),
{
    let mut names: Vec<String> = Vec::new();
    let mut types: Vec<Ty> = Vec::new();
    for i in 0..v.len()
        invariant
            names.len() == i,
            types.len() == i,
            forall|j: int| 0 <= j < i ==> #[trigger] names@[j]@ == v@[j].0@,
            forall|j: int| 0 <= j < i ==> #[trigger] types@[j]@ == v@[j].1@,
    {
        names.push(v[i].0.clone());
        types.push(v[i].1.copy());
    }
    assert(texts(names@) =~= first_halves(named_tys(v@)));
    assert(tys(types@) =~= second_halves(named_tys(v@)));
    (names, types)
}

/// Whether a list holds a string.
pub fn holds(v: &Vec<String>, name: &str) -> (r: bool)
    ensures
        r == texts(v@).contains(name@),
{
    for i in 0..v.len()
        invariant
            forall|j: int| 0 <= j < i ==> #[trigger] texts(v@)[j] != name@,
    {
        if crate::text::same(v[i].as_str(), name) {
            assert(texts(v@)[i as int] == name@);
            return true;
        }
    }
    false
}

/// Where a list first holds `x`.
pub open spec fn place_of<T>(s: Seq<T>, x: T) -> Option<int>
    decreases s.len(),
{
    if s.len() == 0 {
        None
    } else if s[0] == x {
        Some(0)
    } else {
        match place_of(s.skip(1), x) {
            Some(i) => Some(i + 1),
            None => None,
        }
    }
}

/// Where a list first holds `x` is inside it, holds `x`, and nothing before does.
pub proof fn place_is_first<T>(s: Seq<T>, x: T)
    ensures
        match place_of(s, x) {
            Some(i) => 0 <= i < s.len() && s[i] == x && forall|j: int| 0 <= j < i ==> s[j] != x,
            None => forall|j: int| 0 <= j < s.len() ==> s[j] != x,
        },
    decreases s.len(),
{
    if s.len() > 0 && s[0] != x {
        place_is_first(s.skip(1), x);
        assert forall|j: int| 1 <= j < s.len() implies s[j] == #[trigger] s.skip(1)[j - 1] by {}
        match place_of(s.skip(1), x) {
            Some(i) => {
                assert forall|j: int| 0 <= j < i + 1 implies s[j] != x by {
                    if j > 0 {
                        assert(s.skip(1)[j - 1] != x);
                    }
                }
            },
            None => {
                assert forall|j: int| 0 <= j < s.len() implies s[j] != x by {
                    if j > 0 {
                        assert(s.skip(1)[j - 1] != x);
                    }
                }
            },
        }
    }
}

pub proof fn place_is_unique<T>(s: Seq<T>, x: T, k: int)
    requires
        0 <= k < s.len(),
        s[k] == x,
        forall|j: int| 0 <= j < k ==> s[j] != x,
    ensures
        place_of(s, x) == Some(k),
{
    place_is_first(s, x);
    match place_of(s, x) {
        Some(i) => {
            if i < k {
                assert(s[i] != x);
            }
        },
        None => {},
    }
}

pub open spec fn as_place(r: Option<usize>) -> Option<int> {
    match r {
        Some(i) => Some(i as int),
        None => None,
    }
}

/// Where a list of strings first holds one.
pub fn place(v: &Vec<String>, name: &str) -> (r: Option<usize>)
    ensures
        as_place(r) == place_of(texts(v@), name@),
        r matches Some(i) ==> i < v.len(),
{
    for i in 0..v.len()
        invariant
            forall|j: int| 0 <= j < i ==> #[trigger] texts(v@)[j] != name@,
    {
        if crate::text::same(v[i].as_str(), name) {
            assert(texts(v@)[i as int] == name@);
            proof {
                place_is_unique(texts(v@), name@, i as int);
            }
            return Some(i);
        }
    }
    proof {
        place_is_first(texts(v@), name@);
    }
    None
}

/// The types bound so far, as they are.
pub fn bound(v: &Vec<Option<Ty>>) -> (r: Vec<Option<Ty>>)
    ensures
        bindings(r@) == bindings(v@),
{
    let mut r: Vec<Option<Ty>> = Vec::new();
    for i in 0..v.len()
        invariant
            r.len() == i,
            forall|j: int| 0 <= j < i ==> #[trigger] bindings(r@)[j] == bindings(v@)[j],
    {
        let ghost before = r@;
        match &v[i] {
            Some(t) => r.push(Some(t.copy())),
            None => r.push(None),
        }
        assert forall|j: int| 0 <= j < i + 1 implies #[trigger] bindings(r@)[j] == bindings(
            v@,
        )[j] by {
            if j < i {
                assert(bindings(before)[j] == bindings(v@)[j]);
                assert(r@[j] == before[j]);
            }
        }
    }
    assert(bindings(r@) =~= bindings(v@));
    r
}

} // verus!
