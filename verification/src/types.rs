//! Types as values: when two are the same, when one will do for another, how one is spelled, and
//! which have exactly one owner.

use vstd::prelude::*;
use vstd::string::*;
use crate::hir::{fields_of, EnumDef, FieldDef, Program, Resource, Ty};
use crate::model;

verus! {

// ---------------------------------------------------------------- equality and copies

impl Ty {
    /// A copy that means the same type.
    pub fn copy(&self) -> (r: Ty)
        ensures
            r@ == self@,
        decreases self,
    {
        match self {
            Ty::Unit => Ty::Unit,
            Ty::I64 => Ty::I64,
            Ty::F64 => Ty::F64,
            Ty::Bool => Ty::Bool,
            Ty::Str => Ty::Str,
            Ty::Bytes => Ty::Bytes,
            Ty::Resource(r) => Ty::Resource(*r),
            Ty::Reactor(id) => Ty::Reactor(*id),
            Ty::Never => Ty::Never,
            Ty::Error => Ty::Error,
            Ty::Param { index, name } => Ty::Param { index: *index, name: name.clone() },
            Ty::Option(t) => Ty::Option(Box::new(t.copy())),
            Ty::Result(t, e) => Ty::Result(Box::new(t.copy()), Box::new(e.copy())),
            Ty::Task(t) => Ty::Task(Box::new(t.copy())),
            Ty::Shared(t) => Ty::Shared(Box::new(t.copy())),
            Ty::Slots(t) => Ty::Slots(Box::new(t.copy())),
            Ty::Input(t) => Ty::Input(Box::new(t.copy())),
            Ty::Signal(t) => Ty::Signal(Box::new(t.copy())),
            Ty::Event(t) => Ty::Event(Box::new(t.copy())),
            Ty::Ref(t) => Ty::Ref(Box::new(t.copy())),
            Ty::Struct(id) => Ty::Struct(*id),
            Ty::Enum(id) => Ty::Enum(*id),
        }
    }

    pub fn equals(&self, other: &Ty) -> (r: bool)
        ensures
            r == (self@ == other@),
        decreases self,
    {
        match (self, other) {
            (Ty::Unit, Ty::Unit) => true,
            (Ty::I64, Ty::I64) => true,
            (Ty::F64, Ty::F64) => true,
            (Ty::Bool, Ty::Bool) => true,
            (Ty::Str, Ty::Str) => true,
            (Ty::Bytes, Ty::Bytes) => true,
            (Ty::Resource(a), Ty::Resource(b)) => *a == *b,
            (Ty::Reactor(a), Ty::Reactor(b)) => *a == *b,
            (Ty::Never, Ty::Never) => true,
            (Ty::Error, Ty::Error) => true,
            (Ty::Param { index: i, name: a }, Ty::Param { index: j, name: b }) => *i == *j && *a
                == *b,
            (Ty::Option(a), Ty::Option(b)) => a.equals(b),
            (Ty::Result(a, x), Ty::Result(b, y)) => a.equals(b) && x.equals(y),
            (Ty::Task(a), Ty::Task(b)) => a.equals(b),
            (Ty::Shared(a), Ty::Shared(b)) => a.equals(b),
            (Ty::Slots(a), Ty::Slots(b)) => a.equals(b),
            (Ty::Input(a), Ty::Input(b)) => a.equals(b),
            (Ty::Signal(a), Ty::Signal(b)) => a.equals(b),
            (Ty::Event(a), Ty::Event(b)) => a.equals(b),
            (Ty::Ref(a), Ty::Ref(b)) => a.equals(b),
            (Ty::Struct(a), Ty::Struct(b)) => *a == *b,
            (Ty::Enum(a), Ty::Enum(b)) => *a == *b,
            _ => false,
        }
    }
}

impl model::Ty {
    /// Whether a value of this type will do where `expected` is wanted. What was already reported
    /// fits anywhere and takes anything, and an expression that does not come back fits anywhere.
    pub open spec fn fits(self, expected: model::Ty) -> bool
        decreases self,
    {
        match (self, expected) {
            (model::Ty::Error, _) => true,
            (_, model::Ty::Error) => true,
            (model::Ty::Never, _) => true,
            (model::Ty::Option(a), model::Ty::Option(b)) => a.fits(*b),
            (model::Ty::Result(a, x), model::Ty::Result(b, y)) => a.fits(*b) && x.fits(*y),
            (model::Ty::Task(a), model::Ty::Task(b)) => a.fits(*b),
            (model::Ty::Shared(a), model::Ty::Shared(b)) => a.fits(*b),
            (model::Ty::Slots(a), model::Ty::Slots(b)) => a.fits(*b),
            (model::Ty::Input(a), model::Ty::Input(b)) => a.fits(*b),
            (model::Ty::Signal(a), model::Ty::Signal(b)) => a.fits(*b),
            (model::Ty::Event(a), model::Ty::Event(b)) => a.fits(*b),
            (model::Ty::Ref(a), model::Ty::Ref(b)) => a.fits(*b),
            _ => self == expected,
        }
    }
}

impl Ty {
    pub fn fits(&self, expected: &Ty) -> (r: bool)
        ensures
            r == self@.fits(expected@),
        decreases self,
    {
        match (self, expected) {
            (Ty::Error, _) => true,
            (_, Ty::Error) => true,
            (Ty::Never, _) => true,
            (Ty::Option(a), Ty::Option(b)) => a.fits(b),
            (Ty::Result(a, x), Ty::Result(b, y)) => a.fits(b) && x.fits(y),
            (Ty::Task(a), Ty::Task(b)) => a.fits(b),
            (Ty::Shared(a), Ty::Shared(b)) => a.fits(b),
            (Ty::Slots(a), Ty::Slots(b)) => a.fits(b),
            (Ty::Input(a), Ty::Input(b)) => a.fits(b),
            (Ty::Signal(a), Ty::Signal(b)) => a.fits(b),
            (Ty::Event(a), Ty::Event(b)) => a.fits(b),
            (Ty::Ref(a), Ty::Ref(b)) => a.fits(b),
            _ => self.equals(expected),
        }
    }
}

/// A type is good enough wherever it is itself expected.
pub proof fn fits_itself(t: model::Ty)
    ensures
        t.fits(t),
    decreases t,
{
    match t {
        model::Ty::Option(a) => fits_itself(*a),
        model::Ty::Result(a, x) => {
            fits_itself(*a);
            fits_itself(*x);
        },
        model::Ty::Task(a) => fits_itself(*a),
        model::Ty::Shared(a) => fits_itself(*a),
        model::Ty::Slots(a) => fits_itself(*a),
        model::Ty::Input(a) => fits_itself(*a),
        model::Ty::Signal(a) => fits_itself(*a),
        model::Ty::Event(a) => fits_itself(*a),
        model::Ty::Ref(a) => fits_itself(*a),
        _ => {},
    }
}

/// A type with nothing already reported and nothing that does not come back anywhere in it.
pub open spec fn settled(t: model::Ty) -> bool
    decreases t,
{
    match t {
        model::Ty::Error | model::Ty::Never => false,
        model::Ty::Option(a) => settled(*a),
        model::Ty::Result(a, x) => settled(*a) && settled(*x),
        model::Ty::Task(a) => settled(*a),
        model::Ty::Shared(a) => settled(*a),
        model::Ty::Slots(a) => settled(*a),
        model::Ty::Input(a) => settled(*a),
        model::Ty::Signal(a) => settled(*a),
        model::Ty::Event(a) => settled(*a),
        model::Ty::Ref(a) => settled(*a),
        _ => true,
    }
}

/// Between settled types, fitting is being the same type: the leniency is only ever for what was
/// already reported and for what does not come back.
pub proof fn settled_types_fit_only_themselves(found: model::Ty, expected: model::Ty)
    requires
        settled(found),
        settled(expected),
    ensures
        found.fits(expected) == (found == expected),
    decreases found,
{
    match (found, expected) {
        (model::Ty::Option(a), model::Ty::Option(b)) => settled_types_fit_only_themselves(*a, *b),
        (model::Ty::Result(a, x), model::Ty::Result(b, y)) => {
            settled_types_fit_only_themselves(*a, *b);
            settled_types_fit_only_themselves(*x, *y);
        },
        (model::Ty::Task(a), model::Ty::Task(b)) => settled_types_fit_only_themselves(*a, *b),
        (model::Ty::Shared(a), model::Ty::Shared(b)) => settled_types_fit_only_themselves(*a, *b),
        (model::Ty::Slots(a), model::Ty::Slots(b)) => settled_types_fit_only_themselves(*a, *b),
        (model::Ty::Input(a), model::Ty::Input(b)) => settled_types_fit_only_themselves(*a, *b),
        (model::Ty::Signal(a), model::Ty::Signal(b)) => settled_types_fit_only_themselves(*a, *b),
        (model::Ty::Event(a), model::Ty::Event(b)) => settled_types_fit_only_themselves(*a, *b),
        (model::Ty::Ref(a), model::Ty::Ref(b)) => settled_types_fit_only_themselves(*a, *b),
        _ => {},
    }
}

/// Equality for signature conformance: each fits the other, so that what was already reported is
/// not reported twice.
pub fn same_ty(a: &Ty, b: &Ty) -> (r: bool)
    ensures
        r == (a@.fits(b@) && b@.fits(a@)),
{
    a.fits(b) && b.fits(a)
}

// ---------------------------------------------------------------- spelling

pub open spec fn resource_name(r: Resource) -> Seq<char> {
    match r {
        Resource::Listener => "Listener"@,
        Resource::Connection => "Connection"@,
        Resource::File => "File"@,
        Resource::Flow => "Flow<Bytes>"@,
    }
}

/// How a type is written in a diagnostic.
pub open spec fn ty_name(p: model::Program, t: model::Ty) -> Seq<char>
    decreases t,
{
    match t {
        model::Ty::Unit => "()"@,
        model::Ty::I64 => "I64"@,
        model::Ty::F64 => "F64"@,
        model::Ty::Bool => "Bool"@,
        model::Ty::Str => "String"@,
        model::Ty::Bytes => "Bytes"@,
        model::Ty::Resource(r) => resource_name(r),
        model::Ty::Reactor(id) => if id.0 < p.reactors.len() {
            p.reactors[id.0 as int].name
        } else {
            "a reactor"@
        },
        model::Ty::Never => "Never"@,
        model::Ty::Error => "an unknown type"@,
        model::Ty::Param { index, name } => name,
        model::Ty::Option(a) => "Option<"@ + ty_name(p, *a) + ">"@,
        model::Ty::Result(a, e) => "Result<"@ + ty_name(p, *a) + ", "@ + ty_name(p, *e) + ">"@,
        model::Ty::Task(a) => "Task<"@ + ty_name(p, *a) + ">"@,
        model::Ty::Shared(a) => "Shared<"@ + ty_name(p, *a) + ">"@,
        model::Ty::Slots(a) => "Slots<"@ + ty_name(p, *a) + ">"@,
        model::Ty::Input(a) => "Input<"@ + ty_name(p, *a) + ">"@,
        model::Ty::Signal(a) => "Signal<"@ + ty_name(p, *a) + ">"@,
        model::Ty::Event(a) => "Event<"@ + ty_name(p, *a) + ">"@,
        model::Ty::Ref(a) => "&"@ + ty_name(p, *a),
        model::Ty::Struct(id) => if id.0 < p.structs.len() {
            p.structs[id.0 as int].name
        } else {
            "a struct"@
        },
        model::Ty::Enum(id) => if id.0 < p.enums.len() {
            p.enums[id.0 as int].name
        } else {
            "an enum"@
        },
    }
}

fn resource_text(r: Resource) -> (s: &'static str)
    ensures
        s@ == resource_name(r),
{
    match r {
        Resource::Listener => "Listener",
        Resource::Connection => "Connection",
        Resource::File => "File",
        Resource::Flow => "Flow<Bytes>",
    }
}

impl Program {
    /// How a type is written in a diagnostic.
    pub fn ty_name(&self, t: &Ty) -> (s: String)
        ensures
            s@ == ty_name(self@, t@),
        decreases t,
    {
        match t {
            Ty::Unit => "()".to_owned(),
            Ty::I64 => "I64".to_owned(),
            Ty::F64 => "F64".to_owned(),
            Ty::Bool => "Bool".to_owned(),
            Ty::Str => "String".to_owned(),
            Ty::Bytes => "Bytes".to_owned(),
            Ty::Resource(r) => resource_text(*r).to_owned(),
            Ty::Reactor(id) => if (id.0 as usize) < self.reactors.len() {
                self.reactors[id.0 as usize].name.clone()
            } else {
                "a reactor".to_owned()
            },
            Ty::Never => "Never".to_owned(),
            Ty::Error => "an unknown type".to_owned(),
            Ty::Param { index: _, name } => name.clone(),
            Ty::Option(a) => "Option<".to_owned().concat(self.ty_name(a).as_str()).concat(">"),
            Ty::Result(a, e) => "Result<".to_owned().concat(self.ty_name(a).as_str()).concat(
                ", ",
            ).concat(self.ty_name(e).as_str()).concat(">"),
            Ty::Task(a) => "Task<".to_owned().concat(self.ty_name(a).as_str()).concat(">"),
            Ty::Shared(a) => "Shared<".to_owned().concat(self.ty_name(a).as_str()).concat(">"),
            Ty::Slots(a) => "Slots<".to_owned().concat(self.ty_name(a).as_str()).concat(">"),
            Ty::Input(a) => "Input<".to_owned().concat(self.ty_name(a).as_str()).concat(">"),
            Ty::Signal(a) => "Signal<".to_owned().concat(self.ty_name(a).as_str()).concat(">"),
            Ty::Event(a) => "Event<".to_owned().concat(self.ty_name(a).as_str()).concat(">"),
            Ty::Ref(a) => "&".to_owned().concat(self.ty_name(a).as_str()),
            Ty::Struct(id) => if (id.0 as usize) < self.structs.len() {
                self.structs[id.0 as usize].name.clone()
            } else {
                "a struct".to_owned()
            },
            Ty::Enum(id) => if (id.0 as usize) < self.enums.len() {
                self.enums[id.0 as usize].name.clone()
            } else {
                "an enum".to_owned()
            },
        }
    }
}

// ---------------------------------------------------------------- single ownership

/// Whether looking through at most `n` levels of struct fields and enum payloads finds a resource
/// or a task in a value of type `t`.
pub open spec fn affine_within(p: model::Program, t: model::Ty, n: nat) -> bool
    decreases n, t,
{
    match t {
        model::Ty::Resource(_) => true,
        model::Ty::Task(_) => true,
        model::Ty::Option(a) => affine_within(p, *a, n),
        model::Ty::Result(a, e) => affine_within(p, *a, n) || affine_within(p, *e, n),
        model::Ty::Struct(id) => {
            &&& n > 0
            &&& id.0 < p.structs.len()
            &&& exists|i: int|
                0 <= i < p.structs[id.0 as int].fields.len() && affine_within(p, (#[trigger] p.structs[id.0 as int].fields[i]).ty, (n - 1) as nat)
        },
        model::Ty::Enum(id) => {
            &&& n > 0
            &&& id.0 < p.enums.len()
            &&& exists|v: int, i: int|
                0 <= v < p.enums[id.0 as int].variants.len() && 0 <= i
                    < p.enums[id.0 as int].variants[v].fields.len() && affine_within(p, (#[trigger] p.enums[id.0 as int].variants[v].fields[i]).ty, (n - 1) as nat)
        },
        _ => false,
    }
}

/// Whether a value of type `t` has exactly one owner: it is a resource or a task, or an aggregate
/// that reaches one.
pub open spec fn affine(p: model::Program, t: model::Ty) -> bool {
    exists|n: nat| affine_within(p, t, n)
}

/// Which structs and enums of one program are affine.
pub struct Affinity {
    pub structs: Vec<bool>,
    pub enums: Vec<bool>,
}

/// Whether a table of affine structs and enums makes `t` affine.
pub open spec fn marked(structs: Seq<bool>, enums: Seq<bool>, t: model::Ty) -> bool
    decreases t,
{
    match t {
        model::Ty::Resource(_) => true,
        model::Ty::Task(_) => true,
        model::Ty::Option(a) => marked(structs, enums, *a),
        model::Ty::Result(a, e) => marked(structs, enums, *a) || marked(structs, enums, *e),
        model::Ty::Struct(id) => id.0 < structs.len() && structs[id.0 as int],
        model::Ty::Enum(id) => id.0 < enums.len() && enums[id.0 as int],
        _ => false,
    }
}

spec fn some_field(structs: Seq<bool>, enums: Seq<bool>, fields: Seq<model::FieldDef>) -> bool {
    exists|i: int| 0 <= i < fields.len() && #[trigger] marked(structs, enums, fields[i].ty)
}

spec fn some_variant(
    structs: Seq<bool>,
    enums: Seq<bool>,
    variants: Seq<model::VariantDef>,
) -> bool {
    exists|v: int|
        0 <= v < variants.len() && #[trigger] some_field(structs, enums, variants[v].fields)
}

/// Every mark is deserved.
spec fn sound(p: model::Program, structs: Seq<bool>, enums: Seq<bool>) -> bool {
    &&& structs.len() == p.structs.len()
    &&& enums.len() == p.enums.len()
    &&& forall|i: u32|
        i < structs.len() && #[trigger] structs[i as int] ==> affine(
            p,
            model::Ty::Struct(crate::hir::StructId(i)),
        )
    &&& forall|i: u32|
        i < enums.len() && #[trigger] enums[i as int] ==> affine(
            p,
            model::Ty::Enum(crate::hir::EnumId(i)),
        )
}

/// No further mark is owed.
spec fn closed(p: model::Program, structs: Seq<bool>, enums: Seq<bool>) -> bool {
    &&& forall|i: int|
        0 <= i < structs.len() && !(#[trigger] structs[i]) ==> !some_field(
            structs,
            enums,
            p.structs[i].fields,
        )
    &&& forall|i: int|
        0 <= i < enums.len() && !(#[trigger] enums[i]) ==> !some_variant(
            structs,
            enums,
            p.enums[i].variants,
        )
}

proof fn marks_are_deserved(
    p: model::Program,
    structs: Seq<bool>,
    enums: Seq<bool>,
    t: model::Ty,
)
    requires
        sound(p, structs, enums),
        marked(structs, enums, t),
    ensures
        affine(p, t),
    decreases t,
{
    match t {
        model::Ty::Resource(_) => {
            assert(affine_within(p, t, 0));
        },
        model::Ty::Task(_) => {
            assert(affine_within(p, t, 0));
        },
        model::Ty::Option(a) => {
            marks_are_deserved(p, structs, enums, *a);
            let n = choose|n: nat| affine_within(p, *a, n);
            assert(affine_within(p, t, n));
        },
        model::Ty::Result(a, e) => {
            if marked(structs, enums, *a) {
                marks_are_deserved(p, structs, enums, *a);
                let n = choose|n: nat| affine_within(p, *a, n);
                assert(affine_within(p, t, n));
            } else {
                marks_are_deserved(p, structs, enums, *e);
                let n = choose|n: nat| affine_within(p, *e, n);
                assert(affine_within(p, t, n));
            }
        },
        model::Ty::Struct(id) => {
            assert(structs[id.0 as int]);
            assert(affine(p, model::Ty::Struct(crate::hir::StructId(id.0))));
        },
        model::Ty::Enum(id) => {
            assert(enums[id.0 as int]);
            assert(affine(p, model::Ty::Enum(crate::hir::EnumId(id.0))));
        },
        _ => {},
    }
}

proof fn closed_marks_everything(
    p: model::Program,
    structs: Seq<bool>,
    enums: Seq<bool>,
    t: model::Ty,
    n: nat,
)
    requires
        structs.len() == p.structs.len(),
        enums.len() == p.enums.len(),
        closed(p, structs, enums),
        affine_within(p, t, n),
    ensures
        marked(structs, enums, t),
    decreases n, t,
{
    match t {
        model::Ty::Option(a) => closed_marks_everything(p, structs, enums, *a, n),
        model::Ty::Result(a, e) => {
            if affine_within(p, *a, n) {
                closed_marks_everything(p, structs, enums, *a, n);
            } else {
                closed_marks_everything(p, structs, enums, *e, n);
            }
        },
        model::Ty::Struct(id) => {
            let fields = p.structs[id.0 as int].fields;
            let i = choose|i: int|
                0 <= i < fields.len() && affine_within(p, (#[trigger] fields[i]).ty, (n - 1) as nat);
            closed_marks_everything(p, structs, enums, fields[i].ty, (n - 1) as nat);
            assert(some_field(structs, enums, fields));
        },
        model::Ty::Enum(id) => {
            let variants = p.enums[id.0 as int].variants;
            let (v, i) = choose|v: int, i: int|
                0 <= v < variants.len() && 0 <= i < variants[v].fields.len()
                    && affine_within(p, (#[trigger] variants[v].fields[i]).ty, (n - 1) as nat);
            closed_marks_everything(p, structs, enums, variants[v].fields[i].ty, (n - 1) as nat);
            assert(some_field(structs, enums, variants[v].fields));
            assert(some_variant(structs, enums, variants));
        },
        _ => {},
    }
}

fn is_marked(structs: &Vec<bool>, enums: &Vec<bool>, t: &Ty) -> (r: bool)
    ensures
        r == marked(structs@, enums@, t@),
    decreases t,
{
    match t {
        Ty::Resource(_) => true,
        Ty::Task(_) => true,
        Ty::Option(a) => is_marked(structs, enums, a),
        Ty::Result(a, e) => is_marked(structs, enums, a) || is_marked(structs, enums, e),
        Ty::Struct(id) => (id.0 as usize) < structs.len() && structs[id.0 as usize],
        Ty::Enum(id) => (id.0 as usize) < enums.len() && enums[id.0 as usize],
        _ => false,
    }
}

fn any_field(structs: &Vec<bool>, enums: &Vec<bool>, fields: &Vec<FieldDef>) -> (r: bool)
    ensures
        r == some_field(structs@, enums@, fields_of(fields@)),
{
    for i in 0..fields.len()
        invariant
            forall|j: int|
                0 <= j < i ==> !(#[trigger] marked(structs@, enums@, fields_of(fields@)[j].ty)),
    {
        if is_marked(structs, enums, &fields[i].ty) {
            assert(marked(structs@, enums@, fields_of(fields@)[i as int].ty));
            return true;
        }
    }
    false
}

fn any_variant(structs: &Vec<bool>, enums: &Vec<bool>, def: &EnumDef) -> (r: bool)
    ensures
        r == some_variant(structs@, enums@, def@.variants),
{
    for v in 0..def.variants.len()
        invariant
            forall|j: int|
                0 <= j < v ==> !(#[trigger] some_field(
                    structs@,
                    enums@,
                    def@.variants[j].fields,
                )),
    {
        if any_field(structs, enums, &def.variants[v].fields) {
            assert(some_field(structs@, enums@, def@.variants[v as int].fields));
            return true;
        }
    }
    false
}

spec fn unmarked(marks: Seq<bool>) -> nat
    decreases marks.len(),
{
    if marks.len() == 0 {
        0
    } else {
        unmarked(marks.drop_last()) + if marks.last() {
            0nat
        } else {
            1nat
        }
    }
}

proof fn marking_counts(marks: Seq<bool>, i: int)
    requires
        0 <= i < marks.len(),
        !marks[i],
    ensures
        unmarked(marks.update(i, true)) + 1 == unmarked(marks),
    decreases marks.len(),
{
    let after = marks.update(i, true);
    if i == marks.len() - 1 {
        assert(after.drop_last() =~= marks.drop_last());
    } else {
        assert(after.drop_last() =~= marks.drop_last().update(i, true));
        marking_counts(marks.drop_last(), i);
    }
}

impl Affinity {
    /// The table answers exactly what `affine` says of `p`.
    pub closed spec fn describes(&self, p: model::Program) -> bool {
        sound(p, self.structs@, self.enums@) && closed(p, self.structs@, self.enums@)
    }

    /// Mark what is affine, one level at a time, until a pass adds nothing.
    pub fn of(p: &Program) -> (r: Affinity)
        ensures
            r.describes(p@),
    {
        let mut structs: Vec<bool> = Vec::new();
        for i in 0..p.structs.len()
            invariant
                structs.len() == i,
                forall|j: int| 0 <= j < i ==> !(#[trigger] structs[j]),
        {
            structs.push(false);
        }
        let mut enums: Vec<bool> = Vec::new();
        for i in 0..p.enums.len()
            invariant
                enums.len() == i,
                forall|j: int| 0 <= j < i ==> !(#[trigger] enums[j]),
        {
            enums.push(false);
        }
        let mut changed = true;
        while changed
            invariant
                structs.len() == p.structs.len(),
                enums.len() == p.enums.len(),
                sound(p@, structs@, enums@),
                !changed ==> closed(p@, structs@, enums@),
            decreases unmarked(structs@) + unmarked(enums@), if changed { 1int } else { 0 },
        {
            changed = false;
            let ghost before = unmarked(structs@) + unmarked(enums@);
            let ghost (structs0, enums0) = (structs@, enums@);
            for i in 0..p.structs.len()
                invariant
                    structs.len() == p.structs.len(),
                    enums.len() == p.enums.len(),
                    sound(p@, structs@, enums@),
                    !changed ==> structs@ == structs0 && enums@ == enums0,
                    changed ==> unmarked(structs@) + unmarked(enums@) < before,
                    !changed ==> before == unmarked(structs@) + unmarked(enums@),
                    !changed ==> forall|j: int|
                        0 <= j < i && !(#[trigger] structs@[j]) ==> !some_field(
                            structs@,
                            enums@,
                            p@.structs[j].fields,
                        ),
            {
                if !structs[i] && any_field(&structs, &enums, &p.structs[i].fields) {
                    proof {
                        let fields = p@.structs[i as int].fields;
                        let f = choose|f: int|
                            0 <= f < fields.len() && #[trigger] marked(
                                structs@,
                                enums@,
                                fields[f].ty,
                            );
                        marks_are_deserved(p@, structs@, enums@, fields[f].ty);
                        let n = choose|n: nat| affine_within(p@, fields[f].ty, n);
                        if i <= u32::MAX {
                            let t = model::Ty::Struct(crate::hir::StructId(i as u32));
                            assert(affine_within(p@, fields[f].ty, ((n + 1) - 1) as nat));
                            assert(affine_within(p@, t, n + 1));
                        }
                        marking_counts(structs@, i as int);
                    }
                    structs.set(i, true);
                    changed = true;
                }
            }
            for i in 0..p.enums.len()
                invariant
                    structs.len() == p.structs.len(),
                    enums.len() == p.enums.len(),
                    sound(p@, structs@, enums@),
                    !changed ==> structs@ == structs0 && enums@ == enums0,
                    changed ==> unmarked(structs@) + unmarked(enums@) < before,
                    !changed ==> before == unmarked(structs@) + unmarked(enums@),
                    !changed ==> forall|j: int|
                        0 <= j < structs.len() && !(#[trigger] structs@[j]) ==> !some_field(
                            structs@,
                            enums@,
                            p@.structs[j].fields,
                        ),
                    !changed ==> forall|j: int|
                        0 <= j < i && !(#[trigger] enums@[j]) ==> !some_variant(
                            structs@,
                            enums@,
                            p@.enums[j].variants,
                        ),
            {
                if !enums[i] && any_variant(&structs, &enums, &p.enums[i]) {
                    proof {
                        let variants = p@.enums[i as int].variants;
                        let v = choose|v: int|
                            0 <= v < variants.len() && #[trigger] some_field(
                                structs@,
                                enums@,
                                variants[v].fields,
                            );
                        let f = choose|f: int|
                            0 <= f < variants[v].fields.len() && #[trigger] marked(
                                structs@,
                                enums@,
                                variants[v].fields[f].ty,
                            );
                        let inner = variants[v].fields[f].ty;
                        marks_are_deserved(p@, structs@, enums@, inner);
                        let n = choose|n: nat| affine_within(p@, inner, n);
                        if i <= u32::MAX {
                            let t = model::Ty::Enum(crate::hir::EnumId(i as u32));
                            assert(affine_within(
                                p@,
                                p@.enums[i as int].variants[v].fields[f].ty,
                                ((n + 1) - 1) as nat,
                            ));
                            assert(affine_within(p@, t, n + 1));
                        }
                        marking_counts(enums@, i as int);
                    }
                    enums.set(i, true);
                    changed = true;
                }
            }
        }
        Affinity { structs, enums }
    }

    /// Whether a value of type `t` has exactly one owner.
    pub fn holds(&self, Ghost(p): Ghost<model::Program>, t: &Ty) -> (r: bool)
        requires
            self.describes(p),
        ensures
            r == affine(p, t@),
    {
        proof {
            if marked(self.structs@, self.enums@, t@) {
                marks_are_deserved(p, self.structs@, self.enums@, t@);
            }
            if affine(p, t@) {
                let n = choose|n: nat| affine_within(p, t@, n);
                closed_marks_everything(p, self.structs@, self.enums@, t@, n);
            }
        }
        is_marked(&self.structs, &self.enums, t)
    }
}

/// A struct is affine exactly when one of its fields is.
pub proof fn struct_is_affine_by_a_field(p: model::Program, id: crate::hir::StructId)
    requires
        id.0 < p.structs.len(),
    ensures
        affine(p, model::Ty::Struct(id)) <==> exists|i: int|
            0 <= i < p.structs[id.0 as int].fields.len() && #[trigger] affine(
                p,
                p.structs[id.0 as int].fields[i].ty,
            ),
{
    let fields = p.structs[id.0 as int].fields;
    let t = model::Ty::Struct(id);
    if affine(p, t) {
        let n = choose|n: nat| affine_within(p, t, n);
        let i = choose|i: int|
            0 <= i < fields.len() && affine_within(p, (#[trigger] fields[i]).ty, (n - 1) as nat);
        assert(affine(p, fields[i].ty));
    }
    if exists|i: int| 0 <= i < fields.len() && #[trigger] affine(p, fields[i].ty) {
        let i = choose|i: int| 0 <= i < fields.len() && #[trigger] affine(p, fields[i].ty);
        let n = choose|n: nat| affine_within(p, fields[i].ty, n);
        assert(affine_within(p, fields[i].ty, ((n + 1) - 1) as nat));
        assert(affine_within(p, t, n + 1));
    }
}

} // verus!
