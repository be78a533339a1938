//! Generic templates and their instances.
//!
//! A declaration with type parameters is a template: it lives in the program tables like any
//! other definition, and is never itself the type of a value. Naming it at concrete arguments
//! appends an ordinary definition, an instance, to the same table, so nothing downstream learns
//! that generics exist.

use vstd::prelude::*;
use vstd::string::*;
use crate::checker::{enums_made, structs_made, Checker, EnumMade, StructMade};
use crate::copies::{self, place_of};
use crate::hir::{
    enums_of, fields_of, structs_of, tys, variants_of, EnumDef, EnumId, FieldDef, StructDef,
    StructId, Ty, VariantDef,
};
use crate::model;
use crate::reports;
use crate::say;
use crate::span::{texts, Span};
use crate::state::{EnumInstance, Fill, State, StructInstance};
use crate::text::{join, joined};

verus! {

/// Substitution deeper than this is reported rather than followed. A self-referential instance
/// stands for itself, so only a type that grows under substitution can get here.
pub const INSTANCE_DEPTH: usize = 32;

/// The ceiling on generic instances: a backstop far above any real program.
pub const INSTANCE_CEILING: usize = 4096;

/// How many levels of substitution are left below a depth.
pub open spec fn room(depth: usize) -> nat {
    if depth < 34 {
        (34 - depth) as nat
    } else {
        0
    }
}

/// One level of substitution further down.
pub open spec fn below(depth: usize) -> usize {
    if depth < 64 {
        (depth + 1) as usize
    } else {
        depth
    }
}

fn one_below(depth: usize) -> (r: usize)
    ensures
        r == below(depth),
{
    if depth < 64 {
        depth + 1
    } else {
        depth
    }
}

/// Each parameter of a template standing for itself.
pub open spec fn param_identity(params: Seq<Seq<char>>) -> Seq<model::Ty> {
    Seq::new(params.len(), |i: int| model::Ty::Param { index: i as u32, name: params[i] })
}

/// The argument a parameter stands for; one that has none was already reported.
pub open spec fn argument(args: Seq<model::Ty>, index: u32) -> model::Ty {
    if index < args.len() {
        args[index as int]
    } else {
        model::Ty::Error
    }
}

/// The first arguments, one for each of `n` parameters.
pub open spec fn arguments(args: Seq<model::Ty>, n: nat) -> Seq<model::Ty> {
    Seq::new(n, |i: int| argument(args, i as u32))
}

pub open spec fn struct_ids(s: Seq<StructInstance>) -> Seq<StructId> {
    Seq::new(s.len(), |i: int| s[i].id)
}

pub open spec fn enum_ids(s: Seq<EnumInstance>) -> Seq<EnumId> {
    Seq::new(s.len(), |i: int| s[i].id)
}

pub open spec fn struct_keys(s: Seq<StructInstance>) -> Seq<(StructId, Seq<model::Ty>)> {
    Seq::new(s.len(), |i: int| (s[i].template, s[i].args))
}

pub open spec fn enum_keys(s: Seq<EnumInstance>) -> Seq<(EnumId, Seq<model::Ty>)> {
    Seq::new(s.len(), |i: int| (s[i].template, s[i].args))
}

/// How an instance displays: `List<I64>`, `Pair<I64, Bool>`.
pub open spec fn instance_name(
    p: model::Program,
    base: Seq<char>,
    args: Seq<model::Ty>,
) -> Seq<char> {
    base + "<"@ + joined(ty_names(p, args), ", "@) + ">"@
}

pub open spec fn ty_names(p: model::Program, args: Seq<model::Ty>) -> Seq<Seq<char>> {
    Seq::new(args.len(), |i: int| crate::types::ty_name(p, args[i]))
}

impl State {
    /// The instance a struct id is, if it is one.
    #[verifier::opaque]
    pub open spec fn struct_instance(self, id: StructId) -> Option<StructInstance> {
        match place_of(struct_ids(self.struct_instances), id) {
            Some(i) => Some(self.struct_instances[i]),
            None => None,
        }
    }

    /// The instance an enum id is, if it is one.
    #[verifier::opaque]
    pub open spec fn enum_instance(self, id: EnumId) -> Option<EnumInstance> {
        match place_of(enum_ids(self.enum_instances), id) {
            Some(i) => Some(self.enum_instances[i]),
            None => None,
        }
    }

    /// What a struct id means generically: template and arguments for an instance, the identity
    /// for a template, nothing for an ordinary struct.
    #[verifier::opaque]
    pub open spec fn struct_base(self, id: StructId) -> Option<(StructId, Seq<model::Ty>)> {
        match self.struct_instance(id) {
            Some(i) => Some((i.template, i.args)),
            None => if self.struct_params(id).len() == 0 {
                None
            } else {
                Some((id, param_identity(self.struct_params(id))))
            },
        }
    }

    /// The same for an enum.
    #[verifier::opaque]
    pub open spec fn enum_base(self, id: EnumId) -> Option<(EnumId, Seq<model::Ty>)> {
        match self.enum_instance(id) {
            Some(i) => Some((i.template, i.args)),
            None => if self.enum_params(id).len() == 0 {
                None
            } else {
                Some((id, param_identity(self.enum_params(id))))
            },
        }
    }

    /// How many type instances there are.
    #[verifier::opaque]
    pub open spec fn made(self) -> usize {
        if self.struct_instances.len() + self.enum_instances.len() < usize::MAX {
            (self.struct_instances.len() + self.enum_instances.len()) as usize
        } else {
            usize::MAX
        }
    }

    /// The instance of a struct template at given arguments, if there is one.
    #[verifier::opaque]
    pub open spec fn struct_made(
        self,
        template: StructId,
        args: Seq<model::Ty>,
    ) -> Option<StructId> {
        match place_of(struct_keys(self.struct_instances), (template, args)) {
            Some(i) => Some(self.struct_instances[i].id),
            None => None,
        }
    }

    /// The instance of an enum template at given arguments, if there is one.
    #[verifier::opaque]
    pub open spec fn enum_made(self, template: EnumId, args: Seq<model::Ty>) -> Option<EnumId> {
        match place_of(enum_keys(self.enum_instances), (template, args)) {
            Some(i) => Some(self.enum_instances[i].id),
            None => None,
        }
    }

    /// The ceiling on instances reports once.
    #[verifier::opaque]
    pub open spec fn over_the_ceiling(self, r: crate::span::Report) -> State {
        if self.cap_reported {
            self
        } else {
            self.with_cap_reported(true).push(r)
        }
    }

    /// A new struct instance, its fields still to come. It belongs to its template's module: that
    /// is where its fields' spans point.
    #[verifier::opaque]
    pub open spec fn with_struct_instance(
        self,
        template: StructId,
        args: Seq<model::Ty>,
        at: Span,
    ) -> State {
        State {
            struct_owner: self.struct_owner.push(self.struct_module(template)),
            program: model::Program {
                structs: self.program.structs.push(
                    model::StructDef {
                        name: instance_name(self.program, self.struct_name(template), args),
                        type_params: seq![],
                        fields: seq![],
                        span: self.struct_span(template),
                    },
                ),
                ..self.program
            },
            struct_instances: self.struct_instances.push(
                StructInstance {
                    template,
                    args,
                    id: StructId(self.program.structs.len() as u32),
                    module: self.current,
                    at,
                    serial: self.made(),
                },
            ),
            ..self
        }
    }

    /// The same for an enum.
    #[verifier::opaque]
    pub open spec fn with_enum_instance(
        self,
        template: EnumId,
        args: Seq<model::Ty>,
        at: Span,
    ) -> State {
        State {
            enum_owner: self.enum_owner.push(self.enum_module(template)),
            program: model::Program {
                enums: self.program.enums.push(
                    model::EnumDef {
                        name: instance_name(self.program, self.enum_name(template), args),
                        type_params: seq![],
                        variants: seq![],
                        span: self.enum_span(template),
                    },
                ),
                ..self.program
            },
            enum_instances: self.enum_instances.push(
                EnumInstance {
                    template,
                    args,
                    id: EnumId(self.program.enums.len() as u32),
                    module: self.current,
                    at,
                    serial: self.made(),
                },
            ),
            ..self
        }
    }

    #[verifier::opaque]
    pub open spec fn with_struct_fields(self, id: StructId, fields: Seq<model::FieldDef>) -> State {
        if id.0 < self.program.structs.len() {
            State {
                program: model::Program {
                    structs: self.program.structs.update(
                        id.0 as int,
                        model::StructDef { fields, ..self.program.structs[id.0 as int] },
                    ),
                    ..self.program
                },
                ..self
            }
        } else {
            self
        }
    }

    #[verifier::opaque]
    pub open spec fn with_variants(self, id: EnumId, variants: Seq<model::VariantDef>) -> State {
        if id.0 < self.program.enums.len() {
            State {
                program: model::Program {
                    enums: self.program.enums.update(
                        id.0 as int,
                        model::EnumDef { variants, ..self.program.enums[id.0 as int] },
                    ),
                    ..self.program
                },
                ..self
            }
        } else {
            self
        }
    }

    #[verifier::opaque]
    pub open spec fn with_fill(self, f: Fill) -> State {
        State { fill_queue: self.fill_queue.push(f), ..self }
    }
}

// ---------------------------------------------------------------- substitution

/// The one substitution everything shares: parameters to `args`, compound types part by part, a
/// generic struct or enum instantiated again at its substituted arguments. An instance's
/// arguments name older instances only; `bound` says which are old enough to look into.
pub open spec fn subst(
    s: State,
    ty: model::Ty,
    args: Seq<model::Ty>,
    at: Span,
    depth: usize,
    bound: usize,
) -> (State, model::Ty)
    decreases 2 * room(depth), 2 * bound + 2, ty,
{
    match ty {
        model::Ty::Param { index, .. } => (s, argument(args, index)),
        model::Ty::Option(t) => {
            let (s1, t1) = subst(s, *t, args, at, depth, bound);
            (s1, model::Ty::Option(Box::new(t1)))
        },
        model::Ty::Result(t, e) => {
            let (s1, t1) = subst(s, *t, args, at, depth, bound);
            let (s2, e1) = subst(s1, *e, args, at, depth, bound);
            (s2, model::Ty::Result(Box::new(t1), Box::new(e1)))
        },
        model::Ty::Task(t) => {
            let (s1, t1) = subst(s, *t, args, at, depth, bound);
            (s1, model::Ty::Task(Box::new(t1)))
        },
        model::Ty::Shared(t) => {
            let (s1, t1) = subst(s, *t, args, at, depth, bound);
            (s1, model::Ty::Shared(Box::new(t1)))
        },
        model::Ty::Slots(t) => {
            let (s1, t1) = subst(s, *t, args, at, depth, bound);
            (s1, model::Ty::Slots(Box::new(t1)))
        },
        model::Ty::Input(t) => {
            let (s1, t1) = subst(s, *t, args, at, depth, bound);
            (s1, model::Ty::Input(Box::new(t1)))
        },
        model::Ty::Signal(t) => {
            let (s1, t1) = subst(s, *t, args, at, depth, bound);
            (s1, model::Ty::Signal(Box::new(t1)))
        },
        model::Ty::Event(t) => {
            let (s1, t1) = subst(s, *t, args, at, depth, bound);
            (s1, model::Ty::Event(Box::new(t1)))
        },
        model::Ty::Ref(t) => {
            let (s1, t1) = subst(s, *t, args, at, depth, bound);
            (s1, model::Ty::Ref(Box::new(t1)))
        },
        model::Ty::Struct(id) => subst_struct(s, id, args, at, depth, bound),
        model::Ty::Enum(id) => subst_enum(s, id, args, at, depth, bound),
        _ => (s, ty),
    }
}

/// Substitution in a struct type.
pub open spec fn subst_struct(
    s: State,
    id: StructId,
    args: Seq<model::Ty>,
    at: Span,
    depth: usize,
    bound: usize,
) -> (State, model::Ty)
    decreases 2 * room(depth), 2 * bound + 1,
{
    match s.struct_instance(id) {
        Some(i) => if i.serial < bound {
            let (s1, new_args) = subst_all(s, i.args, args, at, depth, i.serial);
            let (s2, made) = instantiate_struct(s1, i.template, new_args, at, depth);
            (s2, struct_or_error(made))
        } else {
            (s, model::Ty::Struct(id))
        },
        None => if s.struct_params(id).len() == 0 {
            (s, model::Ty::Struct(id))
        } else {
            let (s1, made) = instantiate_struct(
                s,
                id,
                arguments(args, s.struct_params(id).len()),
                at,
                depth,
            );
            (s1, struct_or_error(made))
        },
    }
}

/// Substitution in a enum type.
pub open spec fn subst_enum(
    s: State,
    id: EnumId,
    args: Seq<model::Ty>,
    at: Span,
    depth: usize,
    bound: usize,
) -> (State, model::Ty)
    decreases 2 * room(depth), 2 * bound + 1,
{
    match s.enum_instance(id) {
        Some(i) => if i.serial < bound {
            let (s1, new_args) = subst_all(s, i.args, args, at, depth, i.serial);
            let (s2, made) = instantiate_enum(s1, i.template, new_args, at, depth);
            (s2, enum_or_error(made))
        } else {
            (s, model::Ty::Enum(id))
        },
        None => if s.enum_params(id).len() == 0 {
            (s, model::Ty::Enum(id))
        } else {
            let (s1, made) = instantiate_enum(
                s,
                id,
                arguments(args, s.enum_params(id).len()),
                at,
                depth,
            );
            (s1, enum_or_error(made))
        },
    }
}

pub open spec fn struct_or_error(made: Option<StructId>) -> model::Ty {
    match made {
        Some(id) => model::Ty::Struct(id),
        None => model::Ty::Error,
    }
}

pub open spec fn enum_or_error(made: Option<EnumId>) -> model::Ty {
    match made {
        Some(id) => model::Ty::Enum(id),
        None => model::Ty::Error,
    }
}

pub open spec fn subst_all(
    s: State,
    list: Seq<model::Ty>,
    args: Seq<model::Ty>,
    at: Span,
    depth: usize,
    bound: usize,
) -> (State, Seq<model::Ty>)
    decreases 2 * room(depth), 2 * bound + 2, list,
{
    if list.len() == 0 {
        (s, seq![])
    } else {
        let (s1, done) = subst_all(s, list.drop_last(), args, at, depth, bound);
        let (s2, t) = subst(s1, list.last(), args, at, depth, bound);
        (s2, done.push(t))
    }
}

pub open spec fn subst_fields(
    s: State,
    list: Seq<model::FieldDef>,
    args: Seq<model::Ty>,
    at: Span,
    depth: usize,
    bound: usize,
) -> (State, Seq<model::FieldDef>)
    decreases 2 * room(depth), 2 * bound + 3, list,
{
    if list.len() == 0 {
        (s, seq![])
    } else {
        let (s1, done) = subst_fields(s, list.drop_last(), args, at, depth, bound);
        let (s2, t) = subst(s1, list.last().ty, args, at, depth, bound);
        (s2, done.push(model::FieldDef { ty: t, ..list.last() }))
    }
}

pub open spec fn subst_variants(
    s: State,
    list: Seq<model::VariantDef>,
    args: Seq<model::Ty>,
    at: Span,
    depth: usize,
    bound: usize,
) -> (State, Seq<model::VariantDef>)
    decreases 2 * room(depth), 2 * bound + 4, list,
{
    if list.len() == 0 {
        (s, seq![])
    } else {
        let (s1, done) = subst_variants(s, list.drop_last(), args, at, depth, bound);
        let (s2, fields) = subst_fields(s1, list.last().fields, args, at, depth, bound);
        (s2, done.push(model::VariantDef { fields, ..list.last() }))
    }
}

/// Instantiate a struct template at `args`. Equal arguments share one id. The instance is known
/// before its fields are substituted, so a type that mentions itself finds itself. `None` means
/// that instantiation was refused, and a diagnostic said so.
pub open spec fn instantiate_struct(
    s: State,
    template: StructId,
    args: Seq<model::Ty>,
    at: Span,
    depth: usize,
) -> (State, Option<StructId>)
    decreases 2 * room(depth), 0int,
{
    if args == param_identity(s.struct_params(template)) {
        (s, Some(template))
    } else {
        match s.struct_made(template, args) {
            Some(id) => (s, Some(id)),
            None => if depth > INSTANCE_DEPTH {
                (s.push(reports::too_deep(at)), None)
            } else if s.made() >= INSTANCE_CEILING {
                (s.over_the_ceiling(reports::too_many_types(at)), None)
            } else {
                let id = StructId(s.program.structs.len() as u32);
                let index = s.struct_instances.len() as usize;
                let s1 = s.with_struct_instance(template, args, at);
                if s.defining_types {
                    (s1.with_fill(Fill::Struct(index, depth)), Some(id))
                } else {
                    (fill_struct(s1, index, depth), Some(id))
                }
            },
        }
    }
}

/// Give a struct instance its fields: the template's, substituted.
pub open spec fn fill_struct(s: State, index: usize, depth: usize) -> State
    decreases 2 * room(below(depth)) + 1, 0int,
{
    if index < s.struct_instances.len() {
        let i = s.struct_instances[index as int];
        let (s1, fields) = subst_fields(
            s.with_current(i.module),
            s.struct_fields(i.template),
            i.args,
            i.at,
            below(depth),
            s.made(),
        );
        s1.with_current(s.current).with_struct_fields(i.id, fields)
    } else {
        s
    }
}

/// Instantiate an enum template at `args`, as `instantiate_struct` does a struct.
pub open spec fn instantiate_enum(
    s: State,
    template: EnumId,
    args: Seq<model::Ty>,
    at: Span,
    depth: usize,
) -> (State, Option<EnumId>)
    decreases 2 * room(depth), 0int,
{
    if args == param_identity(s.enum_params(template)) {
        (s, Some(template))
    } else {
        match s.enum_made(template, args) {
            Some(id) => (s, Some(id)),
            None => if depth > INSTANCE_DEPTH {
                (s.push(reports::too_deep(at)), None)
            } else if s.made() >= INSTANCE_CEILING {
                (s.over_the_ceiling(reports::too_many_types(at)), None)
            } else {
                let id = EnumId(s.program.enums.len() as u32);
                let index = s.enum_instances.len() as usize;
                let s1 = s.with_enum_instance(template, args, at);
                if s.defining_types {
                    (s1.with_fill(Fill::Enum(index, depth)), Some(id))
                } else {
                    (fill_enum(s1, index, depth), Some(id))
                }
            },
        }
    }
}

/// Give an enum instance its variants: the template's, substituted.
pub open spec fn fill_enum(s: State, index: usize, depth: usize) -> State
    decreases 2 * room(below(depth)) + 1, 0int,
{
    if index < s.enum_instances.len() {
        let i = s.enum_instances[index as int];
        let (s1, variants) = subst_variants(
            s.with_current(i.module),
            s.enum_variants(i.template),
            i.args,
            i.at,
            below(depth),
            s.made(),
        );
        s1.with_current(s.current).with_variants(i.id, variants)
    } else {
        s
    }
}

// ---------------------------------------------------------------- comparing and naming

/// Whether two lists of types are the same.
pub fn same_tys(a: &Vec<Ty>, b: &Vec<Ty>) -> (r: bool)
    ensures
        r == (tys(a@) == tys(b@)),
{
    if a.len() != b.len() {
        assert(tys(a@).len() != tys(b@).len());
        return false;
    }
    for i in 0..a.len()
        invariant
            a.len() == b.len(),
            forall|j: int| 0 <= j < i ==> #[trigger] tys(a@)[j] == tys(b@)[j],
    {
        if !a[i].equals(&b[i]) {
            assert(tys(a@)[i as int] != tys(b@)[i as int]);
            return false;
        }
        assert(tys(a@)[i as int] == tys(b@)[i as int]);
    }
    assert(tys(a@) =~= tys(b@));
    true
}

/// Each parameter of a template standing for itself.
pub fn identity(params: &Vec<String>) -> (r: Vec<Ty>)
    ensures
        tys(r@) == param_identity(texts(params@)),
{
    let mut r: Vec<Ty> = Vec::new();
    for i in 0..params.len()
        invariant
            r.len() == i,
            forall|j: int|
                0 <= j < i ==> #[trigger] r@[j]@ == param_identity(texts(params@))[j],
    {
        let index: u32 = #[verifier::truncate]
        (i as u32);
        r.push(Ty::Param { index, name: params[i].clone() });
    }
    assert(tys(r@) =~= param_identity(texts(params@)));
    r
}

fn argument_at(args: &Vec<Ty>, index: u32) -> (r: Ty)
    ensures
        r@ == argument(tys(args@), index),
{
    let at: usize = index as usize;
    if at < args.len() {
        args[at].copy()
    } else {
        Ty::Error
    }
}

fn first_arguments(args: &Vec<Ty>, n: usize) -> (r: Vec<Ty>)
    ensures
        tys(r@) == arguments(tys(args@), n as nat),
{
    let mut r: Vec<Ty> = Vec::new();
    for i in 0..n
        invariant
            r.len() == i,
            forall|j: int|
                0 <= j < i ==> #[trigger] r@[j]@ == arguments(tys(args@), n as nat)[j],
    {
        let index: u32 = #[verifier::truncate]
        (i as u32);
        r.push(argument_at(args, index));
    }
    assert(tys(r@) =~= arguments(tys(args@), n as nat));
    r
}

impl Checker {
    pub fn instance_name(&self, base: &str, args: &Vec<Ty>) -> (r: String)
        ensures
            r@ == instance_name(self@.program, base@, tys(args@)),
    {
        let mut names: Vec<String> = Vec::new();
        for i in 0..args.len()
            invariant
                names.len() == i,
                forall|j: int|
                    0 <= j < i ==> #[trigger] names@[j]@ == ty_names(
                        self@.program,
                        tys(args@),
                    )[j],
        {
            proof {
                reveal(State::ty_name);
            }
            names.push(self.ty_name(&args[i]));
        }
        assert(texts(names@) =~= ty_names(self@.program, tys(args@)));
        base.to_owned().concat("<").concat(join(&names, ", ").as_str()).concat(">")
    }

    pub fn struct_instance(&self, id: StructId) -> (r: Option<(StructId, Vec<Ty>, usize)>)
        ensures
            match self@.struct_instance(id) {
                Some(i) => r matches Some(got) && got.0 == i.template && tys(got.1@) == i.args
                    && got.2 == i.serial,
                None => r is None,
            },
    {
        proof {
            reveal(Checker::view);
            reveal(State::struct_instance);
            copies::place_is_first(struct_ids(self@.struct_instances), id);
        }
        for k in 0..self.struct_instances.len()
            invariant
                self@.struct_instances == structs_made(self.struct_instances@),
                forall|j: int|
                    0 <= j < k ==> #[trigger] struct_ids(self@.struct_instances)[j] != id,
        {
            assert(struct_ids(self@.struct_instances)[k as int] == self.struct_instances@[k as int].id);
            if self.struct_instances[k].id == id {
                proof {
                    reveal(State::struct_instance);
                    copies::place_is_unique(struct_ids(self@.struct_instances), id, k as int);
                }
                let made = &self.struct_instances[k];
                return Some((made.template, copies::types(&made.args), made.serial));
            }
        }
        assert(struct_ids(self@.struct_instances).len() == self.struct_instances@.len());
        None
    }

    pub fn enum_instance(&self, id: EnumId) -> (r: Option<(EnumId, Vec<Ty>, usize)>)
        ensures
            match self@.enum_instance(id) {
                Some(i) => r matches Some(got) && got.0 == i.template && tys(got.1@) == i.args
                    && got.2 == i.serial,
                None => r is None,
            },
    {
        proof {
            reveal(Checker::view);
            reveal(State::enum_instance);
            copies::place_is_first(enum_ids(self@.enum_instances), id);
        }
        for k in 0..self.enum_instances.len()
            invariant
                self@.enum_instances == enums_made(self.enum_instances@),
                forall|j: int| 0 <= j < k ==> #[trigger] enum_ids(self@.enum_instances)[j] != id,
        {
            assert(enum_ids(self@.enum_instances)[k as int] == self.enum_instances@[k as int].id);
            if self.enum_instances[k].id == id {
                proof {
                    reveal(State::enum_instance);
                    copies::place_is_unique(enum_ids(self@.enum_instances), id, k as int);
                }
                let made = &self.enum_instances[k];
                return Some((made.template, copies::types(&made.args), made.serial));
            }
        }
        assert(enum_ids(self@.enum_instances).len() == self.enum_instances@.len());
        None
    }

    /// What a struct id means generically.
    pub fn struct_base(&self, id: StructId) -> (r: Option<(StructId, Vec<Ty>)>)
        ensures
            base_of(r) == self@.struct_base(id),
    {
        proof {
            reveal(State::struct_base);
        }
        match self.struct_instance(id) {
            Some((template, args, _)) => Some((template, args)),
            None => {
                let params = self.struct_params(id);
                assert(texts(params@).len() == params@.len());
                if params.len() == 0 {
                    None
                } else {
                    Some((id, identity(&params)))
                }
            },
        }
    }

    /// What an enum id means generically.
    pub fn enum_base(&self, id: EnumId) -> (r: Option<(EnumId, Vec<Ty>)>)
        ensures
            enum_base_of(r) == self@.enum_base(id),
    {
        proof {
            reveal(State::enum_base);
        }
        match self.enum_instance(id) {
            Some((template, args, _)) => Some((template, args)),
            None => {
                let params = self.enum_params(id);
                assert(texts(params@).len() == params@.len());
                if params.len() == 0 {
                    None
                } else {
                    Some((id, identity(&params)))
                }
            },
        }
    }

    pub fn made(&self) -> (r: usize)
        ensures
            r == self@.made(),
    {
        proof {
            reveal(Checker::view);
            reveal(State::made);
        }
        self.struct_instances.len().saturating_add(self.enum_instances.len())
    }

    fn find_struct(&self, template: StructId, args: &Vec<Ty>) -> (r: Option<StructId>)
        ensures
            r == self@.struct_made(template, tys(args@)),
    {
        let ghost key = (template, tys(args@));
        proof {
            reveal(Checker::view);
            reveal(State::struct_made);
            copies::place_is_first(struct_keys(self@.struct_instances), key);
        }
        for k in 0..self.struct_instances.len()
            invariant
                key == (template, tys(args@)),
                self@.struct_instances == structs_made(self.struct_instances@),
                forall|j: int|
                    0 <= j < k ==> #[trigger] struct_keys(self@.struct_instances)[j] != key,
        {
            let made = &self.struct_instances[k];
            assert(struct_keys(self@.struct_instances)[k as int] == (made.template, tys(made.args@)));
            if made.template == template && same_tys(&made.args, args) {
                proof {
                    reveal(State::struct_made);
                    copies::place_is_unique(struct_keys(self@.struct_instances), key, k as int);
                }
                return Some(made.id);
            }
        }
        assert(struct_keys(self@.struct_instances).len() == self.struct_instances@.len());
        None
    }

    fn find_enum(&self, template: EnumId, args: &Vec<Ty>) -> (r: Option<EnumId>)
        ensures
            r == self@.enum_made(template, tys(args@)),
    {
        let ghost key = (template, tys(args@));
        proof {
            reveal(Checker::view);
            reveal(State::enum_made);
            copies::place_is_first(enum_keys(self@.enum_instances), key);
        }
        for k in 0..self.enum_instances.len()
            invariant
                key == (template, tys(args@)),
                self@.enum_instances == enums_made(self.enum_instances@),
                forall|j: int|
                    0 <= j < k ==> #[trigger] enum_keys(self@.enum_instances)[j] != key,
        {
            let made = &self.enum_instances[k];
            assert(enum_keys(self@.enum_instances)[k as int] == (made.template, tys(made.args@)));
            if made.template == template && same_tys(&made.args, args) {
                proof {
                    reveal(State::enum_made);
                    copies::place_is_unique(enum_keys(self@.enum_instances), key, k as int);
                }
                return Some(made.id);
            }
        }
        assert(enum_keys(self@.enum_instances).len() == self.enum_instances@.len());
        None
    }

    pub fn over_the_ceiling(&mut self, d: crate::span::Diagnostic)
        ensures
            final(self)@ == old(self)@.over_the_ceiling(d@),
    {
        proof {
            reveal(State::over_the_ceiling);
        }
        if !self.cap_reported() {
            self.set_cap_reported(true);
            self.push(d);
        }
    }

    fn add_struct_instance(&mut self, template: StructId, args: Vec<Ty>, at: Span) -> (r: (
        StructId,
        usize,
    ))
        ensures
            r.0 == StructId(old(self)@.program.structs.len() as u32),
            r.1 == old(self)@.struct_instances.len() as usize,
            final(self)@ == old(self)@.with_struct_instance(template, tys(args@), at),
    {
        let base = self.struct_name(template);
        let name = self.instance_name(base.as_str(), &args);
        let span = self.struct_span(template);
        let owner: usize = self.struct_module(template);
        let serial: usize = self.made();
        proof {
            reveal(Checker::view);
            reveal(State::made);
            reveal(State::push);
            reveal(State::struct_module);
            reveal(State::struct_name);
            reveal(State::struct_span);
            reveal(State::with_struct_instance);
        }
        let id = StructId(
            #[verifier::truncate]
            (self.program.structs.len() as u32),
        );
        let index: usize = self.struct_instances.len();
        let type_params: Vec<String> = Vec::new();
        let fields: Vec<FieldDef> = Vec::new();
        assert(texts(type_params@) =~= seq![]);
        assert(fields_of(fields@) =~= seq![]);
        self.struct_owner.push(owner);
        let def = StructDef { name, type_params, fields, span };
        let ghost def_view = def@;
        self.program.structs.push(def);
        assert(structs_of(self.program.structs@) =~= structs_of(old(self).program.structs@).push(
            def_view,
        ));
        let module: usize = self.current;
        let made = StructMade { template, args, id, module, at, serial };
        let ghost made_view = made@;
        self.struct_instances.push(made);
        assert(structs_made(self.struct_instances@) =~= structs_made(
            old(self).struct_instances@,
        ).push(made_view));
        (id, index)
    }

    fn add_enum_instance(&mut self, template: EnumId, args: Vec<Ty>, at: Span) -> (r: (
        EnumId,
        usize,
    ))
        ensures
            r.0 == EnumId(old(self)@.program.enums.len() as u32),
            r.1 == old(self)@.enum_instances.len() as usize,
            final(self)@ == old(self)@.with_enum_instance(template, tys(args@), at),
    {
        let base = self.enum_name(template);
        let name = self.instance_name(base.as_str(), &args);
        let span = self.enum_span(template);
        let owner: usize = self.enum_module(template);
        let serial: usize = self.made();
        proof {
            reveal(Checker::view);
            reveal(State::enum_module);
            reveal(State::enum_name);
            reveal(State::enum_span);
            reveal(State::made);
            reveal(State::push);
            reveal(State::with_enum_instance);
        }
        let id = EnumId(
            #[verifier::truncate]
            (self.program.enums.len() as u32),
        );
        let index: usize = self.enum_instances.len();
        let type_params: Vec<String> = Vec::new();
        let variants: Vec<VariantDef> = Vec::new();
        assert(texts(type_params@) =~= seq![]);
        assert(variants_of(variants@) =~= seq![]);
        self.enum_owner.push(owner);
        let def = EnumDef { name, type_params, variants, span };
        let ghost def_view = def@;
        self.program.enums.push(def);
        assert(enums_of(self.program.enums@) =~= enums_of(old(self).program.enums@).push(
            def_view,
        ));
        let module: usize = self.current;
        let made = EnumMade { template, args, id, module, at, serial };
        let ghost made_view = made@;
        self.enum_instances.push(made);
        assert(enums_made(self.enum_instances@) =~= enums_made(old(self).enum_instances@).push(
            made_view,
        ));
        (id, index)
    }

    fn queue_fill(&mut self, f: Fill)
        ensures
            final(self)@ == old(self)@.with_fill(f),
    {
        proof {
            reveal(Checker::view);
            reveal(State::push);
            reveal(State::with_fill);
        }
        self.fill_queue.push(f);
    }

    pub fn set_struct_fields(&mut self, id: StructId, fields: Vec<FieldDef>)
        ensures
            final(self)@ == old(self)@.with_struct_fields(id, fields_of(fields@)),
    {
        proof {
            reveal(Checker::view);
            reveal(State::with_struct_fields);
        }
        let at: usize = id.index();
        if at < self.program.structs.len() {
            self.program.structs[at].fields = fields;
            assert(structs_of(self.program.structs@) =~= structs_of(
                old(self).program.structs@,
            ).update(
                at as int,
                model::StructDef {
                    fields: fields_of(fields@),
                    ..structs_of(old(self).program.structs@)[at as int]
                },
            ));
        }
    }

    pub fn set_variants(&mut self, id: EnumId, variants: Vec<VariantDef>)
        ensures
            final(self)@ == old(self)@.with_variants(id, variants_of(variants@)),
    {
        proof {
            reveal(Checker::view);
            reveal(State::with_variants);
        }
        let at: usize = id.index();
        if at < self.program.enums.len() {
            self.program.enums[at].variants = variants;
            assert(enums_of(self.program.enums@) =~= enums_of(old(self).program.enums@).update(
                at as int,
                model::EnumDef {
                    variants: variants_of(variants@),
                    ..enums_of(old(self).program.enums@)[at as int]
                },
            ));
        }
    }
}

pub open spec fn base_of(r: Option<(StructId, Vec<Ty>)>) -> Option<(StructId, Seq<model::Ty>)> {
    match r {
        Some((id, args)) => Some((id, tys(args@))),
        None => None,
    }
}

pub open spec fn enum_base_of(r: Option<(EnumId, Vec<Ty>)>) -> Option<(EnumId, Seq<model::Ty>)> {
    match r {
        Some((id, args)) => Some((id, tys(args@))),
        None => None,
    }
}

// ---------------------------------------------------------------- carrying it out

impl Checker {
    /// Substitute `args` for the parameters of a type.
    pub fn subst(
        &mut self,
        ty: &Ty,
        args: &Vec<Ty>,
        at: Span,
        depth: usize,
        bound: usize,
    ) -> (r: Ty)
        ensures
            final(self)@ == subst(old(self)@, ty@, tys(args@), at, depth, bound).0,
            r@ == subst(old(self)@, ty@, tys(args@), at, depth, bound).1,
        decreases 2 * room(depth), 2 * bound + 2, ty,
    {
        match ty {
            Ty::Param { index, .. } => argument_at(args, *index),
            Ty::Option(t) => {
                let t1 = self.subst(t, args, at, depth, bound);
                Ty::Option(Box::new(t1))
            },
            Ty::Task(t) => {
                let t1 = self.subst(t, args, at, depth, bound);
                Ty::Task(Box::new(t1))
            },
            Ty::Shared(t) => {
                let t1 = self.subst(t, args, at, depth, bound);
                Ty::Shared(Box::new(t1))
            },
            Ty::Slots(t) => {
                let t1 = self.subst(t, args, at, depth, bound);
                Ty::Slots(Box::new(t1))
            },
            Ty::Input(t) => {
                let t1 = self.subst(t, args, at, depth, bound);
                Ty::Input(Box::new(t1))
            },
            Ty::Signal(t) => {
                let t1 = self.subst(t, args, at, depth, bound);
                Ty::Signal(Box::new(t1))
            },
            Ty::Event(t) => {
                let t1 = self.subst(t, args, at, depth, bound);
                Ty::Event(Box::new(t1))
            },
            Ty::Ref(t) => {
                let t1 = self.subst(t, args, at, depth, bound);
                Ty::Ref(Box::new(t1))
            },
            Ty::Result(t, e) => {
                let t1 = self.subst(t, args, at, depth, bound);
                let e1 = self.subst(e, args, at, depth, bound);
                Ty::Result(Box::new(t1), Box::new(e1))
            },
            Ty::Struct(id) => self.subst_struct(*id, args, at, depth, bound),
            Ty::Enum(id) => self.subst_enum(*id, args, at, depth, bound),
            _ => ty.copy(),
        }
    }

    fn subst_struct(
        &mut self,
        id: StructId,
        args: &Vec<Ty>,
        at: Span,
        depth: usize,
        bound: usize,
    ) -> (r: Ty)
        ensures
            final(self)@ == subst_struct(old(self)@, id, tys(args@), at, depth, bound).0,
            r@ == subst_struct(old(self)@, id, tys(args@), at, depth, bound).1,
        decreases 2 * room(depth), 2 * bound + 1,
    {
        match self.struct_instance(id) {
            Some((template, base_args, serial)) => {
                if serial < bound {
                    let new_args = self.subst_all(&base_args, args, at, depth, serial);
                    match self.instantiate_struct(template, new_args, at, depth) {
                        Some(made) => Ty::Struct(made),
                        None => Ty::Error,
                    }
                } else {
                    Ty::Struct(id)
                }
            },
            None => {
                let params = self.struct_params(id);
                assert(texts(params@).len() == params@.len());
                if params.len() == 0 {
                    Ty::Struct(id)
                } else {
                    let new_args = first_arguments(args, params.len());
                    match self.instantiate_struct(id, new_args, at, depth) {
                        Some(made) => Ty::Struct(made),
                        None => Ty::Error,
                    }
                }
            },
        }
    }

    fn subst_enum(
        &mut self,
        id: EnumId,
        args: &Vec<Ty>,
        at: Span,
        depth: usize,
        bound: usize,
    ) -> (r: Ty)
        ensures
            final(self)@ == subst_enum(old(self)@, id, tys(args@), at, depth, bound).0,
            r@ == subst_enum(old(self)@, id, tys(args@), at, depth, bound).1,
        decreases 2 * room(depth), 2 * bound + 1,
    {
        match self.enum_instance(id) {
            Some((template, base_args, serial)) => {
                if serial < bound {
                    let new_args = self.subst_all(&base_args, args, at, depth, serial);
                    match self.instantiate_enum(template, new_args, at, depth) {
                        Some(made) => Ty::Enum(made),
                        None => Ty::Error,
                    }
                } else {
                    Ty::Enum(id)
                }
            },
            None => {
                let params = self.enum_params(id);
                assert(texts(params@).len() == params@.len());
                if params.len() == 0 {
                    Ty::Enum(id)
                } else {
                    let new_args = first_arguments(args, params.len());
                    match self.instantiate_enum(id, new_args, at, depth) {
                        Some(made) => Ty::Enum(made),
                        None => Ty::Error,
                    }
                }
            },
        }
    }

    pub fn subst_all(
        &mut self,
        list: &Vec<Ty>,
        args: &Vec<Ty>,
        at: Span,
        depth: usize,
        bound: usize,
    ) -> (r: Vec<Ty>)
        ensures
            final(self)@ == subst_all(
                old(self)@,
                tys(list@),
                tys(args@),
                at,
                depth,
                bound,
            ).0,
            tys(r@) == subst_all(
                old(self)@,
                tys(list@),
                tys(args@),
                at,
                depth,
                bound,
            ).1,
        decreases 2 * room(depth), 2 * bound + 2, list,
    {
        let mut r: Vec<Ty> = Vec::new();
        let ghost all = tys(list@);
        let ghost start = self@;
        assert(all.take(0) =~= seq![]);
        assert(tys(r@) =~= seq![]);
        for i in 0..list.len()
            invariant
                all == tys(list@),
                self@ == subst_all(
                    start,
                    all.take(i as int),
                    tys(args@),
                    at,
                    depth,
                    bound,
                ).0,
                tys(r@) == subst_all(
                    start,
                    all.take(i as int),
                    tys(args@),
                    at,
                    depth,
                    bound,
                ).1,
        {
            let ghost before = tys(r@);
            let t = self.subst(&list[i], args, at, depth, bound);
            r.push(t);
            assert(all.take(i + 1).drop_last() =~= all.take(i as int));
            assert(tys(r@) =~= before.push(t@));
        }
        assert(all.take(list.len() as int) =~= all);
        r
    }

    fn subst_fields(
        &mut self,
        list: &Vec<FieldDef>,
        args: &Vec<Ty>,
        at: Span,
        depth: usize,
        bound: usize,
    ) -> (r: Vec<FieldDef>)
        ensures
            final(self)@ == subst_fields(
                old(self)@,
                fields_of(list@),
                tys(args@),
                at,
                depth,
                bound,
            ).0,
            fields_of(r@) == subst_fields(
                old(self)@,
                fields_of(list@),
                tys(args@),
                at,
                depth,
                bound,
            ).1,
        decreases 2 * room(depth), 2 * bound + 3, list,
    {
        let mut r: Vec<FieldDef> = Vec::new();
        let ghost all = fields_of(list@);
        let ghost start = self@;
        assert(all.take(0) =~= seq![]);
        assert(fields_of(r@) =~= seq![]);
        for i in 0..list.len()
            invariant
                all == fields_of(list@),
                self@ == subst_fields(
                    start,
                    all.take(i as int),
                    tys(args@),
                    at,
                    depth,
                    bound,
                ).0,
                fields_of(r@) == subst_fields(
                    start,
                    all.take(i as int),
                    tys(args@),
                    at,
                    depth,
                    bound,
                ).1,
        {
            let ghost before = fields_of(r@);
            let ty = self.subst(&list[i].ty, args, at, depth, bound);
            let field = FieldDef { name: list[i].name.clone(), ty, span: list[i].span };
            r.push(field);
            assert(all.take(i + 1).drop_last() =~= all.take(i as int));
            assert(fields_of(r@) =~= before.push(field@));
        }
        assert(all.take(list.len() as int) =~= all);
        r
    }

    fn subst_variants(
        &mut self,
        list: &Vec<VariantDef>,
        args: &Vec<Ty>,
        at: Span,
        depth: usize,
        bound: usize,
    ) -> (r: Vec<VariantDef>)
        ensures
            final(self)@ == subst_variants(
                old(self)@,
                variants_of(list@),
                tys(args@),
                at,
                depth,
                bound,
            ).0,
            variants_of(r@) == subst_variants(
                old(self)@,
                variants_of(list@),
                tys(args@),
                at,
                depth,
                bound,
            ).1,
        decreases 2 * room(depth), 2 * bound + 4, list,
    {
        let mut r: Vec<VariantDef> = Vec::new();
        let ghost all = variants_of(list@);
        let ghost start = self@;
        assert(all.take(0) =~= seq![]);
        assert(variants_of(r@) =~= seq![]);
        for i in 0..list.len()
            invariant
                all == variants_of(list@),
                self@ == subst_variants(
                    start,
                    all.take(i as int),
                    tys(args@),
                    at,
                    depth,
                    bound,
                ).0,
                variants_of(r@) == subst_variants(
                    start,
                    all.take(i as int),
                    tys(args@),
                    at,
                    depth,
                    bound,
                ).1,
        {
            let ghost before = variants_of(r@);
            let fields = self.subst_fields(&list[i].fields, args, at, depth, bound);
            let variant = VariantDef {
                name: list[i].name.clone(),
                fields,
                positional: list[i].positional,
                span: list[i].span,
            };
            r.push(variant);
            assert(all.take(i + 1).drop_last() =~= all.take(i as int));
            assert(variants_of(r@) =~= before.push(variant@));
        }
        assert(all.take(list.len() as int) =~= all);
        r
    }

    pub fn instantiate_struct(
        &mut self,
        template: StructId,
        args: Vec<Ty>,
        at: Span,
        depth: usize,
    ) -> (r: Option<StructId>)
        ensures
            final(self)@ == instantiate_struct(old(self)@, template, tys(args@), at, depth).0,
            r == instantiate_struct(old(self)@, template, tys(args@), at, depth).1,
        decreases 2 * room(depth), 0int,
    {
        let params = self.struct_params(template);
        if same_tys(&args, &identity(&params)) {
            return Some(template);
        }
        if let Some(found) = self.find_struct(template, &args) {
            return Some(found);
        }
        if depth > INSTANCE_DEPTH {
            self.push(say::too_deep(at));
            return None;
        }
        if self.made() >= INSTANCE_CEILING {
            self.over_the_ceiling(say::too_many_types(at));
            return None;
        }
        let defining = self.defining_types();
        let (id, index) = self.add_struct_instance(template, args, at);
        if defining {
            self.queue_fill(Fill::Struct(index, depth));
        } else {
            self.fill_struct(index, depth);
        }
        Some(id)
    }

    pub fn fill_struct(&mut self, index: usize, depth: usize)
        ensures
            final(self)@ == fill_struct(old(self)@, index, depth),
        decreases 2 * room(below(depth)) + 1, 0int,
    {
        let (template, args, id, module, at) = match self.struct_made(index) {
            Some(found) => found,
            None => {
                return ;
            },
        };
        let bound: usize = self.made();
        let fields = self.struct_fields(template);
        let outer: usize = self.current();
        self.set_current(module);
        let filled = self.subst_fields(&fields, &args, at, one_below(depth), bound);
        self.set_current(outer);
        self.set_struct_fields(id, filled);
    }

    pub fn instantiate_enum(
        &mut self,
        template: EnumId,
        args: Vec<Ty>,
        at: Span,
        depth: usize,
    ) -> (r: Option<EnumId>)
        ensures
            final(self)@ == instantiate_enum(old(self)@, template, tys(args@), at, depth).0,
            r == instantiate_enum(old(self)@, template, tys(args@), at, depth).1,
        decreases 2 * room(depth), 0int,
    {
        let params = self.enum_params(template);
        if same_tys(&args, &identity(&params)) {
            return Some(template);
        }
        if let Some(found) = self.find_enum(template, &args) {
            return Some(found);
        }
        if depth > INSTANCE_DEPTH {
            self.push(say::too_deep(at));
            return None;
        }
        if self.made() >= INSTANCE_CEILING {
            self.over_the_ceiling(say::too_many_types(at));
            return None;
        }
        let defining = self.defining_types();
        let (id, index) = self.add_enum_instance(template, args, at);
        if defining {
            self.queue_fill(Fill::Enum(index, depth));
        } else {
            self.fill_enum(index, depth);
        }
        Some(id)
    }

    pub fn fill_enum(&mut self, index: usize, depth: usize)
        ensures
            final(self)@ == fill_enum(old(self)@, index, depth),
        decreases 2 * room(below(depth)) + 1, 0int,
    {
        let (template, args, id, module, at) = match self.enum_made(index) {
            Some(found) => found,
            None => {
                return ;
            },
        };
        let bound: usize = self.made();
        let variants = self.enum_variants(template);
        let outer: usize = self.current();
        self.set_current(module);
        let filled = self.subst_variants(&variants, &args, at, one_below(depth), bound);
        self.set_current(outer);
        self.set_variants(id, filled);
    }

    fn struct_made(&self, index: usize) -> (r: Option<(StructId, Vec<Ty>, StructId, usize, Span)>)
        ensures
            match r {
                Some((template, args, id, module, at)) => index < self@.struct_instances.len() && {
                    let i = self@.struct_instances[index as int];
                    i.template == template && i.args == tys(args@) && i.id == id && i.module
                        == module && i.at == at
                },
                None => index >= self@.struct_instances.len(),
            },
    {
        proof {
            reveal(Checker::view);
        }
        if index < self.struct_instances.len() {
            let made = &self.struct_instances[index];
            Some((made.template, copies::types(&made.args), made.id, made.module, made.at))
        } else {
            None
        }
    }

    fn enum_made(&self, index: usize) -> (r: Option<(EnumId, Vec<Ty>, EnumId, usize, Span)>)
        ensures
            match r {
                Some((template, args, id, module, at)) => index < self@.enum_instances.len() && {
                    let i = self@.enum_instances[index as int];
                    i.template == template && i.args == tys(args@) && i.id == id && i.module
                        == module && i.at == at
                },
                None => index >= self@.enum_instances.len(),
            },
    {
        proof {
            reveal(Checker::view);
        }
        if index < self.enum_instances.len() {
            let made = &self.enum_instances[index];
            Some((made.template, copies::types(&made.args), made.id, made.module, made.at))
        } else {
            None
        }
    }
}

} // verus!
