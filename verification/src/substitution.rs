//! What substitution and inference do to types: a type is walked position by position, every
//! parameter becomes its argument where it stands, and everything else stays where it was.

use vstd::prelude::*;
use crate::generics::{
    arguments, instantiate_enum, instantiate_struct, param_identity, subst, subst_all, subst_enum,
    subst_fields, subst_struct, subst_variants,
};
use crate::growth::sharing::{
    enum_is_known_once_given, known_enum, known_struct, struct_is_known_once_given,
};
use crate::hir::{EnumId, StructId};
use crate::infer::{bind_params, mentions_param, mentions_unbound, solve};
use crate::instances::substitute;
use crate::model;
use crate::span::Span;
use crate::state::State;

verus! {

// ---------------------------------------------------------------- positions

/// A type constructor with one type inside it.
pub open spec fn inner(ty: model::Ty) -> Option<model::Ty> {
    match ty {
        model::Ty::Option(t) => Some(*t),
        model::Ty::Task(t) => Some(*t),
        model::Ty::Shared(t) => Some(*t),
        model::Ty::Slots(t) => Some(*t),
        model::Ty::Input(t) => Some(*t),
        model::Ty::Signal(t) => Some(*t),
        model::Ty::Event(t) => Some(*t),
        model::Ty::Ref(t) => Some(*t),
        _ => None,
    }
}

/// The types directly inside a type: the first is the one inside it, or what a `Result` is when
/// it is well; the second is what a `Result` is when it is not.
pub open spec fn side(ty: model::Ty, second: bool) -> Option<model::Ty> {
    match ty {
        model::Ty::Result(ok, err) => Some(
            if second {
                *err
            } else {
                *ok
            },
        ),
        _ => if second {
            None
        } else {
            inner(ty)
        },
    }
}

/// The type at a position inside another: which side to take, from the outside in.
pub open spec fn reach(ty: model::Ty, way: Seq<bool>) -> Option<model::Ty>
    decreases way.len(),
{
    if way.len() == 0 {
        Some(ty)
    } else {
        match side(ty, way[0]) {
            Some(t) => reach(t, way.drop_first()),
            None => None,
        }
    }
}

/// Whether two types are made by the same constructor.
pub open spec fn alike(a: model::Ty, b: model::Ty) -> bool {
    match a {
        model::Ty::Option(_) => b is Option,
        model::Ty::Task(_) => b is Task,
        model::Ty::Shared(_) => b is Shared,
        model::Ty::Slots(_) => b is Slots,
        model::Ty::Input(_) => b is Input,
        model::Ty::Signal(_) => b is Signal,
        model::Ty::Event(_) => b is Event,
        model::Ty::Ref(_) => b is Ref,
        model::Ty::Result(_, _) => b is Result,
        _ => a == b,
    }
}

pub open spec fn declared(ty: model::Ty) -> bool {
    ty is Struct || ty is Enum
}

/// Substitution works in place. At every position of a type, a parameter has become its argument,
/// and what is neither a parameter nor a declared type is made as it was. So the good side of a
/// `Result` is the substitution of its good side, and the bad side that of its bad side.
pub proof fn substitution_works_in_place(
    s: State,
    ty: model::Ty,
    args: Seq<model::Ty>,
    at: Span,
    depth: usize,
    bound: usize,
    way: Seq<bool>,
)
    requires
        reach(ty, way) is Some,
        !declared(reach(ty, way)->0),
    ensures
        match reach(ty, way)->0 {
            model::Ty::Param { index, .. } => reach(
                subst(s, ty, args, at, depth, bound).1,
                way,
            ) == Some(
                if index < args.len() {
                    args[index as int]
                } else {
                    model::Ty::Error
                },
            ),
            t => reach(subst(s, ty, args, at, depth, bound).1, way) matches Some(u) && alike(t, u),
        },
    decreases way.len(),
{
    if way.len() > 0 {
        let rest = way.drop_first();
        match ty {
            model::Ty::Option(t) => {
                substitution_works_in_place(s, *t, args, at, depth, bound, rest);
            },
            model::Ty::Task(t) => {
                substitution_works_in_place(s, *t, args, at, depth, bound, rest);
            },
            model::Ty::Shared(t) => {
                substitution_works_in_place(s, *t, args, at, depth, bound, rest);
            },
            model::Ty::Slots(t) => {
                substitution_works_in_place(s, *t, args, at, depth, bound, rest);
            },
            model::Ty::Input(t) => {
                substitution_works_in_place(s, *t, args, at, depth, bound, rest);
            },
            model::Ty::Signal(t) => {
                substitution_works_in_place(s, *t, args, at, depth, bound, rest);
            },
            model::Ty::Event(t) => {
                substitution_works_in_place(s, *t, args, at, depth, bound, rest);
            },
            model::Ty::Ref(t) => {
                substitution_works_in_place(s, *t, args, at, depth, bound, rest);
            },
            model::Ty::Result(t, e) => {
                if way[0] {
                    let s1 = subst(s, *t, args, at, depth, bound).0;
                    substitution_works_in_place(s1, *e, args, at, depth, bound, rest);
                } else {
                    substitution_works_in_place(s, *t, args, at, depth, bound, rest);
                }
            },
            _ => {},
        }
    }
}

/// The same of substitution from the top.
pub proof fn substitution_is_in_place(
    s: State,
    ty: model::Ty,
    args: Seq<model::Ty>,
    at: Span,
    way: Seq<bool>,
)
    requires
        reach(ty, way) is Some,
        !declared(reach(ty, way)->0),
    ensures
        match reach(ty, way)->0 {
            model::Ty::Param { index, .. } => reach(substitute(s, ty, args, at).1, way) == Some(
                if index < args.len() {
                    args[index as int]
                } else {
                    model::Ty::Error
                },
            ),
            t => reach(substitute(s, ty, args, at).1, way) matches Some(u) && alike(t, u),
        },
{
    reveal(substitute);
    substitution_works_in_place(s, ty, args, at, 0, s.made(), way);
}

// ---------------------------------------------------------------- what stays

/// A type that substitution at `args` has nothing to do in: each parameter it mentions is its own
/// argument, and what it names is known. An instance is looked into when it is older than `bound`.
pub open spec fn at_rest(s: State, ty: model::Ty, args: Seq<model::Ty>, bound: usize) -> bool
    decreases bound, 1int, ty,
{
    match ty {
        model::Ty::Param { index, .. } => index < args.len() && args[index as int] == ty,
        model::Ty::Option(t) => at_rest(s, *t, args, bound),
        model::Ty::Task(t) => at_rest(s, *t, args, bound),
        model::Ty::Shared(t) => at_rest(s, *t, args, bound),
        model::Ty::Slots(t) => at_rest(s, *t, args, bound),
        model::Ty::Input(t) => at_rest(s, *t, args, bound),
        model::Ty::Signal(t) => at_rest(s, *t, args, bound),
        model::Ty::Event(t) => at_rest(s, *t, args, bound),
        model::Ty::Ref(t) => at_rest(s, *t, args, bound),
        model::Ty::Result(t, e) => at_rest(s, *t, args, bound) && at_rest(s, *e, args, bound),
        model::Ty::Struct(id) => match s.struct_instance(id) {
            Some(i) => i.serial < bound ==> all_at_rest(s, i.args, args, i.serial) && known_struct(
                s,
                i.template,
                i.args,
            ) == Some(id),
            None => s.struct_params(id).len() == 0 || arguments(args, s.struct_params(id).len())
                == param_identity(s.struct_params(id)),
        },
        model::Ty::Enum(id) => match s.enum_instance(id) {
            Some(i) => i.serial < bound ==> all_at_rest(s, i.args, args, i.serial) && known_enum(
                s,
                i.template,
                i.args,
            ) == Some(id),
            None => s.enum_params(id).len() == 0 || arguments(args, s.enum_params(id).len())
                == param_identity(s.enum_params(id)),
        },
        _ => true,
    }
}

pub open spec fn all_at_rest(
    s: State,
    list: Seq<model::Ty>,
    args: Seq<model::Ty>,
    bound: usize,
) -> bool
    decreases bound, 1int, list,
{
    list.len() > 0 ==> all_at_rest(s, list.drop_last(), args, bound) && at_rest(
        s,
        list.last(),
        args,
        bound,
    )
}

/// A type with nothing to substitute is given back as it is, and nothing changes: neither a closed
/// type at any arguments, nor any type at its own parameters.
pub proof fn types_at_rest_stay(
    s: State,
    ty: model::Ty,
    args: Seq<model::Ty>,
    at: Span,
    depth: usize,
    bound: usize,
)
    requires
        at_rest(s, ty, args, bound),
    ensures
        subst(s, ty, args, at, depth, bound) == (s, ty),
    decreases bound, 1int, ty,
{
    match ty {
        model::Ty::Option(t) => types_at_rest_stay(s, *t, args, at, depth, bound),
        model::Ty::Task(t) => types_at_rest_stay(s, *t, args, at, depth, bound),
        model::Ty::Shared(t) => types_at_rest_stay(s, *t, args, at, depth, bound),
        model::Ty::Slots(t) => types_at_rest_stay(s, *t, args, at, depth, bound),
        model::Ty::Input(t) => types_at_rest_stay(s, *t, args, at, depth, bound),
        model::Ty::Signal(t) => types_at_rest_stay(s, *t, args, at, depth, bound),
        model::Ty::Event(t) => types_at_rest_stay(s, *t, args, at, depth, bound),
        model::Ty::Ref(t) => types_at_rest_stay(s, *t, args, at, depth, bound),
        model::Ty::Result(t, e) => {
            types_at_rest_stay(s, *t, args, at, depth, bound);
            types_at_rest_stay(s, *e, args, at, depth, bound);
        },
        model::Ty::Struct(id) => {
            assert(subst(s, ty, args, at, depth, bound) == subst_struct(
                s,
                id,
                args,
                at,
                depth,
                bound,
            ));
            match s.struct_instance(id) {
                Some(i) => {
                    if i.serial < bound {
                        lists_at_rest_stay(s, i.args, args, at, depth, i.serial);
                        reveal(known_struct);
                    }
                },
                None => {},
            }
        },
        model::Ty::Enum(id) => {
            assert(subst(s, ty, args, at, depth, bound) == subst_enum(
                s,
                id,
                args,
                at,
                depth,
                bound,
            ));
            match s.enum_instance(id) {
                Some(i) => {
                    if i.serial < bound {
                        lists_at_rest_stay(s, i.args, args, at, depth, i.serial);
                        reveal(known_enum);
                    }
                },
                None => {},
            }
        },
        _ => {},
    }
}

proof fn lists_at_rest_stay(
    s: State,
    list: Seq<model::Ty>,
    args: Seq<model::Ty>,
    at: Span,
    depth: usize,
    bound: usize,
)
    requires
        all_at_rest(s, list, args, bound),
    ensures
        subst_all(s, list, args, at, depth, bound) == (s, list),
    decreases bound, 1int, list,
{
    if list.len() > 0 {
        lists_at_rest_stay(s, list.drop_last(), args, at, depth, bound);
        types_at_rest_stay(s, list.last(), args, at, depth, bound);
        assert(list.drop_last().push(list.last()) =~= list);
    } else {
        assert(list =~= seq![]);
    }
}

/// Whether the type stands for itself at any arguments: it mentions no parameter.
pub open spec fn bare(ty: model::Ty) -> bool {
    forall|way: Seq<bool>|
        (#[trigger] reach(ty, way)) is Some ==> !(reach(ty, way)->0 is Param) && !declared(
            reach(ty, way)->0,
        )
}

proof fn bare_inside(ty: model::Ty, second: bool)
    requires
        bare(ty),
        side(ty, second) is Some,
    ensures
        bare(side(ty, second)->0),
{
    let t = side(ty, second)->0;
    assert forall|way: Seq<bool>| (#[trigger] reach(t, way)) is Some implies !(reach(
        t,
        way,
    )->0 is Param) && !declared(reach(t, way)->0) by {
        let longer = seq![second] + way;
        assert(longer.drop_first() =~= way);
        assert(reach(ty, longer) == reach(t, way));
    }
}

/// A type without parameters or declared types in it is the same at all arguments.
pub proof fn bare_types_stay(
    s: State,
    ty: model::Ty,
    args: Seq<model::Ty>,
    at: Span,
    depth: usize,
    bound: usize,
)
    requires
        bare(ty),
    ensures
        subst(s, ty, args, at, depth, bound) == (s, ty),
    decreases ty,
{
    assert(reach(ty, seq![]) == Some(ty));
    match ty {
        model::Ty::Option(t) => {
            bare_inside(ty, false);
            bare_types_stay(s, *t, args, at, depth, bound);
        },
        model::Ty::Task(t) => {
            bare_inside(ty, false);
            bare_types_stay(s, *t, args, at, depth, bound);
        },
        model::Ty::Shared(t) => {
            bare_inside(ty, false);
            bare_types_stay(s, *t, args, at, depth, bound);
        },
        model::Ty::Slots(t) => {
            bare_inside(ty, false);
            bare_types_stay(s, *t, args, at, depth, bound);
        },
        model::Ty::Input(t) => {
            bare_inside(ty, false);
            bare_types_stay(s, *t, args, at, depth, bound);
        },
        model::Ty::Signal(t) => {
            bare_inside(ty, false);
            bare_types_stay(s, *t, args, at, depth, bound);
        },
        model::Ty::Event(t) => {
            bare_inside(ty, false);
            bare_types_stay(s, *t, args, at, depth, bound);
        },
        model::Ty::Ref(t) => {
            bare_inside(ty, false);
            bare_types_stay(s, *t, args, at, depth, bound);
        },
        model::Ty::Result(t, e) => {
            bare_inside(ty, false);
            bare_inside(ty, true);
            bare_types_stay(s, *t, args, at, depth, bound);
            bare_types_stay(s, *e, args, at, depth, bound);
        },
        _ => {},
    }
}

/// A parameter of a template at the template's own parameters is itself.
pub proof fn parameters_stand_for_themselves(s: State, params: Seq<Seq<char>>, k: int, bound: usize)
    requires
        0 <= k < params.len() <= u32::MAX,
    ensures
        at_rest(
            s,
            model::Ty::Param { index: k as u32, name: params[k] },
            param_identity(params),
            bound,
        ),
{
}

// ---------------------------------------------------------------- declared types

/// Each type of a list is substituted where it stands.
pub proof fn lists_are_substituted_in_order(
    s: State,
    list: Seq<model::Ty>,
    args: Seq<model::Ty>,
    at: Span,
    depth: usize,
    bound: usize,
    k: int,
)
    requires
        0 <= k < list.len(),
    ensures
        subst_all(s, list, args, at, depth, bound).1.len() == list.len(),
        exists|m: State|
            subst_all(s, list, args, at, depth, bound).1[k] == (#[trigger] subst(
                m,
                list[k],
                args,
                at,
                depth,
                bound,
            )).1,
    decreases list.len(),
{
    let head = list.drop_last();
    if head.len() > 0 {
        lists_are_substituted_in_order(
            s,
            head,
            args,
            at,
            depth,
            bound,
            if k < head.len() {
                k
            } else {
                0
            },
        );
    } else {
        assert(subst_all(s, head, args, at, depth, bound).1.len() == 0);
    }
    let s1 = subst_all(s, head, args, at, depth, bound).0;
    let last = subst(s1, list.last(), args, at, depth, bound);
    if k < head.len() {
        assert(head[k] == list[k]);
    }
}

/// A field keeps its name and its place, and its type is substituted.
pub proof fn fields_are_substituted_in_order(
    s: State,
    list: Seq<model::FieldDef>,
    args: Seq<model::Ty>,
    at: Span,
    depth: usize,
    bound: usize,
    k: int,
)
    requires
        0 <= k < list.len(),
    ensures
        subst_fields(s, list, args, at, depth, bound).1.len() == list.len(),
        subst_fields(s, list, args, at, depth, bound).1[k].name == list[k].name,
        exists|m: State|
            subst_fields(s, list, args, at, depth, bound).1[k].ty == (#[trigger] subst(
                m,
                list[k].ty,
                args,
                at,
                depth,
                bound,
            )).1,
    decreases list.len(),
{
    let head = list.drop_last();
    if head.len() > 0 {
        fields_are_substituted_in_order(
            s,
            head,
            args,
            at,
            depth,
            bound,
            if k < head.len() {
                k
            } else {
                0
            },
        );
    } else {
        assert(subst_fields(s, head, args, at, depth, bound).1.len() == 0);
    }
    let s1 = subst_fields(s, head, args, at, depth, bound).0;
    let last = subst(s1, list.last().ty, args, at, depth, bound);
    if k < head.len() {
        assert(head[k] == list[k]);
    }
}

/// A variant keeps its name and its place, and so does each of its fields.
pub proof fn variants_are_substituted_in_order(
    s: State,
    list: Seq<model::VariantDef>,
    args: Seq<model::Ty>,
    at: Span,
    depth: usize,
    bound: usize,
    k: int,
)
    requires
        0 <= k < list.len(),
    ensures
        subst_variants(s, list, args, at, depth, bound).1.len() == list.len(),
        subst_variants(s, list, args, at, depth, bound).1[k].name == list[k].name,
        exists|m: State|
            subst_variants(s, list, args, at, depth, bound).1[k].fields
                == (#[trigger] subst_fields(m, list[k].fields, args, at, depth, bound)).1,
    decreases list.len(),
{
    let head = list.drop_last();
    if head.len() > 0 {
        variants_are_substituted_in_order(
            s,
            head,
            args,
            at,
            depth,
            bound,
            if k < head.len() {
                k
            } else {
                0
            },
        );
    } else {
        assert(subst_variants(s, head, args, at, depth, bound).1.len() == 0);
    }
    let s1 = subst_variants(s, head, args, at, depth, bound).0;
    let last = subst_fields(s1, list.last().fields, args, at, depth, bound);
    if k < head.len() {
        assert(head[k] == list[k]);
    }
}

/// An instance of a struct is taken to the instance of the same template at the substituted arguments.
pub proof fn struct_instances_keep_their_template(
    s: State,
    id: StructId,
    args: Seq<model::Ty>,
    at: Span,
    depth: usize,
    bound: usize,
)
    requires
        s.struct_instance(id) is Some,
        (s.struct_instance(id)->0).serial < bound,
        (s.struct_instance(id)->0).template.0 < s.program.structs.len(),
    ensures
        ({
            let i = s.struct_instance(id)->0;
            let (s1, list) = subst_all(s, i.args, args, at, depth, i.serial);
            match subst(s, model::Ty::Struct(id), args, at, depth, bound) {
                (end, model::Ty::Struct(new)) => known_struct(end, i.template, list) == Some(new),
                (_, other) => other is Error,
            }
        }),
{
    let i = s.struct_instance(id)->0;
    let (s1, list) = subst_all(s, i.args, args, at, depth, i.serial);
    crate::growth::generics::subst_all_grows(s, i.args, args, at, depth, i.serial);
    assert(s1.program.structs.len() >= s.program.structs.len()) by {
        reveal(crate::growth::grew);
        reveal(crate::growth::widened);
    }
    assert(subst(s, model::Ty::Struct(id), args, at, depth, bound) == subst_struct(
        s,
        id,
        args,
        at,
        depth,
        bound,
    ));
    if instantiate_struct(s1, i.template, list, at, depth).1 is Some {
        struct_is_known_once_given(s1, i.template, list, at, depth);
    }
}

/// An instance of an enum is taken to the instance of the same template at the substituted arguments.
pub proof fn enum_instances_keep_their_template(
    s: State,
    id: EnumId,
    args: Seq<model::Ty>,
    at: Span,
    depth: usize,
    bound: usize,
)
    requires
        s.enum_instance(id) is Some,
        (s.enum_instance(id)->0).serial < bound,
        (s.enum_instance(id)->0).template.0 < s.program.enums.len(),
    ensures
        ({
            let i = s.enum_instance(id)->0;
            let (s1, list) = subst_all(s, i.args, args, at, depth, i.serial);
            match subst(s, model::Ty::Enum(id), args, at, depth, bound) {
                (end, model::Ty::Enum(new)) => known_enum(end, i.template, list) == Some(new),
                (_, other) => other is Error,
            }
        }),
{
    let i = s.enum_instance(id)->0;
    let (s1, list) = subst_all(s, i.args, args, at, depth, i.serial);
    crate::growth::generics::subst_all_grows(s, i.args, args, at, depth, i.serial);
    assert(s1.program.enums.len() >= s.program.enums.len()) by {
        reveal(crate::growth::grew);
        reveal(crate::growth::widened);
    }
    assert(subst(s, model::Ty::Enum(id), args, at, depth, bound) == subst_enum(
        s,
        id,
        args,
        at,
        depth,
        bound,
    ));
    if instantiate_enum(s1, i.template, list, at, depth).1 is Some {
        enum_is_known_once_given(s1, i.template, list, at, depth);
    }
}

// ---------------------------------------------------------------- inference

/// Whether parameter `k` stands at some position of a type.
pub open spec fn names_param(ty: model::Ty, k: int) -> bool {
    exists|way: Seq<bool>|
        (#[trigger] reach(ty, way)) is Some && reach(ty, way)->0 is Param && reach(
            ty,
            way,
        )->0->Param_index == k
}

/// Whether no declared type stands at any position of a type.
pub open spec fn undeclared(ty: model::Ty) -> bool {
    forall|way: Seq<bool>|
        (#[trigger] reach(ty, way)) is Some ==> !declared(reach(ty, way)->0)
}

/// Whether no borrow stands at any position of a type.
pub open spec fn unborrowed(ty: model::Ty) -> bool {
    forall|way: Seq<bool>| (#[trigger] reach(ty, way)) is Some ==> !(reach(ty, way)->0 is Ref)
}

proof fn sides_of(ty: model::Ty, second: bool)
    requires
        side(ty, second) is Some,
    ensures
        undeclared(ty) ==> undeclared(side(ty, second)->0),
        unborrowed(ty) ==> unborrowed(side(ty, second)->0),
{
    let t = side(ty, second)->0;
    assert forall|way: Seq<bool>| (#[trigger] reach(t, way)) is Some implies reach(
        ty,
        seq![second] + way,
    ) == reach(t, way) by {
        let longer = seq![second] + way;
        assert(longer.drop_first() =~= way);
    }
}

proof fn names_param_by_side(ty: model::Ty, k: int)
    ensures
        names_param(ty, k) <==> ((ty is Param && ty->Param_index == k) || (side(
            ty,
            false,
        ) is Some && names_param(side(ty, false)->0, k)) || (side(ty, true) is Some && names_param(
            side(ty, true)->0,
            k,
        ))),
{
    if names_param(ty, k) {
        let way = choose|way: Seq<bool>|
            (#[trigger] reach(ty, way)) is Some && reach(ty, way)->0 is Param && reach(
                ty,
                way,
            )->0->Param_index == k;
        if way.len() > 0 {
            let t = side(ty, way[0])->0;
            assert(reach(t, way.drop_first()) == reach(ty, way));
        }
    }
    if ty is Param && ty->Param_index == k {
        assert(reach(ty, seq![]) == Some(ty));
    }
    names_param_from(ty, k, false);
    names_param_from(ty, k, true);
}

proof fn names_param_from(ty: model::Ty, k: int, second: bool)
    ensures
        side(ty, second) is Some && names_param(side(ty, second)->0, k) ==> names_param(ty, k),
{
    if side(ty, second) is Some && names_param(side(ty, second)->0, k) {
        let t = side(ty, second)->0;
        let way = choose|way: Seq<bool>|
            (#[trigger] reach(t, way)) is Some && reach(t, way)->0 is Param && reach(
                t,
                way,
            )->0->Param_index == k;
        let longer = seq![second] + way;
        assert(longer.drop_first() =~= way);
        assert(reach(ty, longer) == reach(t, way));
    }
}

/// Inference undoes substitution. Matched against its own substitution, a type settles each open
/// parameter it mentions to exactly the argument that was put there, and no other.
pub proof fn inference_undoes_substitution(
    s: State,
    m: State,
    ty: model::Ty,
    args: Seq<model::Ty>,
    at: Span,
    depth: usize,
    bound: usize,
    b: Seq<Option<model::Ty>>,
    limit: usize,
    k: int,
)
    requires
        undeclared(ty),
        unborrowed(ty),
        forall|i: int| 0 <= i < args.len() ==> !(#[trigger] args[i] is Never),
        0 <= k < b.len(),
        names_param(ty, k) ==> k < args.len(),
    ensures
        ({
            let found = subst(m, ty, args, at, depth, bound).1;
            let after = solve(s, ty, found, b, limit);
            &&& after.len() == b.len()
            &&& after[k] == if b[k] is Some || !names_param(ty, k) {
                b[k]
            } else {
                Some(args[k])
            }
        }),
    decreases ty,
{
    names_param_by_side(ty, k);
    assert(reach(ty, seq![]) == Some(ty));
    if side(ty, false) is Some {
        sides_of(ty, false);
    }
    if side(ty, true) is Some {
        sides_of(ty, true);
    }
    match ty {
        model::Ty::Option(t) => {
            inference_undoes_substitution(s, m, *t, args, at, depth, bound, b, limit, k);
        },
        model::Ty::Task(t) => {
            inference_undoes_substitution(s, m, *t, args, at, depth, bound, b, limit, k);
        },
        model::Ty::Shared(t) => {
            inference_undoes_substitution(s, m, *t, args, at, depth, bound, b, limit, k);
        },
        model::Ty::Slots(t) => {
            inference_undoes_substitution(s, m, *t, args, at, depth, bound, b, limit, k);
        },
        model::Ty::Input(t) => {
            inference_undoes_substitution(s, m, *t, args, at, depth, bound, b, limit, k);
        },
        model::Ty::Signal(t) => {
            inference_undoes_substitution(s, m, *t, args, at, depth, bound, b, limit, k);
        },
        model::Ty::Event(t) => {
            inference_undoes_substitution(s, m, *t, args, at, depth, bound, b, limit, k);
        },
        model::Ty::Result(t, e) => {
            let (m1, f) = subst(m, *t, args, at, depth, bound);
            inference_undoes_substitution(s, m, *t, args, at, depth, bound, b, limit, k);
            let b1 = solve(s, *t, f, b, limit);
            inference_undoes_substitution(s, m1, *e, args, at, depth, bound, b1, limit, k);
        },
        model::Ty::Param { index, .. } => {},
        _ => {
            reveal(State::base);
            reveal(State::parts);
        },
    }
}

/// Giving up on a type settles each open parameter it mentions to what was given, and no other.
pub proof fn giving_up_settles_what_is_mentioned(
    s: State,
    ty: model::Ty,
    b: Seq<Option<model::Ty>>,
    to: model::Ty,
    bound: usize,
    k: int,
)
    requires
        undeclared(ty),
        0 <= k < b.len(),
    ensures
        bind_params(s, ty, b, to, bound).len() == b.len(),
        bind_params(s, ty, b, to, bound)[k] == if b[k] is Some || !names_param(ty, k) {
            b[k]
        } else {
            Some(to)
        },
    decreases ty,
{
    names_param_by_side(ty, k);
    assert(reach(ty, seq![]) == Some(ty));
    if side(ty, false) is Some {
        sides_of(ty, false);
    }
    if side(ty, true) is Some {
        sides_of(ty, true);
    }
    match ty {
        model::Ty::Option(t) => giving_up_settles_what_is_mentioned(s, *t, b, to, bound, k),
        model::Ty::Task(t) => giving_up_settles_what_is_mentioned(s, *t, b, to, bound, k),
        model::Ty::Shared(t) => giving_up_settles_what_is_mentioned(s, *t, b, to, bound, k),
        model::Ty::Slots(t) => giving_up_settles_what_is_mentioned(s, *t, b, to, bound, k),
        model::Ty::Input(t) => giving_up_settles_what_is_mentioned(s, *t, b, to, bound, k),
        model::Ty::Signal(t) => giving_up_settles_what_is_mentioned(s, *t, b, to, bound, k),
        model::Ty::Event(t) => giving_up_settles_what_is_mentioned(s, *t, b, to, bound, k),
        model::Ty::Ref(t) => giving_up_settles_what_is_mentioned(s, *t, b, to, bound, k),
        model::Ty::Result(t, e) => {
            giving_up_settles_what_is_mentioned(s, *t, b, to, bound, k);
            let b1 = bind_params(s, *t, b, to, bound);
            giving_up_settles_what_is_mentioned(s, *e, b1, to, bound, k);
        },
        model::Ty::Param { index, .. } => {},
        _ => {
            reveal(State::parts);
        },
    }
}

/// A type has something open in it exactly when a parameter that is not settled stands at one of
/// its positions.
pub proof fn open_types_mention_an_open_parameter(
    s: State,
    ty: model::Ty,
    b: Seq<Option<model::Ty>>,
    bound: usize,
)
    requires
        undeclared(ty),
    ensures
        mentions_unbound(s, ty, b, bound) <==> exists|k: int| #[trigger]
            names_param(ty, k) && !(0 <= k < b.len() && b[k] is Some),
    decreases ty,
{
    assert forall|k: int| true implies (#[trigger] names_param(ty, k) <==> ((ty is Param
        && ty->Param_index == k) || (side(ty, false) is Some && names_param(side(ty, false)->0, k))
        || (side(ty, true) is Some && names_param(side(ty, true)->0, k)))) by {
        names_param_by_side(ty, k);
    }
    assert(reach(ty, seq![]) == Some(ty));
    if side(ty, false) is Some {
        sides_of(ty, false);
        open_types_mention_an_open_parameter(s, side(ty, false)->0, b, bound);
        assert forall|k: int| #[trigger] names_param(side(ty, false)->0, k) implies names_param(
            ty,
            k,
        ) by {
            names_param_by_side(ty, k);
        }
    }
    if side(ty, true) is Some {
        sides_of(ty, true);
        open_types_mention_an_open_parameter(s, side(ty, true)->0, b, bound);
        assert forall|k: int| #[trigger] names_param(side(ty, true)->0, k) implies names_param(
            ty,
            k,
        ) by {
            names_param_by_side(ty, k);
        }
    }
    if ty is Param {
        assert(names_param(ty, ty->Param_index as int));
    }
    reveal(State::parts);
}

/// A type is generic exactly when a parameter stands at one of its positions.
pub proof fn generic_types_mention_a_parameter(s: State, ty: model::Ty, bound: usize)
    requires
        undeclared(ty),
    ensures
        mentions_param(s, ty, bound) <==> exists|k: int| #[trigger] names_param(ty, k),
    decreases ty,
{
    assert forall|k: int| true implies (#[trigger] names_param(ty, k) <==> ((ty is Param
        && ty->Param_index == k) || (side(ty, false) is Some && names_param(side(ty, false)->0, k))
        || (side(ty, true) is Some && names_param(side(ty, true)->0, k)))) by {
        names_param_by_side(ty, k);
    }
    assert(reach(ty, seq![]) == Some(ty));
    if side(ty, false) is Some {
        sides_of(ty, false);
        generic_types_mention_a_parameter(s, side(ty, false)->0, bound);
        assert forall|k: int| #[trigger] names_param(side(ty, false)->0, k) implies names_param(
            ty,
            k,
        ) by {
            names_param_by_side(ty, k);
        }
    }
    if side(ty, true) is Some {
        sides_of(ty, true);
        generic_types_mention_a_parameter(s, side(ty, true)->0, bound);
        assert forall|k: int| #[trigger] names_param(side(ty, true)->0, k) implies names_param(
            ty,
            k,
        ) by {
            names_param_by_side(ty, k);
        }
    }
    if ty is Param {
        assert(names_param(ty, ty->Param_index as int));
    }
    reveal(State::parts);
}

} // verus!
