//! A type is called what it was written as.

use vstd::prelude::*;
use crate::ast;
use crate::copies::place_of;
use crate::model;
use crate::resolve::{
    resolve_name, resolve_plain_name, resolve_ty, type_args, written_ty, written_tys,
};
use crate::state::{State, TypeName};
use crate::types::ty_name;

verus! {

/// A list of written types, as it is written.
pub open spec fn texts_of(list: Seq<ast::Type>) -> Seq<char>
    decreases list, 0nat,
{
    if list.len() == 0 {
        seq![]
    } else if list.len() == 1 {
        text_of(list[0])
    } else {
        texts_of(list.drop_last()) + ", "@ + text_of(list.last())
    }
}

/// A written type, as it is written.
pub open spec fn text_of(ty: ast::Type) -> Seq<char>
    decreases ty, 1nat,
{
    match ty.kind {
        ast::TypeKind::Unit => "()"@,
        ast::TypeKind::Path { path, args } => if args@.len() == 0 {
            path.head.name@
        } else {
            path.head.name@ + "<"@ + texts_of(args@) + ">"@
        },
        _ => seq![],
    }
}

/// A constructor of types that takes one type.
pub open spec fn takes_one(name: Seq<char>) -> bool {
    name == "Option"@ || name == "Task"@ || name == "Shared"@ || name == "Slots"@
}

/// Names that mean something of their own where a type is written.
pub open spec fn reserved(name: Seq<char>) -> bool {
    takes_one(name) || name == "Result"@ || name == "Flow"@ || name == "Signal"@ || name
        == "Event"@ || name == "Self"@
}

/// A type name that means a type called by it, with nothing to fill in.
pub open spec fn means_itself(s: State, t: TypeName, name: Seq<char>) -> bool {
    match t {
        TypeName::Builtin(scalar) => ty_name(s.program, scalar.ty()) == name,
        TypeName::Reactor(id) => ty_name(s.program, model::Ty::Reactor(id)) == name,
        TypeName::Struct(id) => s.struct_params(id).len() == 0 && ty_name(
            s.program,
            model::Ty::Struct(id),
        ) == name,
        TypeName::Enum(id) => s.enum_params(id).len() == 0 && ty_name(
            s.program,
            model::Ty::Enum(id),
        ) == name,
    }
}

/// A written type made of `()`, type parameters, types known by their own names, and the type
/// constructors at the right number of arguments.
pub open spec fn well_written(s: State, ty: ast::Type) -> bool
    decreases ty,
{
    match ty.kind {
        ast::TypeKind::Unit => true,
        ast::TypeKind::Path { path, args } => {
            let name = path.head.name@;
            &&& path.rest@.len() == 0
            &&& forall|k: int| 0 <= k < args@.len() ==> well_written(s, #[trigger] args@[k])
            &&& (takes_one(name) && args@.len() == 1) || (name == "Result"@ && args@.len() == 2) || (
            args@.len() == 0 && !reserved(name) && (place_of(s.type_params, name) is Some || (
            s.type_named(name) is Some && means_itself(s, s.type_named(name)->0, name))))
        },
        _ => false,
    }
}

proof fn constructors_differ()
    ensures
        "Option"@ + "<"@ == "Option<"@,
        "Result"@ + "<"@ == "Result<"@,
        "Task"@ + "<"@ == "Task<"@,
        "Shared"@ + "<"@ == "Shared<"@,
        "Slots"@ + "<"@ == "Slots<"@,
        "Option"@ != "Result"@,
        "Option"@ != "Task"@,
        "Option"@ != "Shared"@,
        "Option"@ != "Slots"@,
        "Result"@ != "Task"@,
        "Result"@ != "Shared"@,
        "Result"@ != "Slots"@,
        "Task"@ != "Shared"@,
        "Task"@ != "Slots"@,
        "Shared"@ != "Slots"@,
{
    reveal_strlit("Option");
    reveal_strlit("Result");
    reveal_strlit("Task");
    reveal_strlit("Shared");
    reveal_strlit("Slots");
    reveal_strlit("<");
    reveal_strlit("Option<");
    reveal_strlit("Result<");
    reveal_strlit("Task<");
    reveal_strlit("Shared<");
    reveal_strlit("Slots<");
    assert("Option"@ + "<"@ =~= "Option<"@);
    assert("Result"@ + "<"@ =~= "Result<"@);
    assert("Task"@ + "<"@ =~= "Task<"@);
    assert("Shared"@ + "<"@ =~= "Shared<"@);
    assert("Slots"@ + "<"@ =~= "Slots<"@);
    assert("Option"@[0] == 'O');
    assert("Result"@[0] == 'R');
    assert("Option"@[0] != "Result"@[0]);
    assert("Task"@.len() == 4);
    assert("Slots"@.len() == 5);
    assert("Shared"@[0] == 'S');
}

/// What a written type resolves to is called exactly what was written, argument for argument and
/// side for side, and resolving it changes nothing.
pub proof fn types_are_called_what_was_written(s: State, ty: ast::Type)
    requires
        well_written(s, ty),
    ensures
        resolve_ty(s, ty).0 == s,
        ty_name(s.program, resolve_ty(s, ty).1) == text_of(ty),
{
    reveal(resolve_ty);
    written_types_are_called_so(s, ty);
}

proof fn written_types_are_called_so(s: State, ty: ast::Type)
    requires
        well_written(s, ty),
    ensures
        written_ty(s, ty).0 == s,
        ty_name(s.program, written_ty(s, ty).1) == text_of(ty),
    decreases ty, 1nat,
{
    match ty.kind {
        ast::TypeKind::Path { path, args } => {
            let name = path.head.name@;
            let list = args@;
            constructors_differ();
            assert(decreases_to!(ty => args));
            assert(decreases_to!(args => args@));
            assert(written_ty(s, ty) == resolve_name(s, name, list, path.span, ty.span));
            if list.len() > 0 {
                lists_are_called_so(s, list);
                let found = written_tys(s, list).1;
                let one = ty_name(s.program, found[0]);
                if list.len() == 1 {
                    assert(type_args(s, name, list, 1, ty.span) == (s, Some(found)));
                    assert(texts_of(list) == one);
                    let t = written_ty(s, ty).1;
                    assert(ty_name(s.program, t) == name + "<"@ + one + ">"@) by {
                        if name == "Option"@ {
                            assert(t == model::Ty::Option(Box::new(found[0])));
                        } else if name == "Task"@ {
                            assert(t == model::Ty::Task(Box::new(found[0])));
                        } else if name == "Shared"@ {
                            assert(t == model::Ty::Shared(Box::new(found[0])));
                        } else {
                            assert(t == model::Ty::Slots(Box::new(found[0])));
                        }
                    }
                } else {
                    let two = ty_name(s.program, found[1]);
                    assert(type_args(s, name, list, 2, ty.span) == (s, Some(found)));
                    assert(list.drop_last()[0] == list[0]);
                    assert(texts_of(list.drop_last()) == one);
                    assert(texts_of(list) == one + ", "@ + two);
                    let t = written_ty(s, ty).1;
                    assert(t == model::Ty::Result(Box::new(found[0]), Box::new(found[1])));
                    assert("Result<"@ + one + ", "@ + two + ">"@ =~= name + "<"@ + (one + ", "@ + two)
                        + ">"@);
                }
            } else {
                assert(written_ty(s, ty) == resolve_plain_name(
                    s,
                    name,
                    list,
                    path.span,
                    ty.span,
                ));
            }
        },
        _ => {},
    }
}

proof fn lists_are_called_so(s: State, list: Seq<ast::Type>)
    requires
        forall|k: int| 0 <= k < list.len() ==> well_written(s, #[trigger] list[k]),
    ensures
        written_tys(s, list).0 == s,
        written_tys(s, list).1.len() == list.len(),
        forall|k: int|
            0 <= k < list.len() ==> ty_name(s.program, #[trigger] written_tys(s, list).1[k])
                == text_of(list[k]),
    decreases list, 0nat,
{
    if list.len() > 0 {
        let init = list.drop_last();
        assert forall|k: int| 0 <= k < init.len() implies well_written(s, #[trigger] init[k]) by {
            assert(well_written(s, list[k]));
        }
        lists_are_called_so(s, init);
        let last = list.len() - 1;
        assert(well_written(s, list[last]));
        assert(decreases_to!(list => list[last]));
        written_types_are_called_so(s, list[last]);
        assert forall|k: int| 0 <= k < list.len() implies ty_name(
            s.program,
            #[trigger] written_tys(s, list).1[k],
        ) == text_of(list[k]) by {
            if k < last {
                assert(ty_name(s.program, written_tys(s, init).1[k]) == text_of(init[k]));
            }
        }
    }
}

} // verus!
