//! What every step of the checker keeps: it only adds to what is known.

use vstd::prelude::*;
use crate::generics::INSTANCE_CEILING;
use crate::hir::EQ;
use crate::model;
use crate::state::State;
use crate::traits::receiver_home;

pub mod state;
pub mod tables;
pub mod generics;
pub mod instances;
pub mod resolve;
pub mod binding;
pub mod pat;
pub mod path;
pub mod plan;
pub mod call;
pub mod steps;
pub mod expr;
pub mod item;
pub mod traits;
pub mod members;
pub mod wiring;
pub mod reactor;
pub mod mono;
pub mod imports;
pub mod typing;
pub mod sharing;
pub mod fitting;
pub mod check;

verus! {

impl State {
    /// The tables that belong together have an entry for each other's entries.
    pub open spec fn in_step(self) -> bool {
        &&& self.fn_owner.len() == self.program.fns.len()
        &&& self.signatures.len() == self.program.fns.len()
        &&& self.param_modes.len() == self.program.fns.len()
        &&& self.mode_pinned.len() == self.program.fns.len()
        &&& self.fn_bounds.len() == self.program.fns.len()
        &&& self.struct_owner.len() == self.program.structs.len()
        &&& self.enum_owner.len() == self.program.enums.len()
        &&& self.reactor_owner.len() == self.program.reactors.len()
    }

    /// No more instances than the ceiling lets through, and no more work than instances.
    pub open spec fn bounded(self) -> bool {
        &&& self.fill_queue.len() <= self.struct_instances.len() + self.enum_instances.len()
        &&& self.struct_instances.len() + self.enum_instances.len() <= INSTANCE_CEILING
        &&& self.worklist.len() <= self.fn_instances.len()
        &&& self.fn_instances.len() <= INSTANCE_CEILING
    }

    /// No trait is implemented twice for one type.
    pub open spec fn coherent(self) -> bool {
        forall|i: int, j: int|
            0 <= i < j < self.impls.len() ==> !same_pairing(
                #[trigger] self.impls[i],
                #[trigger] self.impls[j],
            )
    }

    /// Nothing implements `Eq`.
    pub open spec fn eq_is_free(self) -> bool {
        forall|i: int| 0 <= i < self.impls.len() ==> (#[trigger] self.impls[i]).trait_id.0 != EQ
    }

    /// Every impl lives in the file of its trait or in the file of its type.
    pub open spec fn at_home(self) -> bool {
        forall|i: int| 0 <= i < self.impls.len() ==> lives_at_home(self, #[trigger] self.impls[i])
    }
}

pub open spec fn same_pairing(a: model::ImplDef, b: model::ImplDef) -> bool {
    a.trait_id == b.trait_id && a.receiver == b.receiver
}

/// `usize::MAX` is no file.
pub open spec fn lives_at_home(s: State, def: model::ImplDef) -> bool {
    def.module < usize::MAX ==> def.module == s.trait_module(def.trait_id) || receiver_home(
        s,
        def.receiver,
    ) == Some(Some(def.module))
}

/// From one state to another no report was taken back, no declaration was dropped or given to
/// another file, and the tables are still in step.
#[verifier::opaque]
pub open spec fn widened(a: State, b: State) -> bool {
    &&& b.vocabulary == a.vocabulary
    &&& b.errors.len() == a.errors.len()
    &&& forall|i: int|
        0 <= i < a.errors.len() ==> a.errors[i].is_prefix_of(#[trigger] b.errors[i])
    &&& a.program.structs.len() <= b.program.structs.len()
    &&& a.program.enums.len() <= b.program.enums.len()
    &&& a.program.fns.len() <= b.program.fns.len()
    &&& a.program.reactors.len() <= b.program.reactors.len()
    &&& a.struct_owner.is_prefix_of(b.struct_owner)
    &&& a.enum_owner.is_prefix_of(b.enum_owner)
    &&& a.fn_owner.is_prefix_of(b.fn_owner)
    &&& a.reactor_owner.is_prefix_of(b.reactor_owner)
    &&& a.struct_instances.is_prefix_of(b.struct_instances)
    &&& a.enum_instances.is_prefix_of(b.enum_instances)
    &&& a.fn_instances.is_prefix_of(b.fn_instances)
    &&& forall|i: int|
        0 <= i < a.program.structs.len() ==> (#[trigger] b.program.structs[i]).type_params
            == a.program.structs[i].type_params
    &&& forall|i: int|
        0 <= i < a.program.enums.len() ==> (#[trigger] b.program.enums[i]).type_params
            == a.program.enums[i].type_params
    &&& forall|i: int|
        0 <= i < a.program.fns.len() ==> (#[trigger] b.program.fns[i]).type_params
            == a.program.fns[i].type_params
    &&& a.traits.len() <= b.traits.len()
    &&& forall|i: int|
        0 <= i < a.traits.len() ==> (#[trigger] b.traits[i]).module == a.traits[i].module
    &&& a.in_step() ==> b.in_step()
}

/// The same, and no impl was registered.
#[verifier::opaque]
pub open spec fn wandered(a: State, b: State) -> bool {
    widened(a, b) && a.impls == b.impls && (a.bounded() ==> b.bounded())
}

/// The same, and the file being looked at is the same.
#[verifier::opaque]
pub open spec fn grew(a: State, b: State) -> bool {
    widened(a, b) && a.impls == b.impls && a.current == b.current && (a.bounded() ==> b.bounded())
}

/// The same where impls may have been registered: each where it may live, and none twice.
#[verifier::opaque]
pub open spec fn grew_impls(a: State, b: State) -> bool {
    &&& widened(a, b)
    &&& a.impls.is_prefix_of(b.impls)
    &&& a.coherent() ==> b.coherent()
    &&& a.at_home() ==> b.at_home()
    &&& a.eq_is_free() ==> b.eq_is_free()
    &&& a.bounded() ==> b.bounded()
}

pub proof fn widened_transitive(a: State, b: State, c: State)
    requires
        widened(a, b),
        widened(b, c),
    ensures
        widened(a, c),
{
    reveal(widened);
    assert forall|i: int| 0 <= i < a.errors.len() implies a.errors[i].is_prefix_of(
        #[trigger] c.errors[i],
    ) by {
        assert(a.errors[i].is_prefix_of(b.errors[i]));
        assert(b.errors[i].is_prefix_of(c.errors[i]));
        assert(a.errors[i] =~= c.errors[i].take(a.errors[i].len() as int));
    }
    assert forall|i: int| 0 <= i < a.traits.len() implies (#[trigger] c.traits[i]).module
        == a.traits[i].module by {
        assert(b.traits[i].module == a.traits[i].module);
    }
    assert forall|i: int| 0 <= i < a.program.structs.len() implies (
    #[trigger] c.program.structs[i]).type_params == a.program.structs[i].type_params by {
        assert(b.program.structs[i].type_params == a.program.structs[i].type_params);
    }
    assert forall|i: int| 0 <= i < a.program.enums.len() implies (
    #[trigger] c.program.enums[i]).type_params == a.program.enums[i].type_params by {
        assert(b.program.enums[i].type_params == a.program.enums[i].type_params);
    }
    assert forall|i: int| 0 <= i < a.program.fns.len() implies (
    #[trigger] c.program.fns[i]).type_params == a.program.fns[i].type_params by {
        assert(b.program.fns[i].type_params == a.program.fns[i].type_params);
    }
    assert(a.struct_instances =~= c.struct_instances.take(a.struct_instances.len() as int));
    assert(a.enum_instances =~= c.enum_instances.take(a.enum_instances.len() as int));
    assert(a.fn_instances =~= c.fn_instances.take(a.fn_instances.len() as int));
    assert(a.struct_owner =~= c.struct_owner.take(a.struct_owner.len() as int));
    assert(a.enum_owner =~= c.enum_owner.take(a.enum_owner.len() as int));
    assert(a.fn_owner =~= c.fn_owner.take(a.fn_owner.len() as int));
    assert(a.reactor_owner =~= c.reactor_owner.take(a.reactor_owner.len() as int));
}

pub broadcast proof fn grew_reflexive(a: State)
    ensures
        #[trigger] grew(a, a),
{
    reveal(grew);
    reveal(widened);
}

pub broadcast proof fn grew_transitive(a: State, b: State, c: State)
    requires
        #[trigger] grew(a, b),
        #[trigger] grew(b, c),
    ensures
        grew(a, c),
{
    reveal(grew);
    widened_transitive(a, b, c);
}

pub broadcast proof fn wandered_transitive(a: State, b: State, c: State)
    requires
        #[trigger] wandered(a, b),
        #[trigger] wandered(b, c),
    ensures
        wandered(a, c),
{
    reveal(wandered);
    widened_transitive(a, b, c);
}

pub broadcast proof fn grew_is_wandered(a: State, b: State)
    requires
        #[trigger] grew(a, b),
    ensures
        wandered(a, b),
        a.current == b.current,
{
    reveal(grew);
    reveal(wandered);
}

/// Back where it started.
pub broadcast proof fn wandered_back(a: State, b: State)
    requires
        #[trigger] wandered(a, b),
        a.current == b.current,
    ensures
        grew(a, b),
{
    reveal(grew);
    reveal(wandered);
}

pub broadcast proof fn with_current_wanders(s: State, v: usize)
    ensures
        wandered(s, (#[trigger] s.with_current(v))),
        s.with_current(v).current == v,
{
    reveal(State::with_current);
    reveal(wandered);
    reveal(widened);
}

pub broadcast proof fn grew_impls_transitive(a: State, b: State, c: State)
    requires
        #[trigger] grew_impls(a, b),
        #[trigger] grew_impls(b, c),
    ensures
        grew_impls(a, c),
{
    reveal(grew_impls);
    widened_transitive(a, b, c);
    assert(a.impls =~= c.impls.take(a.impls.len() as int));
}

/// What a file owns stays where it is, so an impl that lived at home still does.
pub proof fn homes_stay(a: State, b: State, def: model::ImplDef)
    requires
        widened(a, b),
        lives_at_home(a, def),
    ensures
        lives_at_home(b, def),
{
    reveal(widened);
    reveal(State::trait_module);
    reveal(receiver_home);
    reveal(State::struct_module);
    reveal(State::enum_module);
    if def.module < usize::MAX {
        if def.module == a.trait_module(def.trait_id) {
            assert(b.traits[def.trait_id.0 as int].module
                == a.traits[def.trait_id.0 as int].module);
        } else {
            match def.receiver {
                model::Ty::Struct(id) => {
                    assert(a.struct_owner[id.0 as int] == b.struct_owner[id.0 as int]);
                },
                model::Ty::Enum(id) => {
                    assert(a.enum_owner[id.0 as int] == b.enum_owner[id.0 as int]);
                },
                _ => {},
            }
        }
    }
}

/// Where no impl was registered, none was registered wrongly.
pub broadcast proof fn wandered_is_grew_impls(a: State, b: State)
    requires
        #[trigger] wandered(a, b),
    ensures
        grew_impls(a, b),
{
    reveal(wandered);
    reveal(grew_impls);
    if a.at_home() {
        assert forall|i: int| 0 <= i < b.impls.len() implies lives_at_home(
            b,
            #[trigger] b.impls[i],
        ) by {
            homes_stay(a, b, a.impls[i]);
        }
    }
    assert(a.impls =~= b.impls.take(a.impls.len() as int));
}

/// One more impl, for a pairing that had none, where it may live.
pub proof fn registering_keeps(s: State, def: model::ImplDef)
    requires
        forall|i: int| 0 <= i < s.impls.len() ==> !same_pairing(#[trigger] s.impls[i], def),
        lives_at_home(s, def),
        def.trait_id.0 != EQ,
    ensures
        grew_impls(s, s.with_impl(def)),
{
    reveal(State::with_impl);
    reveal(grew_impls);
    reveal(widened);
    let b = s.with_impl(def);
    assert(widened(s, b));
    if s.at_home() {
        assert forall|i: int| 0 <= i < b.impls.len() implies lives_at_home(
            b,
            #[trigger] b.impls[i],
        ) by {
            if i < s.impls.len() {
                homes_stay(s, b, s.impls[i]);
            } else {
                homes_stay(s, b, def);
            }
        }
    }
}

} // verus!
