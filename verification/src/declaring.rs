//! What declaring a reactor makes of its members: each is there, as what it was declared to be, and
//! the slots that hold values point at the nodes that own them.

use vstd::prelude::*;
use crate::ast;
use crate::hir::NodeKind;
use crate::members::{
    declare_input, declare_mailbox, declare_member, declare_members, declare_on, declare_param,
    declare_params, declare_signal, declare_state, Members, Names,
};
use crate::model;
use crate::state::{builtin_variant, State};

verus! {

/// The slot a node keeps its value in. A signal keeps none.
pub open spec fn slot_of(n: model::Node) -> Option<usize> {
    match n.kind {
        NodeKind::Param { slot, .. } => Some(slot),
        NodeKind::State { slot, .. } => Some(slot),
        NodeKind::Signal { .. } => None,
    }
}

/// Slots and nodes name each other: a slot belongs to the node that keeps its value in it, and to
/// no other.
pub open spec fn slots_point_back(m: Members) -> bool {
    &&& forall|j: int|
        0 <= j < m.slots.len() ==> (#[trigger] m.slots[j]).0 < m.nodes.len() && slot_of(
            m.nodes[m.slots[j].0 as int],
        ) == Some(j as usize)
    &&& forall|i: int|
        0 <= i < m.nodes.len() && slot_of(#[trigger] m.nodes[i]) is Some ==> slot_of(m.nodes[i])->0
            < m.slots.len() && m.slots[slot_of(m.nodes[i])->0 as int].0 == i
    &&& m.slots.len() <= m.nodes.len()
}

proof fn a_member_keeps_slots(
    s: State,
    m: Members,
    n: Names,
    position: usize,
    member: ast::Member,
)
    requires
        slots_point_back(m),
        declare_member(s, m, n, position, member).1.nodes.len() <= u32::MAX,
    ensures
        slots_point_back(declare_member(s, m, n, position, member).1),
        m.nodes.len() <= declare_member(s, m, n, position, member).1.nodes.len(),
{
    reveal(declare_member);
    reveal(declare_input);
    reveal(declare_state);
    reveal(declare_signal);
    reveal(declare_on);
    reveal(declare_mailbox);
    reveal(Members::taking);
    reveal(Members::with_cell);
    reveal(Members::with_signal);
    reveal(Members::with_input);
    reveal(Members::failing);
    let r = declare_member(s, m, n, position, member).1;
    assert forall|j: int| 0 <= j < r.slots.len() implies (#[trigger] r.slots[j]).0 < r.nodes.len()
        && slot_of(r.nodes[r.slots[j].0 as int]) == Some(j as usize) by {
        if j < m.slots.len() {
            assert(r.slots[j] == m.slots[j]);
            assert(r.nodes[m.slots[j].0 as int] == m.nodes[m.slots[j].0 as int]);
        }
    }
    assert forall|i: int| 0 <= i < r.nodes.len() && slot_of(
        #[trigger] r.nodes[i],
    ) is Some implies slot_of(r.nodes[i])->0 < r.slots.len() && r.slots[slot_of(
        r.nodes[i],
    )->0 as int].0 == i by {
        if i < m.nodes.len() {
            assert(r.nodes[i] == m.nodes[i]);
            assert(r.slots[slot_of(m.nodes[i])->0 as int] == m.slots[slot_of(
                m.nodes[i],
            )->0 as int]);
        }
    }
}

proof fn a_param_keeps_slots(s: State, m: Members, n: Names, index: usize, param: ast::Param)
    requires
        slots_point_back(m),
        declare_param(s, m, n, index, param).1.nodes.len() <= u32::MAX,
    ensures
        slots_point_back(declare_param(s, m, n, index, param).1),
        m.nodes.len() <= declare_param(s, m, n, index, param).1.nodes.len(),
{
    reveal(declare_param);
    reveal(Members::taking);
    reveal(Members::with_param);
    let r = declare_param(s, m, n, index, param).1;
    assert forall|j: int| 0 <= j < r.slots.len() implies (#[trigger] r.slots[j]).0 < r.nodes.len()
        && slot_of(r.nodes[r.slots[j].0 as int]) == Some(j as usize) by {
        if j < m.slots.len() {
            assert(r.slots[j] == m.slots[j]);
            assert(r.nodes[m.slots[j].0 as int] == m.nodes[m.slots[j].0 as int]);
        }
    }
    assert forall|i: int| 0 <= i < r.nodes.len() && slot_of(
        #[trigger] r.nodes[i],
    ) is Some implies slot_of(r.nodes[i])->0 < r.slots.len() && r.slots[slot_of(
        r.nodes[i],
    )->0 as int].0 == i by {
        if i < m.nodes.len() {
            assert(r.nodes[i] == m.nodes[i]);
            assert(r.slots[slot_of(m.nodes[i])->0 as int] == m.slots[slot_of(
                m.nodes[i],
            )->0 as int]);
        }
    }
}

proof fn params_keep_slots(s: State, m: Members, n: Names, params: Seq<ast::Param>)
    requires
        slots_point_back(m),
        declare_params(s, m, n, params).1.nodes.len() <= u32::MAX,
    ensures
        slots_point_back(declare_params(s, m, n, params).1),
        m.nodes.len() <= declare_params(s, m, n, params).1.nodes.len(),
    decreases params.len(),
{
    if params.len() > 0 {
        let init = params.drop_last();
        let r = declare_params(s, m, n, init);
        let at = (params.len() - 1) as usize;
        assert(r.1.nodes.len() <= declare_param(r.0, r.1, n, at, params.last()).1.nodes.len()) by {
            reveal(declare_param);
            reveal(Members::taking);
            reveal(Members::with_param);
        }
        params_keep_slots(s, m, n, init);
        a_param_keeps_slots(r.0, r.1, n, at, params.last());
    }
}

proof fn members_keep_slots(s: State, m: Members, n: Names, members: Seq<ast::Member>)
    requires
        slots_point_back(m),
        declare_members(s, m, n, members).1.nodes.len() <= u32::MAX,
    ensures
        slots_point_back(declare_members(s, m, n, members).1),
        m.nodes.len() <= declare_members(s, m, n, members).1.nodes.len(),
    decreases members.len(),
{
    if members.len() > 0 {
        let init = members.drop_last();
        let r = declare_members(s, m, n, init);
        let at = (members.len() - 1) as usize;
        assert(
            r.1.nodes.len() <= declare_member(r.0, r.1, n, at, members.last()).1.nodes.len()
        ) by {
            reveal(declare_member);
            reveal(declare_input);
            reveal(declare_state);
            reveal(declare_signal);
            reveal(declare_on);
            reveal(declare_mailbox);
            reveal(Members::taking);
            reveal(Members::with_cell);
            reveal(Members::with_signal);
            reveal(Members::with_input);
            reveal(Members::failing);
        }
        members_keep_slots(s, m, n, init);
        a_member_keeps_slots(r.0, r.1, n, at, members.last());
    }
}

/// In every reactor that is declared, slots and nodes name each other.
pub proof fn slots_belong_to_their_nodes(
    s: State,
    n: Names,
    params: Seq<ast::Param>,
    members: Seq<ast::Member>,
)
    requires
        ({
            let p = declare_params(s, Members::nothing(), n, params);
            declare_members(p.0, p.1, n, members).1.nodes.len() <= u32::MAX
        }),
    ensures
        ({
            let p = declare_params(s, Members::nothing(), n, params);
            slots_point_back(declare_members(p.0, p.1, n, members).1)
        }),
{
    let p = declare_params(s, Members::nothing(), n, params);
    nodes_only_grow(p.0, p.1, n, members);
    params_keep_slots(s, Members::nothing(), n, params);
    members_keep_slots(p.0, p.1, n, members);
}

proof fn nodes_only_grow(s: State, m: Members, n: Names, members: Seq<ast::Member>)
    ensures
        m.nodes.len() <= declare_members(s, m, n, members).1.nodes.len(),
    decreases members.len(),
{
    if members.len() > 0 {
        nodes_only_grow(s, m, n, members.drop_last());
        reveal(declare_member);
        reveal(declare_input);
        reveal(declare_state);
        reveal(declare_signal);
        reveal(declare_on);
        reveal(declare_mailbox);
        reveal(Members::taking);
        reveal(Members::with_cell);
        reveal(Members::with_signal);
        reveal(Members::with_input);
        reveal(Members::failing);
    }
}

// ---------------------------------------------------------------- each member is there

/// The name a member declares, if it declares one: an `on` does with a queue of its own.
pub open spec fn declares(member: ast::Member) -> Option<Seq<char>> {
    match member.kind {
        ast::MemberKind::Input { name, .. } => Some(name.name@),
        ast::MemberKind::State { name, .. } => Some(name.name@),
        ast::MemberKind::Signal { name, .. } => Some(name.name@),
        ast::MemberKind::On { input, queue, .. } => if queue is Some {
            Some(input.name@)
        } else {
            None
        },
    }
}

/// A node made of a declaration.
pub open spec fn made_of(node: model::Node, member: ast::Member) -> bool {
    &&& declares(member) == Some(node.name)
    &&& node.span == member.span
    &&& match member.kind {
        ast::MemberKind::State { .. } => node.kind is State && !node.exported,
        ast::MemberKind::Signal { exported, .. } => node.kind is Signal && node.exported
            == exported,
        _ => false,
    }
}

/// A member stands among what was declared, as what it was declared to be.
pub open spec fn is_there(m: Members, member: ast::Member) -> bool {
    match member.kind {
        ast::MemberKind::State { .. } => exists|i: int|
            0 <= i < m.nodes.len() && made_of(#[trigger] m.nodes[i], member),
        ast::MemberKind::Signal { .. } => exists|i: int|
            0 <= i < m.nodes.len() && made_of(#[trigger] m.nodes[i], member),
        _ => declares(member) is Some ==> exists|i: int|
            0 <= i < m.inputs.len() && (#[trigger] m.inputs[i]).name == declares(member)->0,
    }
}

/// What one more member leaves of the others.
proof fn one_more_member(s: State, m: Members, n: Names, position: usize, member: ast::Member)
    ensures
        ({
            let r = declare_member(s, m, n, position, member).1;
            &&& declares(member) is Some && !builtin_variant(declares(member)->0)
                && !m.taken.dom().contains(declares(member)->0) ==> is_there(r, member)
            &&& m.nodes.len() <= r.nodes.len()
            &&& m.inputs.len() <= r.inputs.len()
            &&& forall|i: int| 0 <= i < m.nodes.len() ==> #[trigger] r.nodes[i] == m.nodes[i]
            &&& forall|i: int| 0 <= i < m.inputs.len() ==> #[trigger] r.inputs[i] == m.inputs[i]
            &&& forall|x: Seq<char>| #[trigger]
                r.taken.dom().contains(x) ==> m.taken.dom().contains(x) || declares(member) == Some(
                    x,
                )
        }),
{
    reveal(declare_member);
    reveal(declare_input);
    reveal(declare_state);
    reveal(declare_signal);
    reveal(declare_on);
    reveal(declare_mailbox);
    reveal(Members::taking);
    reveal(Members::with_cell);
    reveal(Members::with_signal);
    reveal(Members::with_input);
    reveal(Members::failing);
    reveal(Members::refused);
    let r = declare_member(s, m, n, position, member).1;
    if declares(member) is Some && !builtin_variant(declares(member)->0)
        && !m.taken.dom().contains(declares(member)->0) {
        match member.kind {
            ast::MemberKind::State { .. } => {
                assert(made_of(r.nodes[m.nodes.len() as int], member));
            },
            ast::MemberKind::Signal { .. } => {
                assert(made_of(r.nodes[m.nodes.len() as int], member));
            },
            _ => {
                assert(r.inputs[m.inputs.len() as int].name == declares(member)->0);
            },
        }
    }
}

/// Every member that declares a name no other declared before it is there: a state cell as a state
/// cell, a signal as a signal that is exported if it says so, an input as an input.
pub proof fn declared_members_are_there(
    s: State,
    m: Members,
    n: Names,
    members: Seq<ast::Member>,
    k: int,
)
    requires
        0 <= k < members.len(),
        declares(members[k]) is Some,
        !builtin_variant(declares(members[k])->0),
        !m.taken.dom().contains(declares(members[k])->0),
        forall|j: int| 0 <= j < k ==> declares(#[trigger] members[j]) != declares(members[k]),
    ensures
        is_there(declare_members(s, m, n, members).1, members[k]),
    decreases members.len(),
{
    let init = members.drop_last();
    let r = declare_members(s, m, n, init);
    let at = (members.len() - 1) as usize;
    one_more_member(r.0, r.1, n, at, members.last());
    let end = declare_members(s, m, n, members).1;
    if k < init.len() {
        assert(init[k] == members[k]);
        assert forall|j: int| 0 <= j < k implies declares(#[trigger] init[j]) != declares(
            init[k],
        ) by {
            assert(init[j] == members[j]);
        }
        declared_members_are_there(s, m, n, init, k);
        let member = members[k];
        match member.kind {
            ast::MemberKind::State { .. } => {
                let i = choose|i: int|
                    0 <= i < r.1.nodes.len() && made_of(#[trigger] r.1.nodes[i], member);
                assert(made_of(end.nodes[i], member));
            },
            ast::MemberKind::Signal { .. } => {
                let i = choose|i: int|
                    0 <= i < r.1.nodes.len() && made_of(#[trigger] r.1.nodes[i], member);
                assert(made_of(end.nodes[i], member));
            },
            _ => {
                let i = choose|i: int|
                    0 <= i < r.1.inputs.len() && (#[trigger] r.1.inputs[i]).name == declares(
                        member,
                    )->0;
                assert(end.inputs[i].name == declares(member)->0);
            },
        }
    } else {
        names_come_from_members(s, m, n, init, declares(members[k])->0);
        if r.1.taken.dom().contains(declares(members[k])->0) {
            let j = choose|j: int|
                0 <= j < init.len() && declares(#[trigger] init[j]) == declares(members[k]);
            assert(init[j] == members[j]);
        }
    }
}

proof fn names_come_from_members(
    s: State,
    m: Members,
    n: Names,
    members: Seq<ast::Member>,
    x: Seq<char>,
)
    ensures
        declare_members(s, m, n, members).1.taken.dom().contains(x) ==> m.taken.dom().contains(x)
            || exists|j: int| 0 <= j < members.len() && declares(#[trigger] members[j]) == Some(x),
    decreases members.len(),
{
    if members.len() > 0 {
        let init = members.drop_last();
        let r = declare_members(s, m, n, init);
        names_come_from_members(s, m, n, init, x);
        one_more_member(r.0, r.1, n, (members.len() - 1) as usize, members.last());
        assert(members[members.len() - 1] == members.last());
        if exists|j: int| 0 <= j < init.len() && declares(#[trigger] init[j]) == Some(x) {
            let j = choose|j: int| 0 <= j < init.len() && declares(#[trigger] init[j]) == Some(x);
            assert(declares(members[j]) == Some(x));
        }
    }
}

} // verus!
