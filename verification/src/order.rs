//! An order of a graph's nodes in which what a node depends on comes before it, and the part of
//! that order one change can touch.

use vstd::prelude::*;
use crate::graph::{down, edges, everything, flag, flags, is_cycle, is_path, lists, reaches};

verus! {

/// Where an ordering stands.
pub struct Placing {
    pub order: Seq<usize>,
    pub placed: Seq<bool>,
    /// The nodes waiting for what they depend on, outermost first, each with how many of its
    /// dependencies were looked at.
    pub stack: Seq<(usize, nat)>,
}

pub open spec fn on_stack(stack: Seq<(usize, nat)>, x: usize) -> bool {
    exists|i: int| 0 <= i < stack.len() && (#[trigger] stack[i]).0 == x
}

/// One look at one dependency of the innermost waiting node, or its placing.
pub open spec fn step(g: Seq<Seq<usize>>, s: Placing) -> Placing {
    let (node, next) = s.stack.last();
    let out = edges(g, node as int);
    if next < out.len() {
        let stack = s.stack.drop_last().push((node, next + 1));
        let dep = out[next as int];
        if dep < s.placed.len() && !s.placed[dep as int] && !on_stack(stack, dep) {
            Placing { stack: stack.push((dep, 0)), ..s }
        } else {
            Placing { stack, ..s }
        }
    } else if node < s.placed.len() && !s.placed[node as int] {
        Placing {
            order: s.order.push(node),
            placed: s.placed.update(node as int, true),
            stack: s.stack.drop_last(),
        }
    } else {
        Placing { stack: s.stack.drop_last(), ..s }
    }
}

/// Which nodes are placed or waiting.
pub open spec fn met(s: Placing) -> Seq<bool> {
    Seq::new(
        s.placed.len(),
        |i: int| s.placed[i] || (i <= usize::MAX && on_stack(s.stack, i as usize)),
    )
}

/// How many looks the stack still owes.
pub open spec fn pending(g: Seq<Seq<usize>>, stack: Seq<(usize, nat)>) -> nat
    decreases stack.len(),
{
    if stack.len() == 0 {
        0
    } else {
        let (node, next) = stack.last();
        let left = edges(g, node as int).len() - next;
        pending(g, stack.drop_last()) + 1 + if left > 0 {
            left as nat
        } else {
            0nat
        }
    }
}

proof fn down_shrinks(a: Seq<bool>, b: Seq<bool>)
    requires
        a.len() == b.len(),
        forall|i: int| 0 <= i < a.len() && #[trigger] a[i] ==> b[i],
    ensures
        down(b) <= down(a),
        (exists|i: int| 0 <= i < a.len() && !(#[trigger] a[i]) && b[i]) ==> down(b) < down(a),
    decreases a.len(),
{
    if a.len() > 0 {
        let (x, y) = (a.drop_last(), b.drop_last());
        assert forall|i: int| 0 <= i < x.len() && #[trigger] x[i] implies y[i] by {
            assert(a[i]);
        }
        down_shrinks(x, y);
        if exists|i: int| 0 <= i < a.len() && !(#[trigger] a[i]) && b[i] {
            let i = choose|i: int| 0 <= i < a.len() && !(#[trigger] a[i]) && b[i];
            if i < x.len() {
                assert(!x[i] && y[i]);
            }
        }
    }
}

/// Every look brings the ordering closer to its end.
pub proof fn stepping_ends(g: Seq<Seq<usize>>, s: Placing)
    requires
        s.stack.len() > 0,
    ensures
        ({
            let after = step(g, s);
            ||| down(met(after)) < down(met(s))
            ||| down(met(after)) == down(met(s)) && pending(g, after.stack) < pending(g, s.stack)
        }),
{
    let (node, next) = s.stack.last();
    let out = edges(g, node as int);
    let after = step(g, s);
    let moved = s.stack.drop_last().push((node, next + 1));
    assert(moved.drop_last() =~= s.stack.drop_last());
    assert forall|i: int| 0 <= i < s.placed.len() && #[trigger] met(s)[i] implies met(after)[i] by {
        if !s.placed[i] {
            let x = i as usize;
            let k = choose|k: int| 0 <= k < s.stack.len() && (#[trigger] s.stack[k]).0 == x;
            if next < out.len() {
                if k < s.stack.len() - 1 {
                    assert(after.stack[k].0 == x);
                } else {
                    assert(after.stack[s.stack.len() - 1].0 == x);
                }
            } else if k < s.stack.len() - 1 {
                assert(after.stack[k].0 == x);
            } else {
                assert(x == node);
            }
        }
    }
    down_shrinks(met(s), met(after));
    if next < out.len() {
        let dep = out[next as int];
        if dep < s.placed.len() && !s.placed[dep as int] && !on_stack(moved, dep) {
            assert(after.stack[after.stack.len() - 1].0 == dep);
            assert(met(after)[dep as int]);
            assert(!met(s)[dep as int]) by {
                if on_stack(s.stack, dep) {
                    let k = choose|k: int|
                        0 <= k < s.stack.len() && (#[trigger] s.stack[k]).0 == dep;
                    if k < s.stack.len() - 1 {
                        assert(moved[k].0 == dep);
                    } else {
                        assert(moved[moved.len() - 1].0 == dep);
                    }
                }
            }
        }
    }
}

/// The ordering from where it stands until nothing waits.
pub open spec fn settle(g: Seq<Seq<usize>>, s: Placing) -> Placing
    decreases down(met(s)), pending(g, s.stack),
{
    if s.stack.len() == 0 {
        s
    } else {
        proof {
            stepping_ends(g, s);
        }
        settle(g, step(g, s))
    }
}

/// Each node from `k` on that is not placed yet is placed, after what it depends on.
pub open spec fn place_from(g: Seq<Seq<usize>>, s: Placing, k: int) -> Seq<usize>
    decreases g.len() - k,
{
    if k >= g.len() || k > usize::MAX {
        s.order
    } else if flag(s.placed, k as usize) {
        place_from(g, s, k + 1)
    } else {
        place_from(g, settle(g, Placing { stack: s.stack.push((k as usize, 0)), ..s }), k + 1)
    }
}

pub open spec fn unplaced(n: nat) -> Placing {
    Placing { order: seq![], placed: Seq::new(n, |i: int| false), stack: seq![] }
}

/// The nodes of a graph, in source order but each after what it depends on.
pub open spec fn sorted(g: Seq<Seq<usize>>) -> Seq<usize> {
    place_from(g, unplaced(g.len()), 0)
}

spec fn counted(s: Seq<(usize, usize)>) -> Seq<(usize, nat)> {
    Seq::new(s.len(), |i: int| (s[i].0, s[i].1 as nat))
}

fn is_on_stack(stack: &Vec<(usize, usize)>, x: usize) -> (r: bool)
    ensures
        r == on_stack(counted(stack@), x),
{
    for i in 0..stack.len()
        invariant
            forall|j: int| 0 <= j < i ==> (#[trigger] counted(stack@)[j]).0 != x,
    {
        if stack[i].0 == x {
            assert(counted(stack@)[i as int].0 == x);
            return true;
        }
    }
    false
}

/// Nodes in dependency order, source order breaking ties. Deterministic, and total even where the
/// dependencies close a cycle, so that one mistake does not hide another.
pub fn topological(deps: &Vec<Vec<usize>>) -> (order: Vec<usize>)
    ensures
        order@ == sorted(lists(deps@)),
{
    let ghost g = lists(deps@);
    let mut order: Vec<usize> = Vec::new();
    let mut placed = flags(deps.len());
    let mut stack: Vec<(usize, usize)> = Vec::new();
    assert(counted(stack@) =~= seq![]);
    for start in 0..deps.len()
        invariant
            g == lists(deps@),
            placed.len() == deps.len(),
            stack.len() == 0,
            place_from(
                g,
                Placing { order: order@, placed: placed@, stack: counted(stack@) },
                start as int,
            ) == sorted(g),
    {
        if !placed[start] {
            let ghost before = Placing {
                order: order@,
                placed: placed@,
                stack: counted(stack@),
            };
            stack.push((start, 0));
            assert(counted(stack@) =~= before.stack.push((start, 0)));
            let ghost first = Placing { stack: before.stack.push((start, 0)), ..before };
            while stack.len() > 0
                invariant
                    g == lists(deps@),
                    placed.len() == deps.len(),
                    settle(
                        g,
                        Placing { order: order@, placed: placed@, stack: counted(stack@) },
                    ) == settle(g, first),
                decreases
                        down(
                            met(
                                Placing { order: order@, placed: placed@, stack: counted(stack@) },
                            ),
                        ),
                        pending(g, counted(stack@)),
            {
                let ghost s = Placing {
                    order: order@,
                    placed: placed@,
                    stack: counted(stack@),
                };
                proof {
                    stepping_ends(g, s);
                }
                let top: usize = stack.len() - 1;
                let (node, next) = stack[top];
                assert(s.stack.last() == (node, next as nat));
                let count: usize = if node < deps.len() {
                    deps[node].len()
                } else {
                    0
                };
                if next < count {
                    stack.set(top, (node, next + 1));
                    assert(counted(stack@) =~= s.stack.drop_last().push(
                        (node, next as nat + 1),
                    ));
                    let dep: usize = deps[node][next];
                    if dep < placed.len() && !placed[dep] && !is_on_stack(&stack, dep) {
                        let ghost moved = counted(stack@);
                        stack.push((dep, 0));
                        assert(counted(stack@) =~= moved.push((dep, 0)));
                    }
                } else {
                    stack.pop();
                    assert(counted(stack@) =~= s.stack.drop_last());
                    if node < placed.len() && !placed[node] {
                        placed.set(node, true);
                        order.push(node);
                    }
                }
                assert((Placing { order: order@, placed: placed@, stack: counted(stack@) })
                    == step(g, s));
            }
            assert(counted(stack@) =~= seq![]);
        }
    }
    order
}

// ---------------------------------------------------------------- what always holds

/// Each listed node stands after everything it depends on.
pub open spec fn respects(g: Seq<Seq<usize>>, order: Seq<usize>) -> bool {
    forall|k: int, y: usize|
        0 <= k < order.len() && #[trigger] edges(g, order[k] as int).contains(y) && y < g.len()
            ==> order.take(k).contains(y)
}

pub open spec fn acyclic(g: Seq<Seq<usize>>) -> bool {
    forall|c: Seq<usize>| !(#[trigger] is_cycle(g, everything(g.len()), c))
}

/// Every node is listed exactly once, and nothing else is.
pub open spec fn lists_all(g: Seq<Seq<usize>>, order: Seq<usize>) -> bool {
    &&& forall|i: int| 0 <= i < order.len() ==> #[trigger] order[i] < g.len()
    &&& forall|i: int, j: int|
        0 <= i < j < order.len() ==> #[trigger] order[i] != #[trigger] order[j]
    &&& forall|x: usize| x < g.len() ==> #[trigger] order.contains(x)
}

spec fn sane(g: Seq<Seq<usize>>, s: Placing) -> bool {
    &&& s.placed.len() == g.len()
    &&& forall|i: int| 0 <= i < s.order.len() ==> #[trigger] s.order[i] < g.len()
    &&& forall|i: int, j: int|
        0 <= i < j < s.order.len() ==> #[trigger] s.order[i] != #[trigger] s.order[j]
    &&& forall|x: usize| #[trigger] flag(s.placed, x) <==> s.order.contains(x)
    &&& forall|i: int|
        0 <= i < s.stack.len() ==> (#[trigger] s.stack[i]).0 < g.len() && !flag(
            s.placed,
            s.stack[i].0,
        ) && s.stack[i].1 <= g[s.stack[i].0 as int].len()
    &&& forall|i: int, j: int|
        0 <= i < j < s.stack.len() ==> (#[trigger] s.stack[i]).0 != (#[trigger] s.stack[j]).0
    &&& forall|i: int|
        0 <= i < s.stack.len() - 1 ==> {
            &&& (#[trigger] s.stack[i]).1 > 0
            &&& g[s.stack[i].0 as int][s.stack[i].1 - 1] == s.stack[i + 1].0
        }
    &&& acyclic(g) ==> respects(g, s.order)
    &&& acyclic(g) ==> forall|i: int, j: int|
        0 <= i < s.stack.len() && 0 <= j < s.stack[i].1 && (#[trigger] g[s.stack[i].0 as int][j])
            < g.len() ==> {
            ||| flag(s.placed, g[s.stack[i].0 as int][j])
            ||| i < s.stack.len() - 1 && j == s.stack[i].1 - 1
        }
}

/// A waiting node that is a dependency of the innermost one closes a cycle.
proof fn waiting_closes(g: Seq<Seq<usize>>, s: Placing, k: int)
    requires
        sane(g, s),
        0 <= k < s.stack.len(),
        edges(g, s.stack.last().0 as int).contains(s.stack[k].0),
    ensures
        !acyclic(g),
{
    let all = everything(g.len());
    let top = s.stack.len() - 1;
    let c = Seq::new(
        (s.stack.len() - k + 1) as nat,
        |i: int|
            if k + i <= top {
                s.stack[k + i].0
            } else {
                s.stack[k].0
            },
    );
    assert forall|i: int| 0 <= i < c.len() - 1 implies #[trigger] edges(g, c[i] as int).contains(
        c[i + 1],
    ) && flag(all, c[i + 1]) by {
        assert(s.stack[k].0 < g.len());
        if k + i < top {
            assert(s.stack[k + i].1 > 0);
            assert(g[s.stack[k + i].0 as int][s.stack[k + i].1 - 1] == s.stack[k + i + 1].0);
            assert(s.stack[k + i + 1].0 < g.len());
        }
    }
    assert(is_path(g, all, c));
    assert(is_cycle(g, all, c));
}

proof fn stepping_keeps_sane(g: Seq<Seq<usize>>, s: Placing)
    requires
        sane(g, s),
        s.stack.len() > 0,
    ensures
        sane(g, step(g, s)),
{
    let (node, next) = s.stack.last();
    let top = s.stack.len() - 1;
    let out = edges(g, node as int);
    let after = step(g, s);
    assert(s.stack[top] == (node, next));
    if next < out.len() {
        let moved = s.stack.drop_last().push((node, next + 1));
        let dep = out[next as int];
        let fresh = dep < s.placed.len() && !s.placed[dep as int] && !on_stack(moved, dep);
        assert forall|i: int| 0 <= i < after.stack.len() implies (#[trigger] after.stack[i]).0
            < g.len() && !flag(s.placed, after.stack[i].0) && after.stack[i].1
            <= g[after.stack[i].0 as int].len() by {
            if i <= top {
                assert(s.stack[i].0 < g.len());
                assert(after.stack[i].0 == s.stack[i].0);
            }
        }
        assert forall|i: int, j: int| 0 <= i < j < after.stack.len() implies (
        #[trigger] after.stack[i]).0 != (#[trigger] after.stack[j]).0 by {
            if j <= top {
                assert(s.stack[i].0 != s.stack[j].0);
            } else {
                assert(moved[i].0 == after.stack[i].0);
            }
        }
        assert forall|i: int| 0 <= i < after.stack.len() - 1 implies (#[trigger] after.stack[i]).1
            > 0 && g[after.stack[i].0 as int][after.stack[i].1 - 1] == after.stack[i + 1].0 by {
            if i < top {
                assert(s.stack[i].1 > 0);
            }
        }
        if acyclic(g) {
            assert forall|i: int, j: int|
                0 <= i < after.stack.len() && 0 <= j < after.stack[i].1 && (
                #[trigger] g[after.stack[i].0 as int][j]) < g.len() implies flag(
                s.placed,
                g[after.stack[i].0 as int][j],
            ) || (i < after.stack.len() - 1 && j == after.stack[i].1 - 1) by {
                if i < top {
                    assert(after.stack[i] == s.stack[i]);
                    assert(g[s.stack[i].0 as int][j] < g.len());
                } else if i == top {
                    assert(after.stack[i].0 == node);
                    if j < next {
                        assert(g[s.stack[i].0 as int][j] < g.len());
                    } else if !fresh && !flag(s.placed, dep) {
                        assert(on_stack(moved, dep));
                        let k = choose|k: int|
                            0 <= k < moved.len() && (#[trigger] moved[k]).0 == dep;
                        assert(s.stack[k].0 == dep);
                        waiting_closes(g, s, k);
                    }
                }
            }
        }
    } else {
        assert(!flag(s.placed, node));
        assert forall|x: usize| #[trigger] flag(after.placed, x) <==> after.order.contains(x) by {
            if x == node {
                assert(after.order[after.order.len() - 1] == x);
            } else {
                assert(flag(after.placed, x) == flag(s.placed, x));
                if s.order.contains(x) {
                    let i = choose|i: int| 0 <= i < s.order.len() && s.order[i] == x;
                    assert(after.order[i] == x);
                }
                if after.order.contains(x) {
                    let i = choose|i: int| 0 <= i < after.order.len() && after.order[i] == x;
                    assert(s.order[i] == x);
                }
            }
        }
        assert forall|i: int, j: int| 0 <= i < j < after.order.len() implies #[trigger] after.order[
        i] != #[trigger] after.order[j] by {
            if j < s.order.len() {
                assert(s.order[i] != s.order[j]);
            } else {
                assert(s.order.contains(s.order[i]));
                assert(flag(s.placed, s.order[i]));
            }
        }
        assert forall|i: int| 0 <= i < after.order.len() implies #[trigger] after.order[i]
            < g.len() by {
            if i < s.order.len() {
                assert(s.order[i] < g.len());
            }
        }
        assert forall|i: int| 0 <= i < after.stack.len() implies (#[trigger] after.stack[i]).0
            < g.len() && !flag(after.placed, after.stack[i].0) && after.stack[i].1
            <= g[after.stack[i].0 as int].len() by {
            assert(s.stack[i].0 != s.stack[top].0);
        }
        assert forall|i: int, j: int| 0 <= i < j < after.stack.len() implies (
        #[trigger] after.stack[i]).0 != (#[trigger] after.stack[j]).0 by {
            assert(s.stack[i].0 != s.stack[j].0);
        }
        assert forall|i: int| 0 <= i < after.stack.len() - 1 implies (#[trigger] after.stack[i]).1
            > 0 && g[after.stack[i].0 as int][after.stack[i].1 - 1] == after.stack[i + 1].0 by {
            assert(s.stack[i].1 > 0);
        }
        if acyclic(g) {
            assert forall|k: int, y: usize|
                0 <= k < after.order.len() && #[trigger] edges(
                    g,
                    after.order[k] as int,
                ).contains(y) && y < g.len() implies after.order.take(k).contains(y) by {
                assert(after.order.take(k) =~= s.order.take(k));
                if k < s.order.len() {
                    assert(edges(g, s.order[k] as int).contains(y));
                } else {
                    let j = choose|j: int| 0 <= j < out.len() && out[j] == y;
                    assert(g[s.stack[top].0 as int][j] < g.len());
                    assert(flag(s.placed, y));
                    assert(s.order.take(k) =~= s.order);
                }
            }
            assert forall|i: int, j: int|
                0 <= i < after.stack.len() && 0 <= j < after.stack[i].1 && (
                #[trigger] g[after.stack[i].0 as int][j]) < g.len() implies flag(
                after.placed,
                g[after.stack[i].0 as int][j],
            ) || (i < after.stack.len() - 1 && j == after.stack[i].1 - 1) by {
                let y = g[after.stack[i].0 as int][j];
                assert(after.stack[i] == s.stack[i]);
                assert(g[s.stack[i].0 as int][j] < g.len());
                if flag(s.placed, y) {
                    assert(flag(after.placed, y));
                } else {
                    assert(j == s.stack[i].1 - 1);
                    if i == after.stack.len() - 1 {
                        assert(s.stack[i].1 > 0);
                        assert(y == s.stack[i + 1].0);
                        assert(y == node);
                    }
                }
            }
        }
    }
}

proof fn settling_keeps_sane(g: Seq<Seq<usize>>, s: Placing)
    requires
        sane(g, s),
    ensures
        sane(g, settle(g, s)),
        settle(g, s).stack.len() == 0,
        forall|x: usize| #[trigger]
            flag(s.placed, x) || on_stack(s.stack, x) ==> flag(settle(g, s).placed, x),
    decreases down(met(s)), pending(g, s.stack),
{
    if s.stack.len() > 0 {
        stepping_ends(g, s);
        stepping_keeps_sane(g, s);
        let after = step(g, s);
        settling_keeps_sane(g, after);
        assert forall|x: usize| #[trigger]
            flag(s.placed, x) || on_stack(s.stack, x) implies flag(settle(g, s).placed, x) by {
            let (node, next) = s.stack.last();
            if on_stack(s.stack, x) {
                let k = choose|k: int| 0 <= k < s.stack.len() && (#[trigger] s.stack[k]).0 == x;
                if next < edges(g, node as int).len() {
                    assert(after.stack[k].0 == x);
                } else if k < s.stack.len() - 1 {
                    assert(after.stack[k].0 == x);
                } else {
                    assert(s.stack[k].0 < g.len());
                    assert(flag(after.placed, x));
                }
            } else {
                assert(flag(after.placed, x));
            }
            assert(flag(after.placed, x) || on_stack(after.stack, x));
        }
    }
}

proof fn placing_is_right(g: Seq<Seq<usize>>, s: Placing, k: int)
    requires
        sane(g, s),
        s.stack.len() == 0,
        0 <= k <= g.len() <= usize::MAX,
        forall|x: usize| x < k ==> #[trigger] flag(s.placed, x),
    ensures
        lists_all(g, place_from(g, s, k)),
        acyclic(g) ==> respects(g, place_from(g, s, k)),
    decreases g.len() - k,
{
    if k >= g.len() {
        assert forall|x: usize| x < g.len() implies #[trigger] s.order.contains(x) by {
            assert(flag(s.placed, x));
        }
    } else if flag(s.placed, k as usize) {
        placing_is_right(g, s, k + 1);
    } else {
        let first = Placing { stack: s.stack.push((k as usize, 0)), ..s };
        assert(first.stack[0].0 == k as usize);
        assert(sane(g, first));
        settling_keeps_sane(g, first);
        let end = settle(g, first);
        assert forall|x: usize| x < k + 1 implies #[trigger] flag(end.placed, x) by {
            if x == k {
                assert(first.stack[0].0 == x);
                assert(on_stack(first.stack, x));
            } else {
                assert(flag(first.placed, x));
            }
            assert(flag(first.placed, x) || on_stack(first.stack, x));
        }
        placing_is_right(g, end, k + 1);
    }
}

/// Every node is listed exactly once.
pub proof fn sorted_is_a_permutation(g: Seq<Seq<usize>>)
    requires
        g.len() <= usize::MAX,
    ensures
        lists_all(g, sorted(g)),
{
    let s = unplaced(g.len());
    assert(sane(g, s));
    placing_is_right(g, s, 0);
}

/// Where the dependencies close no cycle, every node stands after everything it depends on.
pub proof fn sorted_respects_dependencies(g: Seq<Seq<usize>>)
    requires
        g.len() <= usize::MAX,
        acyclic(g),
    ensures
        respects(g, sorted(g)),
{
    let s = unplaced(g.len());
    assert(sane(g, s));
    placing_is_right(g, s, 0);
}

// ---------------------------------------------------------------- what a change can touch

/// Whether a node is one of those written, or depends on one, however indirectly.
pub open spec fn touched(deps: Seq<Seq<usize>>, writes: Seq<usize>, node: usize) -> bool {
    exists|w: usize|
        writes.contains(w) && #[trigger] reaches(deps, everything(deps.len()), node, w)
}

/// The nodes of an order that a change to `writes` can touch, in that order.
pub open spec fn plan_of(
    deps: Seq<Seq<usize>>,
    order: Seq<usize>,
    writes: Seq<usize>,
) -> Seq<usize>
    decreases order.len(),
{
    if order.len() == 0 {
        seq![]
    } else {
        let rest = plan_of(deps, order.drop_last(), writes);
        if touched(deps, writes, order.last()) {
            rest.push(order.last())
        } else {
            rest
        }
    }
}

/// Everything known to be touched is, and everything that depends on something settled is known.
spec fn spreading(
    deps: Seq<Seq<usize>>,
    writes: Seq<usize>,
    reached: Seq<bool>,
    stack: Seq<usize>,
) -> bool {
    &&& reached.len() == deps.len()
    &&& forall|x: usize| #[trigger] flag(reached, x) ==> touched(deps, writes, x)
    &&& forall|w: usize| #[trigger] writes.contains(w) && w < deps.len() ==> flag(reached, w)
    &&& forall|i: int| 0 <= i < stack.len() ==> flag(reached, #[trigger] stack[i])
    &&& forall|x: usize, y: usize|
        x < deps.len() && #[trigger] edges(deps, x as int).contains(y) && flag(reached, y)
            && !stack.contains(y) ==> flag(reached, x)
}

pub proof fn touched_extends(deps: Seq<Seq<usize>>, writes: Seq<usize>, x: usize, y: usize)
    requires
        x < deps.len(),
        y < deps.len(),
        edges(deps, x as int).contains(y),
        touched(deps, writes, y),
    ensures
        touched(deps, writes, x),
{
    let all = everything(deps.len());
    let w = choose|w: usize| writes.contains(w) && #[trigger] reaches(deps, all, y, w);
    let p = choose|p: Seq<usize>| #[trigger] is_path(deps, all, p) && p[0] == y && p.last() == w;
    let q = seq![x] + p;
    assert forall|i: int| 0 <= i < q.len() - 1 implies #[trigger] edges(
        deps,
        q[i] as int,
    ).contains(q[i + 1]) && flag(all, q[i + 1]) by {
        if i > 0 {
            assert(edges(deps, p[i - 1] as int).contains(p[i - 1 + 1]));
        }
    }
    assert(is_path(deps, all, q));
    assert(q.last() == w);
    assert(reaches(deps, all, x, w));
}

proof fn spread_is_complete(
    deps: Seq<Seq<usize>>,
    writes: Seq<usize>,
    reached: Seq<bool>,
    p: Seq<usize>,
    i: int,
)
    requires
        spreading(deps, writes, reached, seq![]),
        is_path(deps, everything(deps.len()), p),
        p[0] < deps.len(),
        writes.contains(p.last()),
        0 <= i < p.len(),
    ensures
        flag(reached, p[i]),
    decreases p.len() - i,
{
    let all = everything(deps.len());
    let empty = Seq::<usize>::empty();
    assert(p[i] < deps.len()) by {
        if i > 0 {
            assert(edges(deps, p[i - 1] as int).contains(p[i - 1 + 1]));
            assert(flag(all, p[i]));
        }
    }
    if i < p.len() - 1 {
        spread_is_complete(deps, writes, reached, p, i + 1);
        assert(edges(deps, p[i] as int).contains(p[i + 1]));
        assert(!empty.contains(p[i + 1]));
    }
}

/// The dependents of each node: the dependency edges, the other way round.
fn reversed(deps: &Vec<Vec<usize>>) -> (r: Vec<Vec<usize>>)
    ensures
        r.len() == deps.len(),
        forall|x: usize, y: usize|
            y < deps.len() ==> (#[trigger] r@[y as int]@.contains(x) <==> x < deps.len() && edges(
                lists(deps@),
                x as int,
            ).contains(y)),
{
    let ghost g = lists(deps@);
    let n: usize = deps.len();
    let mut r: Vec<Vec<usize>> = Vec::new();
    for i in 0..n
        invariant
            r.len() == i,
            forall|j: int| 0 <= j < i ==> (#[trigger] r@[j])@.len() == 0,
    {
        r.push(Vec::new());
    }
    for node in 0..n
        invariant
            n == deps.len(),
            r.len() == n,
            g == lists(deps@),
            forall|x: usize, y: usize|
                y < n ==> (#[trigger] r@[y as int]@.contains(x) <==> x < node && edges(
                    g,
                    x as int,
                ).contains(y)),
    {
        let ghost out = g[node as int];
        let count: usize = deps[node].len();
        for k in 0..count
            invariant
                n == deps.len(),
                r.len() == n,
                node < n,
                g == lists(deps@),
                out == g[node as int],
                count == out.len(),
                forall|x: usize, y: usize|
                    y < n ==> (#[trigger] r@[y as int]@.contains(x) <==> (x < node && edges(
                        g,
                        x as int,
                    ).contains(y)) || (x == node && out.take(k as int).contains(y))),
        {
            let dep: usize = deps[node][k];
            let ghost before = r@;
            let ghost (some, more) = (out.take(k as int), out.take(k + 1));
            if dep < n {
                r[dep].push(node);
            }
            proof {
                assert(more =~= some.push(dep));
                assert forall|x: usize, y: usize|
                    y < n implies (#[trigger] r@[y as int]@.contains(x) <==> (x < node && edges(
                    g,
                    x as int,
                ).contains(y)) || (x == node && more.contains(y))) by {
                    assert(before[y as int]@.contains(x) <==> (x < node && edges(
                        g,
                        x as int,
                    ).contains(y)) || (x == node && some.contains(y)));
                    if some.contains(y) {
                        let m = choose|m: int| 0 <= m < some.len() && some[m] == y;
                        assert(more[m] == y);
                    }
                    if more.contains(y) {
                        let m = choose|m: int| 0 <= m < more.len() && more[m] == y;
                        if m < some.len() {
                            assert(some[m] == y);
                        }
                    }
                    assert(more[k as int] == dep);
                    if y == dep {
                        let list = before[y as int]@;
                        assert(r@[y as int]@ =~= list.push(node));
                        assert(r@[y as int]@[list.len() as int] == node);
                        if list.contains(x) {
                            let m = choose|m: int| 0 <= m < list.len() && list[m] == x;
                            assert(r@[y as int]@[m] == x);
                        }
                        if r@[y as int]@.contains(x) && x != node {
                            let m = choose|m: int|
                                0 <= m < r@[y as int]@.len() && r@[y as int]@[m] == x;
                            assert(list[m] == x);
                        }
                    }
                }
            }
        }
        assert(out.take(count as int) =~= out);
    }
    r
}

/// Whether a node is among the first `k` written.
spec fn written(writes: Seq<usize>, k: int, x: usize) -> bool {
    exists|m: int| 0 <= m < k && #[trigger] writes[m] == x
}

/// Exactly the first `k` written nodes are reached, and all of them wait.
spec fn seeded(writes: Seq<usize>, k: int, reached: Seq<bool>, stack: Seq<usize>) -> bool {
    &&& forall|x: usize| #[trigger]
        flag(reached, x) <==> x < reached.len() && written(writes, k, x)
    &&& forall|x: usize| #[trigger] flag(reached, x) ==> stack.contains(x)
    &&& forall|i: int| 0 <= i < stack.len() ==> flag(reached, #[trigger] stack[i])
}

/// Which nodes a change to `writes` can touch.
fn spread(deps: &Vec<Vec<usize>>, writes: &Vec<usize>) -> (reached: Vec<bool>)
    ensures
        reached.len() == deps.len(),
        forall|x: usize|
            x < deps.len() ==> (#[trigger] flag(reached@, x) <==> touched(
                lists(deps@),
                writes@,
                x,
            )),
{
    let ghost g = lists(deps@);
    let ghost all = everything(g.len());
    let dependents = reversed(deps);
    let mut reached = flags(deps.len());
    let mut stack: Vec<usize> = Vec::new();
    for i in 0..writes.len()
        invariant
            reached.len() == deps.len(),
            seeded(writes@, i as int, reached@, stack@),
    {
        let node: usize = writes[i];
        let ghost (reached0, stack0) = (reached@, stack@);
        if node < reached.len() {
            reached.set(node, true);
            stack.push(node);
        }
        proof {
            assert forall|x: usize| #[trigger] flag(reached@, x) <==> x < reached@.len()
                && written(writes@, i + 1, x) by {
                assert(flag(reached0, x) <==> x < reached0.len() && written(writes@, i as int, x));
                if written(writes@, i as int, x) {
                    let m = choose|m: int| 0 <= m < i && #[trigger] writes@[m] == x;
                    assert(writes@[m] == x);
                }
                if written(writes@, i + 1, x) {
                    let m = choose|m: int| 0 <= m < i + 1 && #[trigger] writes@[m] == x;
                    if m < i {
                        assert(writes@[m] == x);
                    }
                }
                assert(writes@[i as int] == node);
            }
            assert forall|x: usize| #[trigger] flag(reached@, x) implies stack@.contains(x) by {
                if x == node {
                    assert(stack@[stack0.len() as int] == x);
                } else {
                    assert(flag(reached0, x));
                    let m = choose|m: int| 0 <= m < stack0.len() && stack0[m] == x;
                    assert(stack@[m] == x);
                }
            }
            assert forall|k: int| 0 <= k < stack@.len() implies flag(
                reached@,
                #[trigger] stack@[k],
            ) by {
                if k < stack0.len() {
                    assert(flag(reached0, stack0[k]));
                }
            }
        }
    }
    proof {
        assert forall|x: usize| #[trigger] flag(reached@, x) implies touched(g, writes@, x) by {
            assert(written(writes@, writes.len() as int, x));
            let m = choose|m: int| 0 <= m < writes.len() && #[trigger] writes@[m] == x;
            assert(writes@.contains(x));
            let p = seq![x];
            assert(is_path(g, all, p));
            assert(p.last() == x);
            assert(reaches(g, all, x, x));
        }
        assert forall|w: usize| #[trigger] writes@.contains(w) && w < g.len() implies flag(
            reached@,
            w,
        ) by {
            let m = choose|m: int| 0 <= m < writes.len() && writes@[m] == w;
            assert(written(writes@, writes.len() as int, w));
        }
        assert(spreading(g, writes@, reached@, stack@));
    }
    while stack.len() > 0
        invariant
            g == lists(deps@),
            reached.len() == deps.len(),
            dependents.len() == deps.len(),
            forall|x: usize, y: usize|
                y < deps.len() ==> (#[trigger] dependents@[y as int]@.contains(x) <==> x
                    < deps.len() && edges(g, x as int).contains(y)),
            spreading(g, writes@, reached@, stack@),
        decreases down(reached@) + stack.len(),
    {
        let ghost (reached0, stack0) = (reached@, stack@);
        let top: usize = stack.len() - 1;
        let node: usize = stack[top];
        assert(flag(reached@, stack@[top as int]));
        stack.pop();
        let count: usize = dependents[node].len();
        let ghost out = dependents@[node as int]@;
        let ghost base = stack@;
        proof {
            assert forall|x: usize| #[trigger] stack0.contains(x) implies x == node
                || base.contains(x) by {
                let m = choose|m: int| 0 <= m < stack0.len() && stack0[m] == x;
                if m < base.len() {
                    assert(base[m] == x);
                }
            }
        }
        for k in 0..count
            invariant
                g == lists(deps@),
                reached.len() == deps.len(),
                dependents.len() == deps.len(),
                node < deps.len(),
                count == out.len(),
                out == dependents@[node as int]@,
                forall|x: usize| #[trigger]
                    out.contains(x) ==> x < deps.len() && edges(g, x as int).contains(node),
                flag(reached@, node),
                touched(g, writes@, node),
                down(reached@) + stack.len() <= down(reached0) + base.len(),
                forall|x: usize| #[trigger] flag(reached@, x) ==> touched(g, writes@, x),
                forall|x: usize| flag(reached0, x) ==> #[trigger] flag(reached@, x),
                forall|x: usize| #[trigger]
                    flag(reached@, x) && !flag(reached0, x) ==> stack@.contains(x),
                forall|x: usize| #[trigger] base.contains(x) ==> stack@.contains(x),
                forall|i: int| 0 <= i < stack.len() ==> flag(reached@, #[trigger] stack@[i]),
                forall|j: int| 0 <= j < k ==> flag(reached@, #[trigger] out[j]),
        {
            let next: usize = dependents[node][k];
            assert(out[k as int] == next);
            assert(out.contains(next));
            let ghost (before, held) = (reached@, stack@);
            if next < reached.len() && !reached[next] {
                reached.set(next, true);
                stack.push(next);
                proof {
                    crate::graph::raising_counts(before, next as int);
                    touched_extends(g, writes@, next, node);
                    assert(stack@[held.len() as int] == next);
                    assert forall|x: usize| #[trigger]
                        flag(reached@, x) && !flag(reached0, x) implies stack@.contains(x) by {
                        if x != next {
                            assert(flag(before, x));
                            let m = choose|m: int| 0 <= m < held.len() && held[m] == x;
                            assert(stack@[m] == x);
                        }
                    }
                    assert forall|x: usize| #[trigger] base.contains(x) implies stack@.contains(
                        x,
                    ) by {
                        let m = choose|m: int| 0 <= m < held.len() && held[m] == x;
                        assert(stack@[m] == x);
                    }
                    assert forall|x: usize| #[trigger] flag(reached@, x) implies touched(
                        g,
                        writes@,
                        x,
                    ) by {
                        if x != next {
                            assert(flag(before, x));
                        }
                    }
                    assert forall|x: usize| flag(reached0, x) implies #[trigger] flag(
                        reached@,
                        x,
                    ) by {
                        assert(flag(before, x));
                    }
                    assert forall|i: int| 0 <= i < stack@.len() implies flag(
                        reached@,
                        #[trigger] stack@[i],
                    ) by {
                        if i < held.len() {
                            assert(flag(before, held[i]));
                        }
                    }
                    assert forall|j: int| 0 <= j < k + 1 implies flag(
                        reached@,
                        #[trigger] out[j],
                    ) by {
                        if j < k {
                            assert(flag(before, out[j]));
                        }
                    }
                }
            }
        }
        proof {
            assert forall|x: usize, y: usize|
                x < g.len() && #[trigger] edges(g, x as int).contains(y) && flag(reached@, y)
                    && !stack@.contains(y) implies flag(reached@, x) by {
                assert(flag(reached0, y));
                if y == node {
                    assert(dependents@[y as int]@.contains(x));
                    let m = choose|m: int| 0 <= m < out.len() && out[m] == x;
                    assert(flag(reached@, out[m]));
                } else {
                    assert(!base.contains(y));
                    assert(!stack0.contains(y));
                    assert(flag(reached0, x));
                }
            }
            assert forall|w: usize| #[trigger] writes@.contains(w) && w < g.len() implies flag(
                reached@,
                w,
            ) by {
                assert(flag(reached0, w));
            }
        }
    }
    proof {
        assert(stack@ =~= seq![]);
        assert forall|x: usize| x < deps.len() implies (#[trigger] flag(reached@, x) <==> touched(
            g,
            writes@,
            x,
        )) by {
            if touched(g, writes@, x) {
                let w = choose|w: usize| writes@.contains(w) && #[trigger] reaches(g, all, x, w);
                let p = choose|p: Seq<usize>| #[trigger]
                    is_path(g, all, p) && p[0] == x && p.last() == w;
                spread_is_complete(g, writes@, reached@, p, 0);
            }
        }
    }
    reached
}

/// What a message has to touch: the part of `order` reachable from what its handler writes.
pub fn plan(deps: &Vec<Vec<usize>>, order: &Vec<usize>, writes: &Vec<usize>) -> (r: Vec<usize>)
    requires
        forall|i: int| 0 <= i < order.len() ==> #[trigger] order@[i] < deps.len(),
    ensures
        r@ == plan_of(lists(deps@), order@, writes@),
{
    let reached = spread(deps, writes);
    let mut r: Vec<usize> = Vec::new();
    for i in 0..order.len()
        invariant
            forall|i: int| 0 <= i < order.len() ==> #[trigger] order@[i] < deps.len(),
            reached.len() == deps.len(),
            forall|x: usize|
                x < deps.len() ==> (#[trigger] flag(reached@, x) <==> touched(
                    lists(deps@),
                    writes@,
                    x,
                )),
            r@ == plan_of(lists(deps@), order@.take(i as int), writes@),
    {
        let node: usize = order[i];
        assert(order@[i as int] < deps.len());
        assert(flag(reached@, node) <==> touched(lists(deps@), writes@, node));
        if reached[node] {
            r.push(node);
        }
        assert(order@.take(i + 1).drop_last() =~= order@.take(i as int));
    }
    assert(order@.take(order.len() as int) =~= order@);
    r
}

/// A plan lists exactly the nodes the change can touch, and lists them as the order does.
pub proof fn plan_is_the_touched_part(
    deps: Seq<Seq<usize>>,
    order: Seq<usize>,
    writes: Seq<usize>,
    x: usize,
)
    ensures
        plan_of(deps, order, writes).contains(x) <==> order.contains(x) && touched(
            deps,
            writes,
            x,
        ),
    decreases order.len(),
{
    if order.len() > 0 {
        let init = order.drop_last();
        plan_is_the_touched_part(deps, init, writes, x);
        let rest = plan_of(deps, init, writes);
        let whole = plan_of(deps, order, writes);
        if rest.contains(x) {
            let m = choose|m: int| 0 <= m < rest.len() && rest[m] == x;
            assert(whole[m] == x);
        }
        if whole.contains(x) {
            let m = choose|m: int| 0 <= m < whole.len() && whole[m] == x;
            if m < rest.len() {
                assert(rest[m] == x);
            }
        }
        if init.contains(x) {
            let m = choose|m: int| 0 <= m < init.len() && init[m] == x;
            assert(order[m] == x);
        }
        if order.contains(x) {
            let m = choose|m: int| 0 <= m < order.len() && order[m] == x;
            if m < init.len() {
                assert(init[m] == x);
            } else if touched(deps, writes, x) {
                assert(whole[whole.len() - 1] == x);
            }
        }
        assert(order[order.len() - 1] == order.last());
    }
}

} // verus!
