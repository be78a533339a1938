//! Searches over dependency and call graphs: what is nearest, what closes a cycle, and what order
//! respects every dependency.
//!
//! A graph is one list of successors per node. A successor that is no node of the graph leads
//! nowhere.

use vstd::prelude::*;

verus! {

/// The successors of one node.
pub open spec fn edges(g: Seq<Seq<usize>>, node: int) -> Seq<usize> {
    if 0 <= node < g.len() {
        g[node]
    } else {
        seq![]
    }
}

/// The contents of a list of successor lists.
pub open spec fn lists(s: Seq<Vec<usize>>) -> Seq<Seq<usize>> {
    Seq::new(s.len(), |i: int| s[i]@)
}

pub open spec fn set_flag(flags: Seq<bool>, i: usize) -> Seq<bool> {
    if i < flags.len() {
        flags.update(i as int, true)
    } else {
        flags
    }
}

pub open spec fn flag(flags: Seq<bool>, i: usize) -> bool {
    i < flags.len() && flags[i as int]
}

/// How many flags are down.
pub open spec fn down(flags: Seq<bool>) -> nat
    decreases flags.len(),
{
    if flags.len() == 0 {
        0
    } else {
        down(flags.drop_last()) + if flags.last() {
            0nat
        } else {
            1nat
        }
    }
}

pub proof fn raising_counts(flags: Seq<bool>, i: int)
    requires
        0 <= i < flags.len(),
        !flags[i],
    ensures
        down(flags.update(i, true)) + 1 == down(flags),
    decreases flags.len(),
{
    let after = flags.update(i, true);
    if i == flags.len() - 1 {
        assert(after.drop_last() =~= flags.drop_last());
    } else {
        assert(after.drop_last() =~= flags.drop_last().update(i, true));
        raising_counts(flags.drop_last(), i);
    }
}

pub fn flags(n: usize) -> (r: Vec<bool>)
    ensures
        r@ == Seq::new(n as nat, |i: int| false),
{
    let mut r: Vec<bool> = Vec::new();
    for i in 0..n
        invariant
            r@ == Seq::new(i as nat, |i: int| false),
    {
        r.push(false);
        assert(r@ =~= Seq::new((i + 1) as nat, |i: int| false));
    }
    r
}

// ---------------------------------------------------------------- paths

/// A walk along edges, through nodes that are let through.
pub open spec fn is_path(g: Seq<Seq<usize>>, active: Seq<bool>, p: Seq<usize>) -> bool {
    &&& p.len() > 0
    &&& forall|i: int|
        0 <= i < p.len() - 1 ==> #[trigger] edges(g, p[i] as int).contains(p[i + 1]) && flag(
            active,
            p[i + 1],
        )
}

pub open spec fn reaches(g: Seq<Seq<usize>>, active: Seq<bool>, from: usize, to: usize) -> bool {
    exists|p: Seq<usize>| #[trigger] is_path(g, active, p) && p[0] == from && p.last() == to
}

/// A walk that comes back to where it started.
pub open spec fn is_cycle(g: Seq<Seq<usize>>, active: Seq<bool>, c: Seq<usize>) -> bool {
    &&& is_path(g, active, c)
    &&& c.len() >= 2
    &&& c[0] == c.last()
}

/// Every node let through.
pub open spec fn everything(n: nat) -> Seq<bool> {
    Seq::new(n, |i: int| true)
}

// ---------------------------------------------------------------- the nearest hit

/// The nodes of `found` not seen yet join the queue, in order.
pub open spec fn discovered(
    found: Seq<usize>,
    seen: Seq<bool>,
    queue: Seq<usize>,
) -> (Seq<bool>, Seq<usize>)
    decreases found.len(),
{
    if found.len() == 0 {
        (seen, queue)
    } else {
        let (seen, queue) = discovered(found.drop_last(), seen, queue);
        if found.last() < seen.len() && !seen[found.last() as int] {
            (seen.update(found.last() as int, true), queue.push(found.last()))
        } else {
            (seen, queue)
        }
    }
}

/// A node leaves the unseen exactly when it joins the queue.
pub proof fn discovering_balances(found: Seq<usize>, seen: Seq<bool>, queue: Seq<usize>)
    ensures
        ({
            let (seen2, queue2) = discovered(found, seen, queue);
            down(seen2) + queue2.len() == down(seen) + queue.len()
        }),
    decreases found.len(),
{
    if found.len() > 0 {
        discovering_balances(found.drop_last(), seen, queue);
        let (seen1, queue1) = discovered(found.drop_last(), seen, queue);
        if found.last() < seen1.len() && !seen1[found.last() as int] {
            raising_counts(seen1, found.last() as int);
        }
    }
}

/// Breadth first from a queue: the first node of it that is hit, with the successors of those that
/// are not joining at the end.
pub open spec fn search(
    g: Seq<Seq<usize>>,
    hits: Seq<bool>,
    seen: Seq<bool>,
    queue: Seq<usize>,
) -> Option<usize>
    decreases down(seen) + queue.len(),
{
    if queue.len() == 0 {
        None
    } else if flag(hits, queue[0]) {
        Some(queue[0])
    } else {
        let (seen2, queue2) = discovered(edges(g, queue[0] as int), seen, queue.skip(1));
        proof {
            discovering_balances(edges(g, queue[0] as int), seen, queue.skip(1));
        }
        search(g, hits, seen2, queue2)
    }
}

/// The node nearest to `start` that is hit; among equally near ones, the one reached through the
/// earliest successors.
pub open spec fn nearest(g: Seq<Seq<usize>>, hits: Seq<bool>, start: usize) -> Option<usize> {
    search(
        g,
        hits,
        set_flag(Seq::new(g.len(), |i: int| false), start),
        seq![start],
    )
}

pub fn find_nearest(g: &Vec<Vec<usize>>, hits: &Vec<bool>, start: usize) -> (r: Option<usize>)
    ensures
        r == nearest(lists(g@), hits@, start),
{
    let ghost graph = lists(g@);
    let mut seen = flags(g.len());
    if start < seen.len() {
        seen.set(start, true);
    }
    let mut queue: Vec<usize> = Vec::new();
    queue.push(start);
    let mut head: usize = 0;
    assert(queue@.skip(0) =~= seq![start]);
    while head < queue.len()
        invariant
            graph == lists(g@),
            head <= queue.len(),
            search(graph, hits@, seen@, queue@.skip(head as int)) == nearest(
                graph,
                hits@,
                start,
            ),
        decreases down(seen@) + queue.len() - head,
    {
        let ghost waiting = queue@.skip(head as int);
        let node: usize = queue[head];
        assert(waiting[0] == node);
        if node < hits.len() && hits[node] {
            return Some(node);
        }
        head = head + 1;
        let ghost seen0 = seen@;
        assert(queue@.skip(head as int) =~= waiting.skip(1));
        proof {
            discovering_balances(edges(graph, node as int), seen0, waiting.skip(1));
        }
        if node < g.len() {
            let ghost all = graph[node as int];
            let n: usize = g[node].len();
            for k in 0..n
                invariant
                    graph == lists(g@),
                    n == all.len(),
                    node < g.len(),
                    all == graph[node as int],
                    head <= queue.len(),
                    (seen@, queue@.skip(head as int)) == discovered(
                        all.take(k as int),
                        seen0,
                        waiting.skip(1),
                    ),
            {
                let next: usize = g[node][k];
                let ghost before = queue@;
                if next < seen.len() && !seen[next] {
                    seen.set(next, true);
                    queue.push(next);
                    assert(queue@.skip(head as int) =~= before.skip(head as int).push(next));
                }
                assert(all.take(k + 1).drop_last() =~= all.take(k as int));
            }
            assert(all.take(all.len() as int) =~= all);
        }
    }
    assert(queue@.skip(head as int) =~= seq![]);
    None
}

proof fn path_extends(
    g: Seq<Seq<usize>>,
    active: Seq<bool>,
    from: usize,
    mid: usize,
    to: usize,
)
    requires
        reaches(g, active, from, mid),
        edges(g, mid as int).contains(to),
        flag(active, to),
    ensures
        reaches(g, active, from, to),
{
    let p = choose|p: Seq<usize>| #[trigger]
        is_path(g, active, p) && p[0] == from && p.last() == mid;
    let q = p.push(to);
    assert forall|i: int| 0 <= i < q.len() - 1 implies #[trigger] edges(g, q[i] as int).contains(
        q[i + 1],
    ) && flag(active, q[i + 1]) by {
        if i < p.len() - 1 {
            assert(edges(g, p[i] as int).contains(p[i + 1]));
        }
    }
    assert(is_path(g, active, q));
}

proof fn discovered_facts(found: Seq<usize>, seen: Seq<bool>, queue: Seq<usize>)
    ensures
        ({
            let (seen2, queue2) = discovered(found, seen, queue);
            &&& seen2.len() == seen.len()
            &&& queue.len() <= queue2.len()
            &&& forall|i: int| 0 <= i < queue.len() ==> #[trigger] queue2[i] == queue[i]
            &&& forall|x: usize| flag(seen, x) ==> #[trigger] flag(seen2, x)
            &&& forall|i: int|
                queue.len() <= i < queue2.len() ==> found.contains(#[trigger] queue2[i]) && !flag(
                    seen,
                    queue2[i],
                ) && flag(seen2, queue2[i])
            &&& forall|x: usize| #[trigger] found.contains(x) && x < seen.len() ==> flag(seen2, x)
            &&& forall|x: usize| #[trigger]
                flag(seen2, x) ==> flag(seen, x) || exists|i: int|
                    queue.len() <= i < queue2.len() && #[trigger] queue2[i] == x
        }),
    decreases found.len(),
{
    if found.len() > 0 {
        let init = found.drop_last();
        discovered_facts(init, seen, queue);
        let (seen1, queue1) = discovered(init, seen, queue);
        let (seen2, queue2) = discovered(found, seen, queue);
        let last = found.last();
        assert(found.contains(last)) by {
            assert(found[found.len() - 1] == last);
        }
        assert forall|x: usize| #[trigger] found.contains(x) implies x == last || init.contains(
            x,
        ) by {
            let k = choose|k: int| 0 <= k < found.len() && found[k] == x;
            if k < found.len() - 1 {
                assert(init[k] == x);
            }
        }
        assert forall|x: usize| #[trigger] init.contains(x) implies found.contains(x) by {
            let k = choose|k: int| 0 <= k < init.len() && init[k] == x;
            assert(found[k] == x);
        }
        assert forall|x: usize| #[trigger] flag(seen2, x) implies flag(seen, x) || exists|i: int|
            queue.len() <= i < queue2.len() && #[trigger] queue2[i] == x by {
            if !flag(seen, x) {
                if flag(seen1, x) {
                    let i = choose|i: int|
                        queue.len() <= i < queue1.len() && #[trigger] queue1[i] == x;
                    assert(queue2[i] == x);
                } else {
                    assert(x == last);
                    assert(queue2[queue2.len() - 1] == x);
                }
            }
        }
        assert forall|x: usize| flag(seen, x) implies #[trigger] flag(seen2, x) by {
            assert(flag(seen1, x));
        }
        assert forall|x: usize| #[trigger] found.contains(x) && x < seen.len() implies flag(
            seen2,
            x,
        ) by {
            if x != last {
                assert(init.contains(x));
                assert(flag(seen1, x));
            }
        }
        assert forall|i: int| 0 <= i < queue.len() implies #[trigger] queue2[i] == queue[i] by {
            assert(queue1[i] == queue[i]);
        }
        assert forall|i: int| queue.len() <= i < queue2.len() implies found.contains(
            #[trigger] queue2[i],
        ) && !flag(seen, queue2[i]) && flag(seen2, queue2[i]) by {
            if i < queue1.len() {
                assert(init.contains(queue1[i]));
            } else {
                assert(!flag(seen1, last));
            }
        }
    }
}

/// What the search keeps: everything seen is reachable, everything waiting has been seen, and what
/// was seen and is not waiting was looked at and passed on.
spec fn searching(
    g: Seq<Seq<usize>>,
    hits: Seq<bool>,
    start: usize,
    seen: Seq<bool>,
    queue: Seq<usize>,
) -> bool {
    let all = everything(g.len());
    &&& seen.len() == g.len()
    &&& forall|i: int|
        0 <= i < queue.len() ==> flag(seen, #[trigger] queue[i]) && reaches(
            g,
            all,
            start,
            queue[i],
        )
    &&& flag(seen, start)
    &&& forall|x: usize| #[trigger]
        flag(seen, x) && !queue.contains(x) ==> {
            &&& !flag(hits, x)
            &&& forall|y: usize| #[trigger]
                edges(g, x as int).contains(y) && y < g.len() ==> flag(seen, y)
        }
}

proof fn search_is_right(
    g: Seq<Seq<usize>>,
    hits: Seq<bool>,
    start: usize,
    seen: Seq<bool>,
    queue: Seq<usize>,
)
    requires
        searching(g, hits, start, seen, queue),
    ensures
        match search(g, hits, seen, queue) {
            Some(x) => flag(hits, x) && x < g.len() && reaches(g, everything(g.len()), start, x),
            None => forall|x: usize| #[trigger]
                reaches(g, everything(g.len()), start, x) ==> !flag(hits, x),
        },
    decreases down(seen) + queue.len(),
{
    let all = everything(g.len());
    if queue.len() == 0 {
        assert forall|x: usize| #[trigger] reaches(g, all, start, x) implies !flag(hits, x) by {
            let p = choose|p: Seq<usize>| #[trigger]
                is_path(g, all, p) && p[0] == start && p.last() == x;
            seen_along(g, hits, start, seen, p, p.len() - 1);
        }
    } else if flag(hits, queue[0]) {
        assert(flag(seen, queue[0]));
    } else {
        let node = queue[0];
        let found = edges(g, node as int);
        let rest = queue.skip(1);
        let (seen2, queue2) = discovered(found, seen, rest);
        discovering_balances(found, seen, rest);
        discovered_facts(found, seen, rest);
        assert forall|i: int| 0 <= i < queue2.len() implies flag(seen2, #[trigger] queue2[i])
            && reaches(g, all, start, queue2[i]) by {
            if i < rest.len() {
                assert(queue2[i] == queue[i + 1]);
                assert(flag(seen, queue[i + 1]));
            } else {
                assert(found.contains(queue2[i]));
                assert(reaches(g, all, start, queue[0]));
                path_extends(g, all, start, node, queue2[i]);
            }
        }
        assert forall|x: usize| #[trigger] flag(seen2, x) && !queue2.contains(x) implies !flag(
            hits,
            x,
        ) && forall|y: usize| #[trigger]
            edges(g, x as int).contains(y) && y < g.len() ==> flag(seen2, y) by {
            if flag(seen, x) {
                if queue.contains(x) {
                    let k = choose|k: int| 0 <= k < queue.len() && queue[k] == x;
                    if k > 0 {
                        assert(queue2[k - 1] == x);
                    }
                    assert(x == node);
                }
            } else {
                let i = choose|i: int|
                    rest.len() <= i < queue2.len() && #[trigger] queue2[i] == x;
                assert(queue2.contains(x));
            }
        }
        assert(searching(g, hits, start, seen2, queue2));
        search_is_right(g, hits, start, seen2, queue2);
    }
}

proof fn seen_along(
    g: Seq<Seq<usize>>,
    hits: Seq<bool>,
    start: usize,
    seen: Seq<bool>,
    p: Seq<usize>,
    i: int,
)
    requires
        searching(g, hits, start, seen, seq![]),
        is_path(g, everything(g.len()), p),
        p[0] == start,
        0 <= i < p.len(),
    ensures
        flag(seen, p[i]),
        !flag(hits, p[i]),
    decreases i,
{
    let empty = Seq::<usize>::empty();
    assert(!empty.contains(p[i]));
    if i > 0 {
        seen_along(g, hits, start, seen, p, i - 1);
        assert(!empty.contains(p[i - 1]));
        assert(edges(g, p[i - 1] as int).contains(p[i - 1 + 1]));
    }
}

/// The search finds a hit the start reaches, and finds one whenever there is one.
pub proof fn nearest_misses_nothing(g: Seq<Seq<usize>>, hits: Seq<bool>, start: usize)
    requires
        start < g.len(),
    ensures
        match nearest(g, hits, start) {
            Some(x) => flag(hits, x) && x < g.len() && reaches(g, everything(g.len()), start, x),
            None => forall|x: usize| #[trigger]
                reaches(g, everything(g.len()), start, x) ==> !flag(hits, x),
        },
{
    let none = Seq::new(g.len(), |i: int| false);
    let seen = set_flag(none, start);
    let queue = seq![start];
    let p = seq![start];
    assert(is_path(g, everything(g.len()), p));
    assert(p.last() == start);
    assert(reaches(g, everything(g.len()), start, start));
    assert forall|x: usize| #[trigger] flag(seen, x) && !queue.contains(x) implies false by {
        assert(queue[0] == start);
    }
    assert(searching(g, hits, start, seen, queue));
    search_is_right(g, hits, start, seen, queue);
}

/// A start that is itself hit is what is found.
pub proof fn nearest_counts_the_start(g: Seq<Seq<usize>>, hits: Seq<bool>, start: usize)
    requires
        flag(hits, start),
    ensures
        nearest(g, hits, start) == Some(start),
{
}

/// Whether `to` can be reached in at most `d` steps.
pub open spec fn within(g: Seq<Seq<usize>>, from: usize, to: usize, d: int) -> bool {
    exists|p: Seq<usize>| #[trigger]
        is_path(g, everything(g.len()), p) && p[0] == from && p.last() == to && p.len() <= d + 1
}

/// Whether some hit can be reached in at most `d` steps.
pub open spec fn hit_within(g: Seq<Seq<usize>>, hits: Seq<bool>, from: usize, d: int) -> bool {
    exists|y: usize| flag(hits, y) && #[trigger] within(g, from, y, d)
}

/// No hit can be reached in fewer steps than `x`.
pub open spec fn no_hit_nearer(
    g: Seq<Seq<usize>>,
    hits: Seq<bool>,
    from: usize,
    x: usize,
) -> bool {
    exists|d: int| #[trigger] within(g, from, x, d) && !hit_within(g, hits, from, d - 1)
}

proof fn within_steps(g: Seq<Seq<usize>>, from: usize, to: usize, d: int)
    requires
        within(g, from, to, d),
        from < g.len(),
    ensures
        to < g.len(),
        to == from || exists|mid: usize|
            within(g, from, mid, d - 1) && #[trigger] edges(g, mid as int).contains(to),
{
    let all = everything(g.len());
    let p = choose|p: Seq<usize>| #[trigger]
        is_path(g, all, p) && p[0] == from && p.last() == to && p.len() <= d + 1;
    if p.len() > 1 {
        let q = p.drop_last();
        let mid = q.last();
        assert forall|i: int| 0 <= i < q.len() - 1 implies #[trigger] edges(
            g,
            q[i] as int,
        ).contains(q[i + 1]) && flag(all, q[i + 1]) by {
            assert(edges(g, p[i] as int).contains(p[i + 1]));
        }
        assert(is_path(g, all, q));
        assert(within(g, from, mid, d - 1));
        assert(edges(g, p[p.len() - 2] as int).contains(p[p.len() - 2 + 1]));
        assert(edges(g, mid as int).contains(to));
    }
}

proof fn within_extends(g: Seq<Seq<usize>>, from: usize, mid: usize, to: usize, d: int)
    requires
        within(g, from, mid, d),
        edges(g, mid as int).contains(to),
        to < g.len(),
    ensures
        within(g, from, to, d + 1),
{
    let all = everything(g.len());
    let p = choose|p: Seq<usize>| #[trigger]
        is_path(g, all, p) && p[0] == from && p.last() == mid && p.len() <= d + 1;
    let q = p.push(to);
    assert forall|i: int| 0 <= i < q.len() - 1 implies #[trigger] edges(g, q[i] as int).contains(
        q[i + 1],
    ) && flag(all, q[i + 1]) by {
        if i < p.len() - 1 {
            assert(edges(g, p[i] as int).contains(p[i + 1]));
        }
    }
    assert(is_path(g, all, q));
}

proof fn within_grows(g: Seq<Seq<usize>>, from: usize, to: usize, d: int, e: int)
    requires
        within(g, from, to, d),
        d <= e,
    ensures
        within(g, from, to, e),
{
    let p = choose|p: Seq<usize>| #[trigger]
        is_path(g, everything(g.len()), p) && p[0] == from && p.last() == to && p.len() <= d + 1;
    assert(p.len() <= e + 1);
}

/// What the search keeps, level by level: the first `k` waiting are at distance `d`, the rest one
/// further, and everything nearer was looked at and passed on.
spec fn levelled(
    g: Seq<Seq<usize>>,
    start: usize,
    seen: Seq<bool>,
    queue: Seq<usize>,
    d: int,
    k: int,
) -> bool {
    &&& 0 <= d
    &&& 0 <= k <= queue.len()
    &&& forall|i: int| 0 <= i < k ==> within(g, start, #[trigger] queue[i], d)
    &&& forall|i: int|
        k <= i < queue.len() ==> within(g, start, #[trigger] queue[i], d + 1) && !within(
            g,
            start,
            queue[i],
            d,
        )
    &&& forall|x: usize| #[trigger] within(g, start, x, d) ==> flag(seen, x)
    &&& forall|x: usize| #[trigger] within(g, start, x, d - 1) ==> !queue.contains(x)
}

proof fn search_is_nearest(
    g: Seq<Seq<usize>>,
    hits: Seq<bool>,
    start: usize,
    seen: Seq<bool>,
    queue: Seq<usize>,
    d: int,
    k: int,
)
    requires
        start < g.len(),
        searching(g, hits, start, seen, queue),
        levelled(g, start, seen, queue, d, k),
        k > 0 || queue.len() == 0,
    ensures
        search(g, hits, seen, queue) is Some ==> no_hit_nearer(
            g,
            hits,
            start,
            search(g, hits, seen, queue)->0,
        ),
    decreases down(seen) + queue.len(),
{
    let all = everything(g.len());
    if queue.len() == 0 {
    } else if flag(hits, queue[0]) {
        assert(within(g, start, queue[0], d));
        if hit_within(g, hits, start, d - 1) {
            let y = choose|y: usize| flag(hits, y) && #[trigger] within(g, start, y, d - 1);
            within_grows(g, start, y, d - 1, d);
            assert(flag(seen, y));
            assert(!queue.contains(y));
        }
    } else {
        let node = queue[0];
        let found = edges(g, node as int);
        let rest = queue.skip(1);
        let (seen2, queue2) = discovered(found, seen, rest);
        discovering_balances(found, seen, rest);
        discovered_facts(found, seen, rest);
        // The search goes on as before.
        assert(searching(g, hits, start, seen2, queue2)) by {
            assert forall|i: int| 0 <= i < queue2.len() implies flag(seen2, #[trigger] queue2[i])
                && reaches(g, all, start, queue2[i]) by {
                if i < rest.len() {
                    assert(queue2[i] == queue[i + 1]);
                    assert(flag(seen, queue[i + 1]));
                } else {
                    assert(found.contains(queue2[i]));
                    assert(reaches(g, all, start, queue[0]));
                    path_extends(g, all, start, node, queue2[i]);
                }
            }
            assert forall|x: usize| #[trigger] flag(seen2, x) && !queue2.contains(
                x,
            ) implies !flag(hits, x) && forall|y: usize| #[trigger]
                edges(g, x as int).contains(y) && y < g.len() ==> flag(seen2, y) by {
                if flag(seen, x) {
                    if queue.contains(x) {
                        let j = choose|j: int| 0 <= j < queue.len() && queue[j] == x;
                        if j > 0 {
                            assert(queue2[j - 1] == x);
                        }
                        assert(x == node);
                    }
                } else {
                    let i = choose|i: int|
                        rest.len() <= i < queue2.len() && #[trigger] queue2[i] == x;
                    assert(queue2.contains(x));
                }
            }
        }
        assert(within(g, start, queue[0], d));
        let k1 = k - 1;
        assert(levelled(g, start, seen2, queue2, d, k1)) by {
            assert forall|i: int| 0 <= i < k1 implies within(g, start, #[trigger] queue2[i], d) by {
                assert(queue2[i] == queue[i + 1]);
            }
            assert forall|i: int| k1 <= i < queue2.len() implies within(
                g,
                start,
                #[trigger] queue2[i],
                d + 1,
            ) && !within(g, start, queue2[i], d) by {
                if i < rest.len() {
                    assert(queue2[i] == queue[i + 1]);
                } else {
                    assert(found.contains(queue2[i]));
                    within_extends(g, start, node, queue2[i], d);
                    assert(!flag(seen, queue2[i]));
                }
            }
            assert forall|x: usize| #[trigger] within(g, start, x, d) implies flag(seen2, x) by {
                assert(flag(seen, x));
            }
            assert forall|x: usize| #[trigger] within(g, start, x, d - 1) implies !queue2.contains(
                x,
            ) by {
                within_grows(g, start, x, d - 1, d);
                assert(!queue.contains(x));
                if queue2.contains(x) {
                    let i = choose|i: int| 0 <= i < queue2.len() && queue2[i] == x;
                    if i < rest.len() {
                        assert(queue[i + 1] == x);
                    } else {
                        assert(!flag(seen, queue2[i]));
                        assert(flag(seen, x));
                    }
                }
            }
        }
        if k1 > 0 || queue2.len() == 0 {
            search_is_nearest(g, hits, start, seen2, queue2, d, k1);
        } else {
            assert(levelled(g, start, seen2, queue2, d + 1, queue2.len() as int)) by {
                assert forall|x: usize| #[trigger] within(g, start, x, d + 1) implies flag(
                    seen2,
                    x,
                ) by {
                    within_steps(g, start, x, d + 1);
                    if x == start {
                        assert(flag(seen2, start));
                    } else {
                        let mid = choose|mid: usize|
                            within(g, start, mid, d + 1 - 1) && #[trigger] edges(
                                g,
                                mid as int,
                            ).contains(x);
                        assert(within(g, start, mid, d));
                        assert(flag(seen2, mid));
                        if queue2.contains(mid) {
                            let i = choose|i: int| 0 <= i < queue2.len() && queue2[i] == mid;
                            assert(!within(g, start, queue2[i], d));
                        }
                    }
                }
                assert forall|x: usize| #[trigger]
                    within(g, start, x, d + 1 - 1) implies !queue2.contains(x) by {
                    assert(within(g, start, x, d));
                    if queue2.contains(x) {
                        let i = choose|i: int| 0 <= i < queue2.len() && queue2[i] == x;
                        assert(!within(g, start, queue2[i], d));
                    }
                }
            }
            search_is_nearest(g, hits, start, seen2, queue2, d + 1, queue2.len() as int);
        }
    }
}

/// What the search finds is as near as any: no hit can be reached in fewer steps.
pub proof fn nearest_is_nearest(g: Seq<Seq<usize>>, hits: Seq<bool>, start: usize)
    requires
        start < g.len(),
        nearest(g, hits, start) is Some,
    ensures
        no_hit_nearer(g, hits, start, nearest(g, hits, start)->0),
{
    let none = Seq::new(g.len(), |i: int| false);
    let all = everything(g.len());
    let seen = set_flag(none, start);
    let queue = seq![start];
    let p = seq![start];
    assert(is_path(g, all, p));
    assert(p.last() == start);
    assert(reaches(g, all, start, start));
    assert(queue[0] == start);
    assert forall|x: usize| #[trigger] flag(seen, x) && !queue.contains(x) implies false by {}
    assert(searching(g, hits, start, seen, queue));
    assert(within(g, start, start, 0));
    assert forall|x: usize| #[trigger] within(g, start, x, 0) implies flag(seen, x) by {
        let q = choose|q: Seq<usize>| #[trigger]
            is_path(g, all, q) && q[0] == start && q.last() == x && q.len() <= 0 + 1;
    }
    assert(levelled(g, start, seen, queue, 0, 1));
    search_is_nearest(g, hits, start, seen, queue, 0, 1);
}

} // verus!
