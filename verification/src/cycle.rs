//! Depth-first search for a cycle, in an order fixed by the graph, so that the cycle reported for
//! a given program is always the same one.

use vstd::prelude::*;
use crate::graph::{edges, everything, flag, is_cycle, is_path, lists, reaches};

verus! {

/// How far the search has come with a node.
#[derive(Clone, Copy, PartialEq, Eq, Structural)]
pub enum Mark {
    /// Not met yet.
    White,
    /// On the path being followed.
    Grey,
    /// Finished: nothing it leads to closes a cycle.
    Black,
}

/// Where a search stands.
pub struct Walk {
    pub marks: Seq<Mark>,
    /// The nodes being followed, outermost first.
    pub path: Seq<usize>,
    /// The same nodes, each with how many of its successors were looked at.
    pub stack: Seq<(usize, nat)>,
}

pub open spec fn mark_at(marks: Seq<Mark>, x: usize) -> Mark {
    if x < marks.len() {
        marks[x as int]
    } else {
        Mark::Black
    }
}

pub open spec fn marked(marks: Seq<Mark>, x: usize, to: Mark) -> Seq<Mark> {
    if x < marks.len() {
        marks.update(x as int, to)
    } else {
        marks
    }
}

/// The node is met for the first time.
pub open spec fn opened(w: Walk, x: usize) -> Walk {
    Walk {
        marks: marked(w.marks, x, Mark::Grey),
        path: w.path.push(x),
        stack: w.stack.push((x, 0)),
    }
}

/// Where a node first stands in a list; at the front if it does not.
pub open spec fn position(list: Seq<usize>, x: usize) -> nat
    decreases list.len(),
{
    if !list.contains(x) || list[0] == x {
        0
    } else {
        1 + position(list.skip(1), x)
    }
}

/// The part of the path from where `x` first stands, closed by `x`.
pub open spec fn closed_by(path: Seq<usize>, x: usize) -> Seq<usize> {
    path.skip(position(path, x) as int).push(x)
}

/// The cycle the next look closes, if it closes one.
pub open spec fn closing(
    g: Seq<Seq<usize>>,
    active: Seq<bool>,
    w: Walk,
) -> Option<Seq<usize>> {
    let (node, next) = w.stack.last();
    let out = edges(g, node as int);
    if next < out.len() && flag(active, out[next as int]) && mark_at(w.marks, out[next as int])
        == Mark::Grey {
        Some(closed_by(w.path, out[next as int]))
    } else {
        None
    }
}

/// One look at one successor of the innermost node, or the end of that node.
pub open spec fn step(g: Seq<Seq<usize>>, active: Seq<bool>, w: Walk) -> Walk {
    let (node, next) = w.stack.last();
    let out = edges(g, node as int);
    if next >= out.len() {
        Walk {
            marks: marked(w.marks, node, Mark::Black),
            path: w.path.drop_last(),
            stack: w.stack.drop_last(),
        }
    } else {
        let w = Walk {
            stack: w.stack.drop_last().push((node, next + 1)),
            ..w
        };
        let dep = out[next as int];
        if flag(active, dep) && mark_at(w.marks, dep) == Mark::White {
            opened(w, dep)
        } else {
            w
        }
    }
}

pub open spec fn whites(marks: Seq<Mark>) -> nat
    decreases marks.len(),
{
    if marks.len() == 0 {
        0
    } else {
        whites(marks.drop_last()) + if marks.last() == Mark::White {
            1nat
        } else {
            0nat
        }
    }
}

/// How many looks the stack still owes.
pub open spec fn pending(g: Seq<Seq<usize>>, stack: Seq<(usize, nat)>) -> nat
    decreases stack.len(),
{
    if stack.len() == 0 {
        0
    } else {
        let (node, next) = stack.last();
        let left = edges(g, node as int).len() - next;
        pending(g, stack.drop_last()) + 1 + if left > 0 {
            left as nat
        } else {
            0nat
        }
    }
}

proof fn marking_counts(marks: Seq<Mark>, i: int, to: Mark)
    requires
        0 <= i < marks.len(),
        to != Mark::White,
    ensures
        whites(marks.update(i, to)) <= whites(marks),
        marks[i] == Mark::White ==> whites(marks.update(i, to)) < whites(marks),
        marks[i] != Mark::White ==> whites(marks.update(i, to)) == whites(marks),
    decreases marks.len(),
{
    let after = marks.update(i, to);
    if i == marks.len() - 1 {
        assert(after.drop_last() =~= marks.drop_last());
    } else {
        assert(after.drop_last() =~= marks.drop_last().update(i, to));
        marking_counts(marks.drop_last(), i, to);
    }
}

/// Every look brings the search closer to its end.
pub proof fn stepping_ends(g: Seq<Seq<usize>>, active: Seq<bool>, w: Walk)
    requires
        w.stack.len() > 0,
    ensures
        ({
            let after = step(g, active, w);
            ||| whites(after.marks) < whites(w.marks)
            ||| whites(after.marks) == whites(w.marks) && pending(g, after.stack) < pending(
                g,
                w.stack,
            )
        }),
{
    let (node, next) = w.stack.last();
    let out = edges(g, node as int);
    if next >= out.len() {
        if node < w.marks.len() {
            marking_counts(w.marks, node as int, Mark::Black);
        }
    } else {
        let moved = w.stack.drop_last().push((node, next + 1));
        assert(moved.drop_last() =~= w.stack.drop_last());
        let dep = out[next as int];
        if flag(active, dep) && mark_at(w.marks, dep) == Mark::White {
            marking_counts(w.marks, dep as int, Mark::Grey);
        }
    }
}

/// The search from where it stands to its end: the first cycle it closes, or none, and where it
/// stands then.
pub open spec fn explore(
    g: Seq<Seq<usize>>,
    active: Seq<bool>,
    w: Walk,
) -> (Option<Seq<usize>>, Walk)
    decreases whites(w.marks), pending(g, w.stack),
{
    if w.stack.len() == 0 {
        (None, w)
    } else {
        match closing(g, active, w) {
            Some(c) => (Some(c), w),
            None => {
                proof {
                    stepping_ends(g, active, w);
                }
                explore(g, active, step(g, active, w))
            },
        }
    }
}

/// Starting from each node let through that was not met yet, from `k` on, in order.
pub open spec fn scan(
    g: Seq<Seq<usize>>,
    active: Seq<bool>,
    marks: Seq<Mark>,
    k: int,
) -> Option<Seq<usize>>
    decreases g.len() - k,
{
    if k >= g.len() || k > usize::MAX {
        None
    } else if flag(active, k as usize) && mark_at(marks, k as usize) == Mark::White {
        let start = Walk { marks, path: seq![], stack: seq![] };
        match explore(g, active, opened(start, k as usize)) {
            (Some(c), _) => Some(c),
            (None, end) => scan(g, active, end.marks, k + 1),
        }
    } else {
        scan(g, active, marks, k + 1)
    }
}

pub open spec fn all_white(n: nat) -> Seq<Mark> {
    Seq::new(n, |i: int| Mark::White)
}

/// The first cycle among the nodes let through, taking each as a start in order.
pub open spec fn first_cycle(g: Seq<Seq<usize>>, active: Seq<bool>) -> Option<Seq<usize>> {
    scan(g, active, all_white(g.len()), 0)
}

/// The first cycle that can be reached from one start.
pub open spec fn cycle_from(g: Seq<Seq<usize>>, start: usize) -> Option<Seq<usize>> {
    explore(
        g,
        everything(g.len()),
        opened(Walk { marks: all_white(g.len()), path: seq![], stack: seq![] }, start),
    ).0
}

// ---------------------------------------------------------------- the search

spec fn counted(s: Seq<(usize, usize)>) -> Seq<(usize, nat)> {
    Seq::new(s.len(), |i: int| (s[i].0, s[i].1 as nat))
}

struct Search {
    marks: Vec<Mark>,
    path: Vec<usize>,
    stack: Vec<(usize, usize)>,
}

impl Search {
    spec fn walk(&self) -> Walk {
        Walk { marks: self.marks@, path: self.path@, stack: counted(self.stack@) }
    }

    fn new(n: usize) -> (r: Search)
        ensures
            r.walk() == (Walk { marks: all_white(n as nat), path: seq![], stack: seq![] }),
    {
        let mut marks: Vec<Mark> = Vec::new();
        for i in 0..n
            invariant
                marks@ == all_white(i as nat),
        {
            marks.push(Mark::White);
            assert(marks@ =~= all_white((i + 1) as nat));
        }
        let r = Search { marks, path: Vec::new(), stack: Vec::new() };
        assert(counted(r.stack@) =~= seq![]);
        r
    }

    fn open(&mut self, x: usize)
        ensures
            final(self).walk() == opened(old(self).walk(), x),
            final(self).path.len() == old(self).path.len() + 1,
            final(self).stack.len() == old(self).stack.len() + 1,
    {
        if x < self.marks.len() {
            self.marks.set(x, Mark::Grey);
        }
        self.path.push(x);
        self.stack.push((x, 0));
        assert(counted(self.stack@) =~= counted(old(self).stack@).push((x, 0)));
    }

    fn run(&mut self, g: &Vec<Vec<usize>>, active: &Vec<bool>) -> (r: Option<Vec<usize>>)
        requires
            old(self).path.len() == old(self).stack.len(),
        ensures
            r is None ==> final(self).path.len() == 0 && final(self).stack.len() == 0,
            match r {
                Some(c) => explore(lists(g@), active@, old(self).walk()) == (
                    Some(c@),
                    final(self).walk(),
                ),
                None => explore(lists(g@), active@, old(self).walk()) == (
                    None::<Seq<usize>>,
                    final(self).walk(),
                ),
            },
    {
        let ghost graph = lists(g@);
        while self.stack.len() > 0
            invariant
                graph == lists(g@),
                self.path.len() == self.stack.len(),
                explore(graph, active@, self.walk()) == explore(
                    graph,
                    active@,
                    old(self).walk(),
                ),
            decreases whites(self.marks@), pending(graph, counted(self.stack@)),
        {
            let ghost before = self.walk();
            proof {
                stepping_ends(graph, active@, before);
            }
            let top: usize = self.stack.len() - 1;
            let (node, next) = self.stack[top];
            assert(before.stack.last() == (node, next as nat));
            let count: usize = if node < g.len() {
                g[node].len()
            } else {
                0
            };
            if next >= count {
                if node < self.marks.len() {
                    self.marks.set(node, Mark::Black);
                }
                self.stack.pop();
                self.path.pop();
                assert(counted(self.stack@) =~= before.stack.drop_last());
                assert(self.path@ =~= before.path.drop_last());
                assert(self.walk() == step(graph, active@, before));
            } else {
                let dep: usize = g[node][next];
                if dep < active.len() && active[dep] && dep < self.marks.len() && self.marks[dep]
                    == Mark::Grey {
                    return Some(close(&self.path, dep));
                }
                self.stack.set(top, (node, next + 1));
                assert(counted(self.stack@) =~= before.stack.drop_last().push(
                    (node, next as nat + 1),
                ));
                if dep < active.len() && active[dep] && dep < self.marks.len() && self.marks[dep]
                    == Mark::White {
                    self.open(dep);
                }
                assert(self.walk() == step(graph, active@, before));
            }
        }
        None
    }
}

/// The part of the path from where `x` first stands, closed by `x`.
fn close(path: &Vec<usize>, x: usize) -> (r: Vec<usize>)
    ensures
        r@ == closed_by(path@, x),
{
    let mut at: usize = 0;
    let ghost list = path@;
    assert(list.skip(0) =~= list);
    while at < path.len() && path[at] != x
        invariant
            list == path@,
            at <= path.len(),
            forall|i: int| 0 <= i < at ==> list[i] != x,
            list.contains(x) ==> list.skip(at as int).contains(x) && position(list, x) == at
                + position(list.skip(at as int), x),
        decreases path.len() - at,
    {
        proof {
            let rest = list.skip(at as int);
            assert(rest.skip(1) =~= list.skip(at + 1));
            if list.contains(x) {
                let k = choose|k: int| 0 <= k < rest.len() && rest[k] == x;
                assert(k > 0);
                assert(rest.skip(1)[k - 1] == x);
            }
        }
        at = at + 1;
    }
    if at >= path.len() {
        proof {
            if list.contains(x) {
                let k = choose|k: int| 0 <= k < list.len() && list[k] == x;
            }
        }
        at = 0;
    } else {
        assert(list[at as int] == x);
        assert(list.skip(at as int)[0] == x);
    }
    assert(position(list, x) == at);
    let mut r: Vec<usize> = Vec::new();
    for i in at..path.len()
        invariant
            list == path@,
            at <= path.len(),
            r@ == list.subrange(at as int, i as int),
    {
        r.push(path[i]);
        assert(r@ =~= list.subrange(at as int, i + 1));
    }
    r.push(x);
    assert(r@ =~= closed_by(list, x));
    r
}

/// The first cycle that can be reached from one start.
pub fn find_cycle_from(g: &Vec<Vec<usize>>, start: usize) -> (r: Option<Vec<usize>>)
    ensures
        match r {
            Some(c) => cycle_from(lists(g@), start) == Some(c@),
            None => cycle_from(lists(g@), start) is None,
        },
{
    let mut active: Vec<bool> = Vec::new();
    for i in 0..g.len()
        invariant
            active@ == everything(i as nat),
    {
        active.push(true);
        assert(active@ =~= everything((i + 1) as nat));
    }
    let mut search = Search::new(g.len());
    search.open(start);
    search.run(g, &active)
}

/// The first cycle among the nodes let through, taking each as a start in order.
pub fn find_first_cycle(g: &Vec<Vec<usize>>, active: &Vec<bool>) -> (r: Option<Vec<usize>>)
    ensures
        match r {
            Some(c) => first_cycle(lists(g@), active@) == Some(c@),
            None => first_cycle(lists(g@), active@) is None,
        },
{
    let ghost graph = lists(g@);
    let mut search = Search::new(g.len());
    for start in 0..g.len()
        invariant
            graph == lists(g@),
            search.path.len() == 0,
            search.stack.len() == 0,
            scan(graph, active@, search.marks@, start as int) == first_cycle(graph, active@),
    {
        let ghost before = search.walk();
        if start < active.len() && active[start] && start < search.marks.len()
            && search.marks[start] == Mark::White {
            assert(before.path =~= seq![]);
            assert(before.stack =~= seq![]);
            search.open(start);
            if let Some(c) = search.run(g, active) {
                return Some(c);
            }
        }
    }
    None
}

// ---------------------------------------------------------------- what always holds

/// What the search keeps. `done` lists the finished nodes in the order they were finished: every
/// successor of a finished node was finished before it.
spec fn sane(
    g: Seq<Seq<usize>>,
    active: Seq<bool>,
    w: Walk,
    done: Seq<usize>,
) -> bool {
    &&& w.marks.len() == g.len()
    &&& active.len() == g.len()
    &&& w.path.len() == w.stack.len()
    &&& forall|i: int|
        0 <= i < w.stack.len() ==> (#[trigger] w.stack[i]).0 == w.path[i] && w.path[i] < g.len()
            && w.stack[i].1 <= g[w.path[i] as int].len()
    &&& forall|i: int|
        0 <= i < w.path.len() ==> mark_at(w.marks, #[trigger] w.path[i]) == Mark::Grey && flag(
            active,
            w.path[i],
        )
    &&& forall|i: int, j: int|
        0 <= i < j < w.path.len() ==> #[trigger] w.path[i] != #[trigger] w.path[j]
    &&& forall|x: usize|
        x < g.len() && #[trigger] mark_at(w.marks, x) == Mark::Grey ==> w.path.contains(x)
    &&& forall|x: usize|
        x < g.len() ==> (#[trigger] mark_at(w.marks, x) == Mark::Black <==> done.contains(x))
    &&& forall|i: int| 0 <= i < done.len() ==> #[trigger] done[i] < g.len()
    &&& forall|i: int, j: int|
        0 <= i < j < done.len() ==> #[trigger] done[i] != #[trigger] done[j]
    &&& forall|i: int|
        0 <= i < w.path.len() - 1 ==> {
            &&& (#[trigger] w.stack[i]).1 > 0
            &&& g[w.path[i] as int][w.stack[i].1 - 1] == w.path[i + 1]
        }
    &&& forall|i: int, j: int|
        0 <= i < w.path.len() && 0 <= j < w.stack[i].1 && flag(
            active,
            #[trigger] g[w.path[i] as int][j],
        ) ==> {
            ||| done.contains(g[w.path[i] as int][j])
            ||| i < w.path.len() - 1 && j == w.stack[i].1 - 1
        }
    &&& finished_in_order(g, active, done)
}

/// Every successor of a finished node, among those let through, was finished before it.
spec fn finished_in_order(g: Seq<Seq<usize>>, active: Seq<bool>, done: Seq<usize>) -> bool {
    forall|k: int, y: usize|
        0 <= k < done.len() && #[trigger] edges(g, done[k] as int).contains(y) && flag(active, y)
            ==> done.take(k).contains(y)
}

proof fn stepping_keeps_sane(
    g: Seq<Seq<usize>>,
    active: Seq<bool>,
    w: Walk,
    done: Seq<usize>,
) -> (after: Seq<usize>)
    requires
        sane(g, active, w, done),
        w.stack.len() > 0,
        closing(g, active, w) is None,
    ensures
        sane(g, active, step(g, active, w), after),
        done.is_prefix_of(after),
{
    let (node, next) = w.stack.last();
    let top = w.stack.len() - 1;
    let out = edges(g, node as int);
    assert(w.stack[top].0 == w.path[top]);
    let s = step(g, active, w);
    if next >= out.len() {
        let after = done.push(node);
        assert(!done.contains(node)) by {
            assert(mark_at(w.marks, w.path[top]) == Mark::Grey);
        }
        assert forall|k: int, y: usize|
            0 <= k < after.len() && #[trigger] edges(g, after[k] as int).contains(y) && flag(
                active,
                y,
            ) implies after.take(k).contains(y) by {
            assert(after.take(k) =~= done.take(k));
            if k < done.len() {
                assert(edges(g, done[k] as int).contains(y));
            } else {
                let j = choose|j: int| 0 <= j < out.len() && out[j] == y;
                assert(flag(active, g[w.path[top] as int][j]));
                assert(done.contains(y));
                assert(done.take(k) =~= done);
            }
        }
        assert forall|x: usize| x < g.len() implies (#[trigger] mark_at(s.marks, x) == Mark::Black
            <==> after.contains(x)) by {
            if x == node {
                assert(after[after.len() - 1] == x);
            } else {
                assert(mark_at(s.marks, x) == mark_at(w.marks, x));
                if done.contains(x) {
                    let i = choose|i: int| 0 <= i < done.len() && done[i] == x;
                    assert(after[i] == x);
                }
                if after.contains(x) {
                    let i = choose|i: int| 0 <= i < after.len() && after[i] == x;
                    assert(done[i] == x);
                }
            }
        }
        assert forall|x: usize|
            x < g.len() && #[trigger] mark_at(s.marks, x) == Mark::Grey implies s.path.contains(
            x,
        ) by {
            assert(mark_at(w.marks, x) == Mark::Grey);
            let i = choose|i: int| 0 <= i < w.path.len() && w.path[i] == x;
            assert(s.path[i] == x);
        }
        assert forall|i: int| 0 <= i < s.path.len() implies mark_at(s.marks, #[trigger] s.path[i])
            == Mark::Grey && flag(active, s.path[i]) by {
            assert(w.path[i] != w.path[top]);
            assert(mark_at(w.marks, w.path[i]) == Mark::Grey);
        }
        assert forall|i: int, j: int| 0 <= i < j < s.path.len() implies #[trigger] s.path[i]
            != #[trigger] s.path[j] by {
            assert(w.path[i] != w.path[j]);
        }
        assert forall|i: int, j: int| 0 <= i < j < after.len() implies #[trigger] after[i]
            != #[trigger] after[j] by {
            if j < done.len() {
                assert(done[i] != done[j]);
            } else {
                assert(done.contains(done[i]));
            }
        }
        assert forall|i: int, j: int|
            0 <= i < s.path.len() && 0 <= j < s.stack[i].1 && flag(
                active,
                #[trigger] g[s.path[i] as int][j],
            ) implies after.contains(g[s.path[i] as int][j]) || (i < s.path.len() - 1 && j
            == s.stack[i].1 - 1) by {
            let y = g[s.path[i] as int][j];
            assert(w.path[i] == s.path[i] && w.stack[i] == s.stack[i]);
            assert(flag(active, g[w.path[i] as int][j]));
            if done.contains(y) {
                let m = choose|m: int| 0 <= m < done.len() && done[m] == y;
                assert(after[m] == y);
            } else {
                assert(j == w.stack[i].1 - 1);
                if i == s.path.len() - 1 {
                    assert(y == w.path[i + 1]);
                    assert(after[after.len() - 1] == y);
                }
            }
        }
        assert forall|i: int| 0 <= i < s.stack.len() implies (#[trigger] s.stack[i]).0 == s.path[i]
            && s.path[i] < g.len() && s.stack[i].1 <= g[s.path[i] as int].len() by {
            assert(w.stack[i].0 == w.path[i]);
        }
        assert forall|i: int| 0 <= i < s.path.len() - 1 implies (#[trigger] s.stack[i]).1 > 0
            && g[s.path[i] as int][s.stack[i].1 - 1] == s.path[i + 1] by {
            assert(w.stack[i].1 > 0);
        }
        assert forall|i: int| 0 <= i < after.len() implies #[trigger] after[i] < g.len() by {
            if i < done.len() {
                assert(done[i] < g.len());
            }
        }
        assert(sane(g, active, s, after));
        after
    } else {
        let dep = out[next as int];
        let fresh = flag(active, dep) && mark_at(w.marks, dep) == Mark::White;
        assert forall|i: int| 0 <= i < s.stack.len() implies (#[trigger] s.stack[i]).0 == s.path[i]
            && s.path[i] < g.len() && s.stack[i].1 <= g[s.path[i] as int].len() by {
            if i < top {
                assert(w.stack[i].0 == w.path[i]);
            }
        }
        assert forall|i: int| 0 <= i < s.path.len() implies mark_at(s.marks, #[trigger] s.path[i])
            == Mark::Grey && flag(active, s.path[i]) by {
            if i <= top {
                assert(mark_at(w.marks, w.path[i]) == Mark::Grey);
            }
        }
        assert forall|i: int, j: int| 0 <= i < j < s.path.len() implies #[trigger] s.path[i]
            != #[trigger] s.path[j] by {
            if j <= top {
                assert(w.path[i] != w.path[j]);
            } else {
                assert(mark_at(w.marks, w.path[i]) == Mark::Grey);
            }
        }
        assert forall|x: usize|
            x < g.len() && #[trigger] mark_at(s.marks, x) == Mark::Grey implies s.path.contains(
            x,
        ) by {
            if fresh && x == dep {
                assert(s.path[s.path.len() - 1] == x);
            } else {
                assert(mark_at(w.marks, x) == Mark::Grey);
                let i = choose|i: int| 0 <= i < w.path.len() && w.path[i] == x;
                assert(s.path[i] == x);
            }
        }
        assert forall|x: usize| x < g.len() implies (#[trigger] mark_at(s.marks, x) == Mark::Black
            <==> done.contains(x)) by {
            assert(mark_at(w.marks, x) == Mark::Black <==> done.contains(x));
        }
        assert forall|i: int| 0 <= i < s.path.len() - 1 implies (#[trigger] s.stack[i]).1 > 0
            && g[s.path[i] as int][s.stack[i].1 - 1] == s.path[i + 1] by {
            if i < top {
                assert(w.stack[i].1 > 0);
            }
        }
        assert forall|i: int, j: int|
            0 <= i < s.path.len() && 0 <= j < s.stack[i].1 && flag(
                active,
                #[trigger] g[s.path[i] as int][j],
            ) implies done.contains(g[s.path[i] as int][j]) || (i < s.path.len() - 1 && j
            == s.stack[i].1 - 1) by {
            if i < top {
                assert(w.stack[i] == s.stack[i]);
                assert(flag(active, g[w.path[i] as int][j]));
            } else if i == top {
                assert(s.path[i] == w.path[i]);
                if j < next {
                    assert(flag(active, g[w.path[i] as int][j]));
                } else {
                    assert(g[s.path[i] as int][j] == dep);
                    assert(mark_at(w.marks, dep) != Mark::Grey);
                }
            }
        }
        assert(sane(g, active, s, done));
        done
    }
}

proof fn exploring_is_right(
    g: Seq<Seq<usize>>,
    active: Seq<bool>,
    w: Walk,
    done: Seq<usize>,
) -> (after: Seq<usize>)
    requires
        sane(g, active, w, done),
    ensures
        match explore(g, active, w) {
            (Some(c), _) => is_cycle(g, active, c),
            (None, end) => sane(g, active, end, after) && end.stack.len() == 0,
        },
        done.is_prefix_of(after),
        explore(g, active, w).0 is Some && w.path.len() > 0 ==> reaches(
            g,
            active,
            w.path[0],
            (explore(g, active, w).0->0)[0],
        ),
    decreases whites(w.marks), pending(g, w.stack),
{
    if w.stack.len() == 0 {
        done
    } else {
        match closing(g, active, w) {
            Some(c) => {
                closing_is_a_cycle(g, active, w, done);
                done
            },
            None => {
                stepping_ends(g, active, w);
                let mid = stepping_keeps_sane(g, active, w, done);
                let after = exploring_is_right(g, active, step(g, active, w), mid);
                assert(done.is_prefix_of(after));
                if step(g, active, w).path.len() == 0 {
                    assert(step(g, active, w).stack.len() == 0);
                } else {
                    assert(step(g, active, w).path[0] == w.path[0]);
                }
                after
            },
        }
    }
}

proof fn position_finds(list: Seq<usize>, x: usize)
    requires
        list.contains(x),
    ensures
        position(list, x) < list.len(),
        list[position(list, x) as int] == x,
    decreases list.len(),
{
    let k = choose|k: int| 0 <= k < list.len() && list[k] == x;
    if list[0] != x {
        let rest = list.skip(1);
        assert(rest[k - 1] == x);
        position_finds(rest, x);
    }
}

proof fn closing_is_a_cycle(
    g: Seq<Seq<usize>>,
    active: Seq<bool>,
    w: Walk,
    done: Seq<usize>,
)
    requires
        sane(g, active, w, done),
        w.stack.len() > 0,
        closing(g, active, w) is Some,
    ensures
        is_cycle(g, active, closing(g, active, w)->0),
        reaches(g, active, w.path[0], (closing(g, active, w)->0)[0]),
{
    let c = closing(g, active, w)->0;
    let top = w.stack.len() - 1;
    let (node, next) = w.stack.last();
    assert(w.stack[top].0 == w.path[top]);
    let dep = edges(g, node as int)[next as int];
    assert(w.path.contains(dep));
    position_finds(w.path, dep);
    let at = position(w.path, dep) as int;
    assert(c =~= w.path.skip(at).push(dep));
    assert forall|i: int| 0 <= i < c.len() - 1 implies #[trigger] edges(g, c[i] as int).contains(
        c[i + 1],
    ) && flag(active, c[i + 1]) by {
        assert(c[i] == w.path[at + i]);
        if i < c.len() - 2 {
            assert(w.stack[at + i].1 > 0);
            assert(g[w.path[at + i] as int][w.stack[at + i].1 - 1] == w.path[at + i + 1]);
            assert(flag(active, w.path[at + i + 1]));
        } else {
            assert(edges(g, node as int)[next as int] == dep);
        }
    }
    assert(is_path(g, active, c));
    let q = w.path.take(at + 1);
    assert forall|i: int| 0 <= i < q.len() - 1 implies #[trigger] edges(g, q[i] as int).contains(
        q[i + 1],
    ) && flag(active, q[i + 1]) by {
        assert(w.stack[i].1 > 0);
        assert(g[w.path[i] as int][w.stack[i].1 - 1] == w.path[i + 1]);
        assert(flag(active, w.path[i + 1]));
    }
    assert(is_path(g, active, q));
    assert(q.last() == dep);
}

/// In an order where every successor comes earlier, a walk from a listed node only goes back.
proof fn walks_go_back(
    g: Seq<Seq<usize>>,
    active: Seq<bool>,
    done: Seq<usize>,
    p: Seq<usize>,
    k: int,
    i: int,
) -> (at: int)
    requires
        finished_in_order(g, active, done),
        is_path(g, active, p),
        0 <= k < done.len(),
        done[k] == p[0],
        0 <= i < p.len(),
    ensures
        0 <= at <= k - i,
        at < done.len(),
        done[at] == p[i],
    decreases i,
{
    if i == 0 {
        k
    } else {
        let before = walks_go_back(g, active, done, p, k, i - 1);
        assert(edges(g, p[i - 1] as int).contains(p[i - 1 + 1]));
        assert(edges(g, done[before] as int).contains(p[i]));
        assert(done.take(before).contains(p[i]));
        let at = choose|at: int| 0 <= at < done.take(before).len() && done.take(before)[at] == p[i];
        at
    }
}

proof fn finished_nodes_close_no_cycle(
    g: Seq<Seq<usize>>,
    active: Seq<bool>,
    done: Seq<usize>,
    c: Seq<usize>,
)
    requires
        finished_in_order(g, active, done),
        forall|i: int, j: int|
            0 <= i < j < done.len() ==> #[trigger] done[i] != #[trigger] done[j],
        done.contains(c[0]),
    ensures
        !is_cycle(g, active, c),
{
    if is_cycle(g, active, c) {
        let k = choose|k: int| 0 <= k < done.len() && done[k] == c[0];
        let at = walks_go_back(g, active, done, c, k, c.len() - 1);
        assert(done[at] == done[k]);
    }
}

/// A cycle that is found names at least one node.
pub proof fn found_cycles_have_a_head(g: Seq<Seq<usize>>, active: Seq<bool>, w: Walk)
    ensures
        explore(g, active, w).0 is Some ==> (explore(g, active, w).0->0).len() > 0,
    decreases whites(w.marks), pending(g, w.stack),
{
    if w.stack.len() > 0 && closing(g, active, w) is None {
        stepping_ends(g, active, w);
        found_cycles_have_a_head(g, active, step(g, active, w));
    } else if w.stack.len() > 0 {
        let (node, next) = w.stack.last();
        let dep = edges(g, node as int)[next as int];
        position_is_inside(w.path, dep);
    }
}

proof fn position_is_inside(list: Seq<usize>, x: usize)
    ensures
        position(list, x) <= list.len(),
    decreases list.len(),
{
    if list.contains(x) && list[0] != x {
        position_is_inside(list.skip(1), x);
    }
}

/// From one start: what is found is a cycle the start reaches, and one is found whenever the start
/// reaches one.
pub proof fn cycle_from_is_right(g: Seq<Seq<usize>>, start: usize)
    requires
        start < g.len(),
    ensures
        match cycle_from(g, start) {
            Some(c) => is_cycle(g, everything(g.len()), c) && reaches(
                g,
                everything(g.len()),
                start,
                c[0],
            ),
            None => forall|c: Seq<usize>|
                !(#[trigger] is_cycle(g, everything(g.len()), c) && reaches(
                    g,
                    everything(g.len()),
                    start,
                    c[0],
                )),
        },
{
    let active = everything(g.len());
    let w = opened(Walk { marks: all_white(g.len()), path: seq![], stack: seq![] }, start);
    assert(w.path[0] == start);
    assert forall|x: usize| x < g.len() && #[trigger] mark_at(w.marks, x)
        == Mark::Grey implies w.path.contains(x) by {
        assert(x == start);
    }
    assert(sane(g, active, w, seq![]));
    let done = exploring_is_right(g, active, w, seq![]);
    if cycle_from(g, start) is None {
        start_is_finished(g, active, w);
        let end = explore(g, active, w).1;
        assert(mark_at(end.marks, start) == Mark::Black);
        assert(done.contains(start));
        assert forall|c: Seq<usize>| #[trigger] is_cycle(g, active, c) implies !reaches(
            g,
            active,
            start,
            c[0],
        ) by {
            if reaches(g, active, start, c[0]) {
                let p = choose|p: Seq<usize>| #[trigger]
                    is_path(g, active, p) && p[0] == start && p.last() == c[0];
                let k = choose|k: int| 0 <= k < done.len() && done[k] == start;
                let at = walks_go_back(g, active, done, p, k, p.len() - 1);
                assert(done[at] == c[0]);
                finished_nodes_close_no_cycle(g, active, done, c);
            }
        }
    }
}

/// A node that was met is finished when the search is over.
proof fn start_is_finished(g: Seq<Seq<usize>>, active: Seq<bool>, w: Walk)
    requires
        exists|done: Seq<usize>| sane(g, active, w, done),
        explore(g, active, w).0 is None,
    ensures
        forall|x: usize|
            x < g.len() && mark_at(w.marks, x) != Mark::White ==> #[trigger] mark_at(
                explore(g, active, w).1.marks,
                x,
            ) == Mark::Black,
    decreases whites(w.marks), pending(g, w.stack),
{
    let done = choose|done: Seq<usize>| sane(g, active, w, done);
    if w.stack.len() == 0 {
        assert forall|x: usize| x < g.len() && mark_at(w.marks, x)
            != Mark::White implies #[trigger] mark_at(explore(g, active, w).1.marks, x)
            == Mark::Black by {
            if mark_at(w.marks, x) == Mark::Grey {
                assert(w.path.contains(x));
            }
        }
    } else {
        stepping_ends(g, active, w);
        let after = stepping_keeps_sane(g, active, w, done);
        let s = step(g, active, w);
        start_is_finished(g, active, s);
        assert forall|x: usize| x < g.len() && mark_at(w.marks, x)
            != Mark::White implies #[trigger] mark_at(explore(g, active, w).1.marks, x)
            == Mark::Black by {
            assert(mark_at(s.marks, x) != Mark::White);
        }
    }
}

proof fn scanning_is_right(
    g: Seq<Seq<usize>>,
    active: Seq<bool>,
    marks: Seq<Mark>,
    done: Seq<usize>,
    k: int,
)
    requires
        sane(g, active, (Walk { marks, path: seq![], stack: seq![] }), done),
        0 <= k <= g.len() <= usize::MAX,
        forall|x: usize|
            x < k && flag(active, x) ==> #[trigger] mark_at(marks, x) == Mark::Black,
    ensures
        match scan(g, active, marks, k) {
            Some(c) => is_cycle(g, active, c),
            None => forall|c: Seq<usize>| !(#[trigger] is_cycle(g, active, c)),
        },
    decreases g.len() - k,
{
    let rest = Walk { marks, path: seq![], stack: seq![] };
    if k >= g.len() {
        assert forall|c: Seq<usize>| #[trigger] is_cycle(g, active, c) implies false by {
            assert(edges(g, c[c.len() - 2] as int).contains(c[c.len() - 2 + 1]));
            assert(flag(active, c[c.len() - 1]));
            assert(mark_at(marks, c[0]) == Mark::Black);
            finished_nodes_close_no_cycle(g, active, done, c);
        }
    } else if flag(active, k as usize) && mark_at(marks, k as usize) == Mark::White {
        let w = opened(rest, k as usize);
        assert(w.path[0] == k);
        assert forall|x: usize| x < g.len() && #[trigger] mark_at(w.marks, x)
            == Mark::Grey implies w.path.contains(x) by {
            if x != k {
                assert(mark_at(marks, x) == Mark::Grey);
                assert(rest.path.contains(x));
            }
        }
        assert forall|x: usize| x < g.len() implies (#[trigger] mark_at(w.marks, x) == Mark::Black
            <==> done.contains(x)) by {
            assert(mark_at(marks, x) == Mark::Black <==> done.contains(x));
        }
        assert(sane(g, active, w, done));
        let after = exploring_is_right(g, active, w, done);
        if explore(g, active, w).0 is None {
            start_is_finished(g, active, w);
            let end = explore(g, active, w).1;
            assert(end.path =~= seq![]);
            assert(end.stack =~= seq![]);
            assert(end == (Walk { marks: end.marks, path: seq![], stack: seq![] }));
            assert forall|x: usize| x < k + 1 && flag(active, x) implies #[trigger] mark_at(
                end.marks,
                x,
            ) == Mark::Black by {
                if x < k {
                    assert(mark_at(marks, x) == Mark::Black);
                }
                assert(mark_at(w.marks, x) != Mark::White);
            }
            scanning_is_right(g, active, end.marks, after, k + 1);
        }
    } else {
        assert forall|x: usize| x < k + 1 && flag(active, x) implies #[trigger] mark_at(marks, x)
            == Mark::Black by {
            if x == k && mark_at(marks, x) == Mark::Grey {
                assert(rest.path.contains(x));
            }
        }
        scanning_is_right(g, active, marks, done, k + 1);
    }
}

/// Over a whole graph: what is found is a cycle, and one is found whenever there is one.
pub proof fn first_cycle_is_right(g: Seq<Seq<usize>>, active: Seq<bool>)
    requires
        active.len() == g.len(),
        g.len() <= usize::MAX,
    ensures
        match first_cycle(g, active) {
            Some(c) => is_cycle(g, active, c),
            None => forall|c: Seq<usize>| !(#[trigger] is_cycle(g, active, c)),
        },
{
    let marks = all_white(g.len());
    let w = Walk { marks, path: seq![], stack: seq![] };
    assert(sane(g, active, w, seq![]));
    scanning_is_right(g, active, marks, seq![], 0);
}

} // verus!
