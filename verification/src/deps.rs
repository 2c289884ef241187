//! The order in which the steps of a workflow can run: dependency levels, the
//! steps one step needs, and what keeps a workflow out of levels.

use crate::actions::{branch_label, ActionBranch};
use crate::error::{ErrorView, RuntimeError, RuntimeErrorKind};
use crate::model::{ActionType, OnAction, Step, StepTarget, Workflow};
use crate::model::action_type_name;
use crate::step_refs::{
    declared_refs, declares_ref, execution_refs, reads_step, routing_reads, routing_refs,
};
use crate::text::{concat3, concat5, same_text};
use std::collections::BTreeSet;
use vstd::prelude::*;
use vstd::string::*;

verus! {

// ---------------------------------------------------------------------
// Steps by name
// ---------------------------------------------------------------------

/// Whether the step at `i` is the one that `name` stands for: the last of
/// that name.
pub open spec fn is_step_named(steps: Seq<Step>, name: Seq<char>, i: int) -> bool {
    &&& 0 <= i < steps.len()
    &&& steps[i].step_id@ == name
    &&& forall|j: int| i < j < steps.len() ==> (#[trigger] steps[j]).step_id@ != name
}

/// Whether some step has the name `name`.
pub open spec fn step_exists(steps: Seq<Step>, name: Seq<char>) -> bool {
    exists|i: int| 0 <= i < steps.len() && (#[trigger] steps[i]).step_id@ == name
}

/// The index of the step that `name` stands for.
pub fn step_index(steps: &Vec<Step>, name: &str) -> (r: Option<usize>)
    ensures
        match r {
            Some(i) => is_step_named(steps@, name@, i as int),
            None => !step_exists(steps@, name@),
        },
{
    let mut i: usize = steps.len();
    while i > 0
        invariant
            i <= steps@.len(),
            forall|j: int| i <= j < steps@.len() ==> (#[trigger] steps@[j]).step_id@ != name@,
        decreases i,
    {
        i = i - 1;
        if same_text(steps[i].step_id.as_str(), name) {
            return Some(i);
        }
    }
    None
}

// ---------------------------------------------------------------------
// Levels of a graph
// ---------------------------------------------------------------------

/// A dependency relation between the numbers below `n`.
#[verifier::ext_equal]
pub struct Graph {
    pub n: nat,
    pub edges: Set<(int, int)>,
}

/// Whether `i` depends on `j`.
pub open spec fn edge(g: Graph, i: int, j: int) -> bool {
    g.edges.contains((i, j))
}

/// Whether the relation stays below its bound.
pub open spec fn bounded(g: Graph) -> bool {
    forall|i: int, j: int| #[trigger] edge(g, i, j) ==> 0 <= i < g.n && 0 <= j < g.n
}

/// Whether every row of a matrix is as long as the matrix has rows.
pub open spec fn square(m: Seq<Vec<bool>>) -> bool {
    forall|i: int| 0 <= i < m.len() ==> (#[trigger] m[i])@.len() == m.len()
}

/// The relation that a square matrix stands for.
pub open spec fn matrix_graph(m: Seq<Vec<bool>>) -> Graph {
    Graph {
        n: m.len(),
        edges: Set::new(
            |p: (int, int)| 0 <= p.0 < m.len() && 0 <= p.1 < m.len() && m[p.0]@[p.1],
        ),
    }
}

/// Whether `i` stands in level `k`.
pub open spec fn in_level(levels: Seq<Vec<usize>>, k: int, i: int) -> bool {
    0 <= k < levels.len() && 0 <= i <= usize::MAX && levels[k]@.contains(i as usize)
}

/// Whether `i` stands in a level before level `k`.
pub open spec fn placed_before(levels: Seq<Vec<usize>>, k: int, i: int) -> bool {
    exists|l: int| l < k && #[trigger] in_level(levels, l, i)
}

/// What every level holds: at least one number, in ascending order, none of
/// them in an earlier level; each needs earlier levels only, and the level
/// just before for something.
pub open spec fn level_ok(g: Graph, levels: Seq<Vec<usize>>, k: int) -> bool {
    &&& levels[k]@.len() > 0
    &&& forall|a: int, b: int|
        0 <= a < b < levels[k]@.len() ==> (#[trigger] levels[k]@[a]) < (#[trigger] levels[k]@[b])
    &&& forall|i: int| #[trigger] in_level(levels, k, i) ==> i < g.n
    &&& forall|i: int| #[trigger] in_level(levels, k, i) ==> !placed_before(levels, k, i)
    &&& forall|i: int, j: int| #[trigger]
        in_level(levels, k, i) && #[trigger] edge(g, i, j) ==> placed_before(levels, k, j)
    &&& k > 0 ==> forall|i: int| #[trigger]
        in_level(levels, k, i) ==> exists|j: int| edge(g, i, j) && #[trigger] in_level(
            levels,
            k - 1,
            j,
        )
}

/// Whether the levels order every number below the size of the relation.
pub open spec fn levels_ok(g: Graph, levels: Seq<Vec<usize>>) -> bool {
    &&& forall|k: int| 0 <= k < levels.len() ==> #[trigger] level_ok(g, levels, k)
    &&& forall|i: int|
        0 <= i < g.n ==> #[trigger] placed_before(levels, levels.len() as int, i)
}

/// A set of numbers each of which depends on another one of the set: none of
/// them can come first.
pub open spec fn stuck(g: Graph, s: Set<int>) -> bool {
    &&& s != Set::<int>::empty()
    &&& forall|i: int| #[trigger]
        s.contains(i) ==> 0 <= i < g.n && exists|j: int| #[trigger] s.contains(j) && edge(g, i, j)
}

/// Where there are levels nothing is stuck.
pub proof fn levels_exclude_cycles(g: Graph, levels: Seq<Vec<usize>>, s: Set<int>)
    requires
        levels_ok(g, levels),
    ensures
        !stuck(g, s),
{
    if stuck(g, s) {
        let i = choose|i: int| s.contains(i);
        assert(s.contains(i)) by {
            if forall|i: int| !s.contains(i) {
                assert(s =~= Set::<int>::empty());
            }
        }
        assert(placed_before(levels, levels.len() as int, i));
        let k = choose|k: int| k < levels.len() && #[trigger] in_level(levels, k, i);
        stuck_descends(g, levels, s, i, k);
    }
}

proof fn stuck_descends(g: Graph, levels: Seq<Vec<usize>>, s: Set<int>, i: int, k: int)
    requires
        levels_ok(g, levels),
        s.contains(i),
        in_level(levels, k, i),
    ensures
        !stuck(g, s),
    decreases k,
{
    if stuck(g, s) {
        assert(level_ok(g, levels, k));
        let j = choose|j: int| #[trigger] s.contains(j) && edge(g, i, j);
        assert(s.contains(j) && edge(g, i, j));
        assert(placed_before(levels, k, j));
        let l = choose|l: int| l < k && #[trigger] in_level(levels, l, j);
        stuck_descends(g, levels, s, j, l);
    }
}

/// The levels of a relation; nothing when some numbers wait for each other.
pub fn level_graph(m: &Vec<Vec<bool>>) -> (r: Option<Vec<Vec<usize>>>)
    requires
        square(m@),
    ensures
        match r {
            Some(levels) => levels_ok(matrix_graph(m@), levels@),
            None => exists|s: Set<int>| stuck(matrix_graph(m@), s),
        },
{
    let ghost g = matrix_graph(m@);
    let n = m.len();
    let mut assigned: Vec<bool> = Vec::new();
    let mut i: usize = 0;
    while i < n
        invariant
            i <= n,
            assigned@.len() == i,
            forall|j: int| 0 <= j < i ==> !assigned@[j],
        decreases n - i,
    {
        assigned.push(false);
        i = i + 1;
    }
    let mut levels: Vec<Vec<usize>> = Vec::new();
    let mut remaining: usize = n;
    proof {
        assert(count_open(assigned@) == n) by {
            all_open(assigned@);
        }
        assert forall|j: int| 0 <= j < n implies assigned@[j] == placed_before(
            levels@,
            levels@.len() as int,
            j,
        ) by {}
    }
    while remaining > 0
        invariant
            n == m@.len(),
            square(m@),
            g == matrix_graph(m@),
            assigned@.len() == n,
            remaining == count_open(assigned@),
            forall|k: int| 0 <= k < levels@.len() ==> #[trigger] level_ok(g, levels@, k),
            forall|j: int|
                0 <= j < n ==> (#[trigger] assigned@[j]) == placed_before(
                    levels@,
                    levels@.len() as int,
                    j,
                ),
            forall|j: int|
                #![trigger assigned@[j]]
                0 <= j < n && !assigned@[j] ==> waits(g, levels@, j),
        decreases remaining,
    {
        let mut level: Vec<usize> = Vec::new();
        let ghost before = levels@;
        let ghost depth = levels@.len() as int;
        let mut idx: usize = 0;
        while idx < n
            invariant
                idx <= n,
                n == m@.len(),
                square(m@),
                g == matrix_graph(m@),
                assigned@.len() == n,
                forall|a: int, b: int|
                    0 <= a < b < level@.len() ==> (#[trigger] level@[a]) < (#[trigger] level@[b]),
                forall|a: int| 0 <= a < level@.len() ==> (#[trigger] level@[a]) < idx,
                forall|j: int|
                    #![trigger level@.contains(j as usize)]
                    0 <= j < idx ==> level@.contains(j as usize) == (!assigned@[j] && ready(g,
                        assigned@,
                        j,
                    )),
            decreases n - idx,
        {
            let mut free = !assigned[idx];
            if free {
                let mut d: usize = 0;
                while d < n && free
                    invariant
                        d <= n,
                        idx < n,
                        n == m@.len(),
                        square(m@),
                        g == matrix_graph(m@),
                        assigned@.len() == n,
                        free ==> forall|e: int|
                            0 <= e < d && #[trigger] edge(g, idx as int, e) ==> assigned@[e],
                        !free ==> !ready(g, assigned@, idx as int),
                    decreases n - d,
                {
                    assert(edge(g, idx as int, d as int) == m@[idx as int]@[d as int]);
                    if m[idx][d] && !assigned[d] {
                        free = false;
                    }
                    d = d + 1;
                }
            }
            let ghost so_far = level@;
            if free {
                level.push(idx);
                assert(level@[so_far.len() as int] == idx);
            }
            assert forall|j: int|
                #![trigger level@.contains(j as usize)]
                0 <= j < idx + 1 implies level@.contains(j as usize) == (!assigned@[j] && ready(g,
                assigned@,
                j,
            )) by {
                if j < idx {
                    assert(so_far.contains(j as usize) == (!assigned@[j] && ready(g,
                        assigned@,
                        j,
                    )));
                    if so_far.contains(j as usize) {
                        let a = so_far.index_of(j as usize);
                        assert(level@[a] == j as usize);
                    }
                    if level@.contains(j as usize) {
                        let a = level@.index_of(j as usize);
                        assert(so_far[a] == j as usize);
                    }
                } else {
                    if so_far.contains(idx) {
                        let a = so_far.index_of(idx);
                        assert(so_far[a] < idx);
                    }
                }
            }
            idx = idx + 1;
        }
        if level.len() == 0 {
            proof {
                let s = Set::new(|j: int| 0 <= j < n && !assigned@[j]);
                assert forall|j: int|
                    #![trigger assigned@[j]]
                    0 <= j < m@.len() implies assigned@[j] || !ready(g, assigned@, j) by {
                    assert(!level@.contains(j as usize));
                }
                nothing_ready_is_stuck(g, assigned@, s);
            }
            return None;
        }
        let ghost was = assigned@;
        let ghost picked = level@;
        assert forall|x: int| 0 <= x < level@.len() implies !was[(#[trigger] level@[x]) as int] by {
            let j = level@[x] as int;
            assert(level@.contains(j as usize));
        }
        let mut a: usize = 0;
        while a < level.len()
            invariant
                a <= level@.len(),
                level@ == picked,
                n == m@.len(),
                assigned@.len() == n,
                was.len() == n,
                forall|x: int, y: int|
                    0 <= x < y < level@.len() ==> (#[trigger] level@[x]) < (#[trigger] level@[y]),
                forall|x: int| 0 <= x < level@.len() ==> (#[trigger] level@[x]) < n,
                forall|x: int| 0 <= x < level@.len() ==> !was[(#[trigger] level@[x]) as int],
                remaining == count_open(assigned@),
                remaining + a == count_open(was),
                forall|j: int|
                    0 <= j < n ==> (#[trigger] assigned@[j]) == (was[j] || picked.take(
                        a as int,
                    ).contains(j as usize)),
            decreases level@.len() - a,
        {
            let at = level[a];
            let ghost prior = assigned@;
            assert(!prior[at as int]) by {
                if picked.take(a as int).contains(at) {
                    let x = picked.take(a as int).index_of(at);
                    assert(picked[x] < picked[a as int]);
                }
            }
            proof {
                close_one(prior, at as int);
            }
            assigned.set(at, true);
            remaining = remaining - 1;
            a = a + 1;
            assert forall|j: int| 0 <= j < n implies (#[trigger] assigned@[j]) == (was[j]
                || picked.take(a as int).contains(j as usize)) by {
                let now = picked.take(a as int);
                let then = picked.take(a - 1);
                if then.contains(j as usize) {
                    let x = then.index_of(j as usize);
                    assert(now[x] == j as usize);
                }
                if j == at {
                    assert(now[a - 1] == at);
                }
                if now.contains(j as usize) {
                    let x = now.index_of(j as usize);
                    if x < a - 1 {
                        assert(then[x] == j as usize);
                    }
                }
            }
        }
        assert(picked.take(a as int) =~= picked);
        levels.push(level);
        proof {
            let ls = levels@;
            assert forall|k: int, i: int| 0 <= k < depth implies #[trigger] in_level(ls, k, i)
                == in_level(before, k, i) by {}
            assert forall|k: int, i: int| 0 <= k <= depth implies #[trigger] placed_before(ls, k, i)
                == placed_before(before, k, i) by {
                if placed_before(ls, k, i) {
                    let l = choose|l: int| l < k && #[trigger] in_level(ls, l, i);
                    assert(in_level(before, l, i));
                }
                if placed_before(before, k, i) {
                    let l = choose|l: int| l < k && #[trigger] in_level(before, l, i);
                    assert(in_level(ls, l, i));
                }
            }
            assert forall|k: int| 0 <= k < ls.len() implies #[trigger] level_ok(g, ls, k) by {
                if k < depth {
                    assert(level_ok(g, before, k));
                    older_level_kept(g, before, ls, k);
                } else {
                    new_level_ok(g, before, ls, was);
                }
            }
            assert forall|j: int| 0 <= j < n implies (#[trigger] assigned@[j]) == placed_before(
                ls,
                ls.len() as int,
                j,
            ) by {
                if placed_before(ls, ls.len() as int, j) {
                    let l = choose|l: int| l < ls.len() && #[trigger] in_level(ls, l, j);
                    if l < depth {
                        assert(in_level(before, l, j));
                        assert(placed_before(before, depth, j));
                    } else {
                        assert(picked.contains(j as usize));
                    }
                }
                if was[j] {
                    let l = choose|l: int| l < depth && #[trigger] in_level(before, l, j);
                    assert(in_level(ls, l, j));
                }
                if picked.contains(j as usize) {
                    assert(in_level(ls, depth, j));
                }
            }
            assert forall|j: int|
                #![trigger assigned@[j]]
                0 <= j < n && !assigned@[j] implies waits(g, ls, j) by {
                assert(!was[j]);
                assert(!picked.contains(j as usize));
                assert(!ready(g, was, j));
                let e = choose|e: int| 0 <= e < n && #[trigger] edge(g, j, e) && !was[e];
                assert(edge(g, j, e));
                assert(!placed_before(before, depth, e));
                assert(!placed_before(ls, ls.len() - 1, e));
            }
        }
    }
    proof {
        assert forall|j: int| 0 <= j < n implies #[trigger] placed_before(
            levels@,
            levels@.len() as int,
            j,
        ) by {
            if !assigned@[j] {
                open_counts(assigned@, j);
            }
        }
    }
    Some(levels)
}

/// How many entries are still false.
spec fn count_open(a: Seq<bool>) -> nat
    decreases a.len(),
{
    if a.len() == 0 {
        0
    } else {
        count_open(a.drop_last()) + if a.last() {
            0nat
        } else {
            1nat
        }
    }
}

proof fn all_open(a: Seq<bool>)
    requires
        forall|j: int| 0 <= j < a.len() ==> !a[j],
    ensures
        count_open(a) == a.len(),
    decreases a.len(),
{
    if a.len() > 0 {
        all_open(a.drop_last());
    }
}

proof fn open_counts(a: Seq<bool>, j: int)
    requires
        0 <= j < a.len(),
        !a[j],
    ensures
        count_open(a) > 0,
    decreases a.len(),
{
    if j < a.len() - 1 {
        open_counts(a.drop_last(), j);
    }
}

proof fn close_one(a: Seq<bool>, j: int)
    requires
        0 <= j < a.len(),
        !a[j],
    ensures
        count_open(a.update(j, true)) + 1 == count_open(a),
    decreases a.len(),
{
    let b = a.update(j, true);
    if j < a.len() - 1 {
        close_one(a.drop_last(), j);
        assert(b.drop_last() =~= a.drop_last().update(j, true));
    } else {
        assert(b.drop_last() =~= a.drop_last());
    }
}

/// Whether everything that `i` needs is assigned.
spec fn ready(g: Graph, assigned: Seq<bool>, i: int) -> bool {
    forall|e: int| 0 <= e < g.n && #[trigger] edge(g, i, e) ==> assigned[e]
}

/// Whether a number that has no level yet needs something that is not in any
/// level but the last one, so that it could not have come earlier.
spec fn waits(g: Graph, levels: Seq<Vec<usize>>, j: int) -> bool {
    levels.len() == 0 || exists|e: int|
        #[trigger] edge(g, j, e) && !placed_before(levels, levels.len() - 1, e)
}

proof fn nothing_ready_is_stuck(g: Graph, assigned: Seq<bool>, s: Set<int>)
    requires
        bounded(g),
        assigned.len() == g.n,
        s == Set::new(|j: int| 0 <= j < g.n && !assigned[j]),
        count_open(assigned) > 0,
        forall|j: int| #![trigger assigned[j]] 0 <= j < g.n ==> assigned[j] || !ready(g, assigned, j),
    ensures
        stuck(g, s),
{
    let i = open_exists(assigned);
    assert(s.contains(i));
    assert forall|j: int| #[trigger] s.contains(j) implies 0 <= j < g.n && exists|k: int| #[trigger]
        s.contains(k) && edge(g, j, k) by {
        assert(!assigned[j]);
        let e = choose|e: int| 0 <= e < g.n && #[trigger] edge(g, j, e) && !assigned[e];
        assert(s.contains(e) && edge(g, j, e));
    }
}

proof fn open_exists(a: Seq<bool>) -> (i: int)
    requires
        count_open(a) > 0,
    ensures
        0 <= i < a.len(),
        !a[i],
    decreases a.len(),
{
    if !a.last() {
        a.len() - 1
    } else {
        open_exists(a.drop_last())
    }
}

proof fn older_level_kept(
    g: Graph,
    before: Seq<Vec<usize>>,
    ls: Seq<Vec<usize>>,
    k: int,
)
    requires
        0 <= k < before.len(),
        ls.len() == before.len() + 1,
        forall|x: int| 0 <= x < before.len() ==> ls[x] == before[x],
        level_ok(g, before, k),
    ensures
        level_ok(g, ls, k),
{
    assert forall|i: int| #[trigger] in_level(ls, k, i) implies in_level(before, k, i) by {}
    assert forall|x: int, i: int| x <= before.len() implies #[trigger] placed_before(ls, x, i)
        == placed_before(before, x, i) by {
        if placed_before(ls, x, i) {
            let l = choose|l: int| l < x && #[trigger] in_level(ls, l, i);
            assert(in_level(before, l, i));
        }
        if placed_before(before, x, i) {
            let l = choose|l: int| l < x && #[trigger] in_level(before, l, i);
            assert(in_level(ls, l, i));
        }
    }
    assert forall|i: int, j: int| #[trigger] in_level(ls, k, i) && #[trigger] edge(g, i, j) implies placed_before(
        ls,
        k,
        j,
    ) by {
        assert(in_level(before, k, i));
        assert(placed_before(before, k, j));
    }
    if k > 0 {
        assert forall|i: int| #[trigger] in_level(ls, k, i) implies exists|j: int|
            edge(g, i, j) && #[trigger] in_level(ls, k - 1, j) by {
            assert(in_level(before, k, i));
            let j = choose|j: int| edge(g, i, j) && #[trigger] in_level(before, k - 1, j);
            assert(in_level(ls, k - 1, j));
        }
    }
}

proof fn new_level_ok(
    g: Graph,
    before: Seq<Vec<usize>>,
    ls: Seq<Vec<usize>>,
    was: Seq<bool>,
)
    requires
        bounded(g),
        was.len() == g.n,
        g.n <= usize::MAX,
        ls.len() == before.len() + 1,
        forall|x: int| 0 <= x < before.len() ==> ls[x] == before[x],
        ls.last()@.len() > 0,
        forall|a: int, b: int|
            0 <= a < b < ls.last()@.len() ==> (#[trigger] ls.last()@[a]) < (#[trigger] ls.last()@[b]),
        forall|a: int| 0 <= a < ls.last()@.len() ==> (#[trigger] ls.last()@[a]) < g.n,
        forall|j: int|
            #![trigger ls.last()@.contains(j as usize)]
            0 <= j < g.n ==> ls.last()@.contains(j as usize) == (!was[j] && ready(g, was, j)),
        forall|j: int|
            0 <= j < g.n ==> (#[trigger] was[j]) == placed_before(before, before.len() as int, j),
        forall|j: int|
            #![trigger was[j]]
            0 <= j < g.n && !was[j] ==> waits(g, before, j),
    ensures
        level_ok(g, ls, before.len() as int),
{
    let k = before.len() as int;
    assert forall|i: int| #[trigger] in_level(ls, k, i) implies i < g.n by {
        let a = ls[k]@.index_of(i as usize);
        assert(ls.last()@[a] == i as usize);
    }
    assert forall|x: int, i: int| x <= before.len() implies #[trigger] placed_before(ls, x, i)
        == placed_before(before, x, i) by {
        if placed_before(ls, x, i) {
            let l = choose|l: int| l < x && #[trigger] in_level(ls, l, i);
            assert(in_level(before, l, i));
        }
        if placed_before(before, x, i) {
            let l = choose|l: int| l < x && #[trigger] in_level(before, l, i);
            assert(in_level(ls, l, i));
        }
    }
    assert forall|i: int| #[trigger] in_level(ls, k, i) implies !placed_before(ls, k, i) by {
        assert(ls.last()@.contains(i as usize));
        assert(!was[i]);
    }
    assert forall|i: int, j: int| #[trigger] in_level(ls, k, i) && #[trigger] edge(g, i, j) implies placed_before(
        ls,
        k,
        j,
    ) by {
        assert(ls.last()@.contains(i as usize));
        assert(ready(g, was, i));
        assert(was[j]);
    }
    if k > 0 {
        assert forall|i: int| #[trigger] in_level(ls, k, i) implies exists|j: int|
            edge(g, i, j) && #[trigger] in_level(ls, k - 1, j) by {
            assert(ls.last()@.contains(i as usize));
            assert(!was[i]);
            assert(waits(g, before, i));
            let e = choose|e: int|
                #[trigger] edge(g, i, e) && !placed_before(before, before.len() - 1, e);
            assert(ready(g, was, i));
            assert(was[e]);
            assert(placed_before(before, before.len() as int, e));
            let l = choose|l: int| l < before.len() && #[trigger] in_level(before, l, e);
            assert(l == k - 1);
            assert(in_level(ls, k - 1, e));
        }
    }
}

// ---------------------------------------------------------------------
// Levels of a workflow
// ---------------------------------------------------------------------

/// Whether step `i` needs step `j` in an earlier level: `j` is what its name
/// stands for, and `i` reads it while it runs or while its result is routed.
pub open spec fn level_needs(w: Workflow, i: int, j: int) -> bool {
    &&& 0 <= i < w.steps@.len()
    &&& is_step_named(w.steps@, w.steps@[j].step_id@, j)
    &&& {
        ||| routing_reads(w, w.steps@[i], w.steps@[j].step_id@)
        ||| reads_step(w.steps@[i], w.steps@[j].step_id@)
    }
}

/// The dependencies between the steps of a workflow.
pub open spec fn workflow_graph(w: Workflow) -> Graph {
    Graph { n: w.steps@.len(), edges: Set::new(|p: (int, int)| level_needs(w, p.0, p.1)) }
}

pub open spec fn cycle_error(w: Workflow) -> ErrorView {
    ErrorView {
        kind: RuntimeErrorKind::DependencyCycle,
        message: "dependency cycle detected in workflow \""@ + w.workflow_id@ + "\""@,
    }
}

/// Groups the steps of a workflow into levels: each step in the first level
/// behind everything it needs. Where steps wait for each other there are no
/// levels.
pub fn build_levels(workflow: &Workflow) -> (r: Result<Vec<Vec<usize>>, RuntimeError>)
    ensures
        match r {
            Ok(levels) => levels_ok(workflow_graph(*workflow), levels@),
            Err(e) => e@ == cycle_error(*workflow) && exists|s: Set<int>|
                stuck(workflow_graph(*workflow), s),
        },
{
    let n: usize = workflow.steps.len();
    let ghost g = workflow_graph(*workflow);
    let mut matrix: Vec<Vec<bool>> = Vec::new();
    let mut i: usize = 0;
    while i < n
        invariant
            i <= n,
            n == workflow.steps@.len(),
            g == workflow_graph(*workflow),
            matrix@.len() == i,
            forall|a: int| 0 <= a < i ==> (#[trigger] matrix@[a])@.len() == n,
            forall|a: int, b: int|
                0 <= a < i && 0 <= b < n ==> #[trigger] matrix@[a]@[b] == level_needs(
                    *workflow,
                    a,
                    b,
                ),
        decreases n - i,
    {
        let step = &workflow.steps[i];
        let routing = routing_refs(workflow, step);
        let reading = execution_refs(step);
        let mut row: Vec<bool> = Vec::new();
        let mut j: usize = 0;
        while j < n
            invariant
                j <= n,
                i < n,
                n == workflow.steps@.len(),
                *step == workflow.steps@[i as int],
                forall|x: Seq<char>| #[trigger]
                    routing@.dom().contains(x) == routing_reads(*workflow, *step, x),
                forall|x: Seq<char>| #[trigger]
                    reading@.dom().contains(x) == reads_step(*step, x),
                row@.len() == j,
                forall|b: int|
                    0 <= b < j ==> #[trigger] row@[b] == level_needs(*workflow, i as int, b),
            decreases n - j,
        {
            let name = workflow.steps[j].step_id.as_str();
            let stands = match step_index(&workflow.steps, name) {
                Some(k) => k == j,
                None => false,
            };
            proof {
                assert(routing@.dom().contains(name@) == routing_reads(*workflow, *step, name@));
                assert(reading@.dom().contains(name@) == reads_step(*step, name@));
                assert(step_exists(workflow.steps@, name@)) by {
                    assert(workflow.steps@[j as int].step_id@ == name@);
                }
            }
            let needed = stands && (routing.contains_key(name) || reading.contains_key(name));
            row.push(needed);
            j = j + 1;
        }
        matrix.push(row);
        i = i + 1;
    }
    assert(matrix_graph(matrix@) =~= g) by {
        assert forall|p: (int, int)| matrix_graph(matrix@).edges.contains(p) == g.edges.contains(
            p,
        ) by {
            if 0 <= p.0 < n && 0 <= p.1 < n {
                assert(matrix@[p.0]@[p.1] == level_needs(*workflow, p.0, p.1));
            }
        }
        assert(matrix_graph(matrix@).edges =~= g.edges);
    }
    match level_graph(&matrix) {
        Some(levels) => Ok(levels),
        None => Err(
            RuntimeError::new(
                RuntimeErrorKind::DependencyCycle,
                concat3(
                    "dependency cycle detected in workflow \"",
                    workflow.workflow_id.as_str(),
                    "\"",
                ),
            ),
        ),
    }
}

/// Whether step `i` refers to step `j`.
pub open spec fn refers_to(w: Workflow, i: int, j: int) -> bool {
    &&& 0 <= i < w.steps@.len()
    &&& is_step_named(w.steps@, w.steps@[j].step_id@, j)
    &&& declares_ref(w.steps@[i], w.steps@[j].step_id@)
}

/// Whether `s` holds every step that step `target` or a step of `s` refers
/// to, but for `target` itself.
pub open spec fn closed_under_refs(w: Workflow, target: int, s: Set<usize>) -> bool {
    forall|i: int, j: int|
        #![trigger refers_to(w, i, j)]
        refers_to(w, i, j) && (i == target || s.contains(i as usize)) && j != target ==> s.contains(
            j as usize,
        )
}

/// Whether `s` is what step `target` needs: the least set that is closed
/// under references, without `target` itself.
pub open spec fn needed_by(w: Workflow, target: int, s: Set<usize>) -> bool {
    &&& forall|i: usize| s.contains(i) ==> i < w.steps@.len() && i != target
    &&& closed_under_refs(w, target, s)
    &&& forall|t: Set<usize>| #[trigger] closed_under_refs(w, target, t) ==> s.subset_of(t)
}

pub open spec fn step_not_found(step_id: Seq<char>, workflow_id: Seq<char>) -> ErrorView {
    ErrorView {
        kind: RuntimeErrorKind::StepNotFound,
        message: "step \""@ + step_id + "\" not found in workflow \""@ + workflow_id + "\""@,
    }
}

/// Adds the steps that a step refers to and that are new to the queue.
fn visit_refs(
    workflow: &Workflow,
    target: usize,
    idx: usize,
    visited: &mut BTreeSet<usize>,
    queue: &mut Vec<usize>,
)
    requires
        idx < workflow.steps@.len(),
        target < workflow.steps@.len(),
        forall|x: usize| old(visited)@.contains(x) ==> x < workflow.steps@.len() && x != target,
    ensures
        forall|x: usize|
            #![trigger final(visited)@.contains(x)]
            final(visited)@.contains(x) == (old(visited)@.contains(x) || (refers_to(
                *workflow,
                idx as int,
                x as int,
            ) && x != target && x < workflow.steps@.len())),
        old(queue)@.is_prefix_of(final(queue)@),
        forall|x: usize|
            #![trigger final(visited)@.contains(x)]
            final(visited)@.contains(x) && !old(visited)@.contains(x) ==> final(queue)@.skip(
                old(queue)@.len() as int,
            ).contains(x),
        forall|k: int|
            old(queue)@.len() <= k < final(queue)@.len() ==> final(visited)@.contains(
                #[trigger] final(queue)@[k],
            ) && !old(visited)@.contains(final(queue)@[k]),
        forall|a: int, b: int|
            old(queue)@.len() <= a < b < final(queue)@.len() ==> (#[trigger] final(queue)@[a]) != (
            #[trigger] final(queue)@[b]),
{
    broadcast use vstd::std_specs::btree::group_btree_axioms;

    let refs = declared_refs(&workflow.steps[idx]);
    let ghost was = visited@;
    let ghost base = queue@.len() as int;
    let ghost start = queue@;
    let n: usize = workflow.steps.len();
    let mut j: usize = 0;
    while j < n
        invariant
            j <= n,
            n == workflow.steps@.len(),
            idx < n,
            base == start.len(),
            base <= queue@.len(),
            forall|k: int| 0 <= k < base ==> queue@[k] == start[k],
            forall|x: Seq<char>| #[trigger]
                refs@.dom().contains(x) == declares_ref(workflow.steps@[idx as int], x),
            forall|x: usize|
                #![trigger visited@.contains(x)]
                visited@.contains(x) == (was.contains(x) || (refers_to(
                    *workflow,
                    idx as int,
                    x as int,
                ) && x != target && x < j)),
            forall|x: usize|
                #![trigger visited@.contains(x)]
                visited@.contains(x) && !was.contains(x) ==> queue@.skip(base).contains(x),
            forall|k: int|
                base <= k < queue@.len() ==> visited@.contains(#[trigger] queue@[k])
                    && !was.contains(queue@[k]) && queue@[k] < j,
            forall|a: int, b: int|
                base <= a < b < queue@.len() ==> (#[trigger] queue@[a]) != (#[trigger] queue@[b]),
        decreases n - j,
    {
        let name = workflow.steps[j].step_id.as_str();
        let stands = match step_index(&workflow.steps, name) {
            Some(k) => k == j,
            None => false,
        };
        proof {
            assert(refs@.dom().contains(name@) == declares_ref(
                workflow.steps@[idx as int],
                name@,
            ));
            assert(step_exists(workflow.steps@, name@)) by {
                assert(workflow.steps@[j as int].step_id@ == name@);
            }
        }
        let ghost before = visited@;
        let ghost q = queue@;
        if stands && j != target && refs.contains_key(name) {
            if visited.insert(j) {
                queue.push(j);
                assert forall|x: usize| visited@.contains(x) && !was.contains(x) implies queue@.skip(
                    base,
                ).contains(x) by {
                    if x == j {
                        assert(queue@.skip(base)[q.len() - base] == j);
                    } else {
                        assert(before.contains(x));
                        let p = q.skip(base).index_of(x);
                        assert(queue@.skip(base)[p] == x);
                    }
                }
            }
        }
        j = j + 1;
    }
    assert(start.is_prefix_of(queue@)) by {
        assert(start =~= queue@.take(base));
    }
}

/// Distinct numbers below `n` are at most `n` in number.
proof fn distinct_below(s: Seq<usize>, n: nat)
    requires
        forall|a: int, b: int| 0 <= a < b < s.len() ==> (#[trigger] s[a]) != (#[trigger] s[b]),
        forall|a: int| 0 <= a < s.len() ==> (#[trigger] s[a]) < n,
    ensures
        s.len() <= n,
    decreases n,
{
    if n > 0 && s.len() > 0 {
        let top = (n - 1) as nat;
        if exists|a: int| 0 <= a < s.len() && s[a] == top {
            let a = choose|a: int| 0 <= a < s.len() && s[a] == top;
            let t = s.remove(a);
            assert forall|x: int, y: int| 0 <= x < y < t.len() implies (#[trigger] t[x]) != (
            #[trigger] t[y]) by {
                let p = if x < a { x } else { x + 1 };
                let q = if y < a { y } else { y + 1 };
                assert(s[p] != s[q]);
            }
            assert forall|x: int| 0 <= x < t.len() implies (#[trigger] t[x]) < top by {
                let p = if x < a { x } else { x + 1 };
                assert(s[p] < n);
                if p < a {
                    assert(s[p] != s[a]);
                } else {
                    assert(s[a] != s[p]);
                }
            }
            distinct_below(t, top);
        } else {
            assert forall|x: int| 0 <= x < s.len() implies (#[trigger] s[x]) < top by {
                assert(s[x] < n);
            }
            distinct_below(s, top);
        }
    } else if s.len() > 0 {
        assert(s[0] < n);
    }
}

/// The steps that a step needs, through however many references, without the
/// step itself.
pub fn compute_transitive_deps(workflow: &Workflow, target_step_id: &str) -> (r: Result<
    BTreeSet<usize>,
    RuntimeError,
>)
    ensures
        match r {
            Ok(s) => step_exists(workflow.steps@, target_step_id@) && forall|t: int|
                is_step_named(workflow.steps@, target_step_id@, t) ==> #[trigger] needed_by(
                    *workflow,
                    t,
                    s@,
                ),
            Err(e) => !step_exists(workflow.steps@, target_step_id@) && e@ == step_not_found(
                target_step_id@,
                workflow.workflow_id@,
            ),
        },
{
    broadcast use vstd::std_specs::btree::group_btree_axioms;

    let target = match step_index(&workflow.steps, target_step_id) {
        Some(t) => t,
        None => {
            return Err(
                RuntimeError::new(
                    RuntimeErrorKind::StepNotFound,
                    concat5(
                        "step \"",
                        target_step_id,
                        "\" not found in workflow \"",
                        workflow.workflow_id.as_str(),
                        "\"",
                    ),
                ),
            );
        },
    };
    let n: usize = workflow.steps.len();
    let mut visited: BTreeSet<usize> = BTreeSet::new();
    let mut queue: Vec<usize> = Vec::new();
    queue.push(target);
    let mut head: usize = 0;
    while head < queue.len()
        invariant
            n == workflow.steps@.len(),
            target < n,
            0 < queue@.len(),
            head <= queue@.len() <= n,
            queue@[0] == target,
            forall|k: int| 0 <= k < queue@.len() ==> (#[trigger] queue@[k]) < n,
            forall|a: int, b: int|
                0 <= a < b < queue@.len() ==> (#[trigger] queue@[a]) != (#[trigger] queue@[b]),
            forall|x: usize| visited@.contains(x) ==> x < n && x != target,
            forall|x: usize| visited@.contains(x) ==> queue@.contains(x),
            forall|k: int| 0 < k < queue@.len() ==> visited@.contains(#[trigger] queue@[k]),
            forall|k: int, j: int|
                #![trigger refers_to(*workflow, queue@[k] as int, j)]
                0 <= k < head && refers_to(*workflow, queue@[k] as int, j) && j != target
                    ==> visited@.contains(j as usize),
            forall|t: Set<usize>| #[trigger]
                closed_under_refs(*workflow, target as int, t) ==> visited@.subset_of(t),
        decreases n - head,
    {
        let idx = queue[head];
        let ghost seen = visited@;
        let ghost q = queue@;
        visit_refs(workflow, target, idx, &mut visited, &mut queue);
        proof {
            let w = *workflow;
            assert forall|k: int| 0 <= k < q.len() implies queue@[k] == q[k] by {
                assert(q =~= queue@.take(q.len() as int));
            }
            assert forall|k: int| 0 <= k < queue@.len() implies (#[trigger] queue@[k]) < n by {
                if k >= q.len() {
                    assert(visited@.contains(queue@[k]));
                } else {
                    assert(q[k] < n);
                }
            }
            assert forall|a: int, b: int| 0 <= a < b < queue@.len() implies (#[trigger] queue@[a])
                != (#[trigger] queue@[b]) by {
                if b < q.len() {
                    assert(q[a] != q[b]);
                } else if a < q.len() {
                    assert(!seen.contains(queue@[b]));
                    assert(visited@.contains(queue@[b]));
                    if a > 0 {
                        assert(seen.contains(q[a]));
                    }
                }
            }
            distinct_below(queue@, n as nat);
            assert forall|k: int| 0 < k < queue@.len() implies visited@.contains(
                #[trigger] queue@[k],
            ) by {
                if k < q.len() {
                    assert(seen.contains(q[k]));
                }
            }
            assert forall|x: usize| visited@.contains(x) implies queue@.contains(x) by {
                if seen.contains(x) {
                    let k = q.index_of(x);
                    assert(queue@[k] == x);
                } else {
                    let k = queue@.skip(q.len() as int).index_of(x);
                    assert(queue@[q.len() + k] == x);
                }
            }
            assert forall|k: int, j: int|
                #![trigger refers_to(w, queue@[k] as int, j)]
                0 <= k < head + 1 && refers_to(w, queue@[k] as int, j) && j
                    != target implies visited@.contains(j as usize) by {
                assert(0 <= j < n);
                let x = j as usize;
                if k < head {
                    assert(refers_to(w, q[k] as int, j));
                    assert(seen.contains(x));
                    assert(visited@.contains(x));
                } else {
                    assert(refers_to(w, idx as int, x as int));
                    assert(visited@.contains(x));
                }
            }
            assert forall|t: Set<usize>| #[trigger] closed_under_refs(
                w,
                target as int,
                t,
            ) implies visited@.subset_of(t) by {
                assert(seen.subset_of(t));
                assert forall|x: usize| visited@.contains(x) implies t.contains(x) by {
                    if !seen.contains(x) {
                        assert(refers_to(w, idx as int, x as int));
                        if head > 0 {
                            assert(seen.contains(q[head as int]));
                            assert(t.contains(idx));
                        }
                        assert(t.contains((x as int) as usize));
                    }
                }
            }
        }
        head = head + 1;
    }
    proof {
        let w = *workflow;
        assert forall|i: int, j: int|
            #![trigger refers_to(w, i, j)]
            refers_to(w, i, j) && (i == target || visited@.contains(i as usize)) && j
                != target implies visited@.contains(j as usize) by {
            if i == target {
                assert(refers_to(w, queue@[0] as int, j));
            } else {
                let k = queue@.index_of(i as usize);
                assert(queue@[k] == i as usize);
                assert(refers_to(w, queue@[k] as int, j));
            }
        }
        assert(needed_by(w, target as int, visited@));
        assert forall|t: int| is_step_named(w.steps@, target_step_id@, t) implies #[trigger] needed_by(
            w,
            t,
            visited@,
        ) by {
            if t < target {
                assert(w.steps@[target as int].step_id@ == target_step_id@);
            } else if t > target {
                assert(w.steps@[t].step_id@ == target_step_id@);
            }
        }
    }
    Ok(visited)
}

// ---------------------------------------------------------------------
// What keeps a workflow out of levels
// ---------------------------------------------------------------------

/// Why a workflow runs one step after the other though levels were asked for.
#[derive(Debug, Clone, Copy, PartialEq, Eq, Structural)]
pub enum SequentialFallbackReason {
    Debugger,
    SingleStep,
    SubWorkflowStep,
    ControlFlowAction,
    RetryReference,
}

/// A declaration that keeps a workflow out of levels: why, the step that makes
/// it, empty for one of the workflow itself, and the rest of the sentence
/// "runs sequentially because".
#[derive(Debug, PartialEq)]
pub struct ParallelBlocker {
    pub reason: SequentialFallbackReason,
    pub step_id: String,
    pub detail: String,
}

/// The content of a blocker.
#[verifier::ext_equal]
pub struct BlockerView {
    pub reason: SequentialFallbackReason,
    pub step_id: Seq<char>,
    pub detail: Seq<char>,
}

impl View for ParallelBlocker {
    type V = BlockerView;

    open spec fn view(&self) -> BlockerView {
        BlockerView { reason: self.reason, step_id: self.step_id@, detail: self.detail@ }
    }
}

/// Whether a retry runs nothing but its own step again.
pub open spec fn plain_retry(action: OnAction) -> bool {
    action.type_ == ActionType::Retry && action.step_id@.len() == 0 && action.workflow_id@.len()
        == 0
}

/// Whether a retry runs nothing but its own step again.
pub fn is_plain_retry(action: &OnAction) -> (r: bool)
    ensures
        r == plain_retry(*action),
{
    action.type_ == ActionType::Retry && action.step_id.as_str().is_empty()
        && action.workflow_id.as_str().is_empty()
}

/// The first action at or after `from` that moves execution elsewhere: any
/// success action, and every failure action but a plain retry.
pub open spec fn first_blocking(actions: Seq<OnAction>, branch: ActionBranch, from: int) -> int
    decreases actions.len() - from,
{
    if from >= actions.len() {
        actions.len() as int
    } else if branch == ActionBranch::Success || !plain_retry(actions[from]) {
        from
    } else {
        first_blocking(actions, branch, from + 1)
    }
}

/// Where a list of actions is declared.
#[derive(Debug)]
pub enum ActionListSite<'a> {
    Step { step_id: &'a str, branch: ActionBranch },
    Workflow { branch: ActionBranch },
}

/// The content of a site: the step, where there is one, and the branch.
pub open spec fn site_view(site: ActionListSite) -> (Option<Seq<char>>, ActionBranch) {
    match site {
        ActionListSite::Step { step_id, branch } => (Some(step_id@), branch),
        ActionListSite::Workflow { branch } => (None, branch),
    }
}

/// How a message names the list.
pub open spec fn list_subject(step_id: Option<Seq<char>>, branch: ActionBranch) -> Seq<char> {
    match step_id {
        Some(id) => "step \""@ + id + "\" has an "@ + branch_label(branch) + " action"@,
        None => "the workflow's "@ + (match branch {
            ActionBranch::Success => "successActions"@,
            ActionBranch::Failure => "failureActions"@,
        }) + " include an action"@,
    }
}

/// The blocker that an action is.
pub open spec fn action_blocker(
    action: OnAction,
    step_id: Option<Seq<char>>,
    branch: ActionBranch,
) -> BlockerView {
    let start = list_subject(step_id, branch) + " of type \""@ + action_type_name(action.type_)
        + "\""@;
    let id = match step_id {
        Some(id) => id,
        None => Seq::empty(),
    };
    if branch == ActionBranch::Failure && action.type_ == ActionType::Retry {
        BlockerView {
            reason: SequentialFallbackReason::RetryReference,
            step_id: id,
            detail: if action.step_id@.len() == 0 {
                start + " with a workflowId, which runs another workflow before retrying"@
            } else {
                start + " with a stepId, which runs another step before retrying"@
            },
        }
    } else {
        BlockerView {
            reason: SequentialFallbackReason::ControlFlowAction,
            step_id: id,
            detail: start + ", which redirects control flow"@,
        }
    }
}

/// The blocker that a list of actions holds.
pub open spec fn list_blocker(
    actions: Seq<OnAction>,
    step_id: Option<Seq<char>>,
    branch: ActionBranch,
) -> Option<BlockerView> {
    let i = first_blocking(actions, branch, 0);
    if i < actions.len() {
        Some(action_blocker(actions[i], step_id, branch))
    } else {
        None
    }
}

/// Whether `r` is this blocker, or none.
pub open spec fn is_blocker(r: Option<ParallelBlocker>, v: Option<BlockerView>) -> bool {
    match r {
        Some(b) => v == Some(b@),
        None => v is None,
    }
}

/// The blocker that a list of actions holds.
pub fn action_list_blocker(actions: &Vec<OnAction>, site: ActionListSite) -> (r: Option<
    ParallelBlocker,
>)
    ensures
        is_blocker(r, list_blocker(actions@, site_view(site).0, site_view(site).1)),
{
    let branch = match site {
        ActionListSite::Step { step_id: _, branch } => branch,
        ActionListSite::Workflow { branch } => branch,
    };
    let mut i: usize = 0;
    while i < actions.len() && !(branch == ActionBranch::Success || !is_plain_retry(&actions[i]))
        invariant
            i <= actions@.len(),
            first_blocking(actions@, branch, 0) == first_blocking(actions@, branch, i as int),
        decreases actions@.len() - i,
    {
        i = i + 1;
    }
    if i >= actions.len() {
        return None;
    }
    let action = &actions[i];
    let (step_id, subject) = match site {
        ActionListSite::Step { step_id, branch } => (
            step_id.to_owned(),
            concat5("step \"", step_id, "\" has an ", branch.label(), " action"),
        ),
        ActionListSite::Workflow { branch } => {
            let list = match branch {
                ActionBranch::Success => "successActions",
                ActionBranch::Failure => "failureActions",
            };
            (String::new(), concat3("the workflow's ", list, " include an action"))
        },
    };
    let mut detail = subject;
    detail.append(" of type \"");
    detail.append(action.type_.name());
    detail.append("\"");
    if branch == ActionBranch::Failure && action.type_ == ActionType::Retry {
        if action.step_id.as_str().is_empty() {
            detail.append(" with a workflowId, which runs another workflow before retrying");
        } else {
            detail.append(" with a stepId, which runs another step before retrying");
        }
        Some(ParallelBlocker { reason: SequentialFallbackReason::RetryReference, step_id, detail })
    } else {
        detail.append(", which redirects control flow");
        Some(
            ParallelBlocker { reason: SequentialFallbackReason::ControlFlowAction, step_id, detail },
        )
    }
}

/// The blocker that a step is or holds: a call of a workflow, else its success
/// actions, else its failure actions.
pub open spec fn step_blocker(step: Step) -> Option<BlockerView> {
    match step.target {
        Some(StepTarget::WorkflowId(target)) => Some(
            BlockerView {
                reason: SequentialFallbackReason::SubWorkflowStep,
                step_id: step.step_id@,
                detail: "step \""@ + step.step_id@ + "\" calls workflow \""@ + target@ + "\""@,
            },
        ),
        _ => match list_blocker(step.on_success@, Some(step.step_id@), ActionBranch::Success) {
            Some(b) => Some(b),
            None => list_blocker(step.on_failure@, Some(step.step_id@), ActionBranch::Failure),
        },
    }
}

/// The first blocker of the steps at or after `from`.
pub open spec fn steps_blocker(steps: Seq<Step>, from: int) -> Option<BlockerView>
    decreases steps.len() - from,
{
    if from >= steps.len() {
        None
    } else {
        match step_blocker(steps[from]) {
            Some(b) => Some(b),
            None => steps_blocker(steps, from + 1),
        }
    }
}

/// The first declaration that keeps a workflow out of levels: of its steps in
/// order, then of its own action lists.
pub open spec fn workflow_blocker(w: Workflow) -> Option<BlockerView> {
    match steps_blocker(w.steps@, 0) {
        Some(b) => Some(b),
        None => match list_blocker(w.success_actions@, None, ActionBranch::Success) {
            Some(b) => Some(b),
            None => list_blocker(w.failure_actions@, None, ActionBranch::Failure),
        },
    }
}

/// The first declaration that keeps a workflow out of levels.
pub fn parallel_blocker(workflow: &Workflow) -> (r: Option<ParallelBlocker>)
    ensures
        is_blocker(r, workflow_blocker(*workflow)),
{
    let mut i: usize = 0;
    while i < workflow.steps.len()
        invariant
            i <= workflow.steps@.len(),
            steps_blocker(workflow.steps@, 0) == steps_blocker(workflow.steps@, i as int),
        decreases workflow.steps@.len() - i,
    {
        let step = &workflow.steps[i];
        match &step.target {
            Some(StepTarget::WorkflowId(target)) => {
                return Some(
                    ParallelBlocker {
                        reason: SequentialFallbackReason::SubWorkflowStep,
                        step_id: step.step_id.clone(),
                        detail: concat5(
                            "step \"",
                            step.step_id.as_str(),
                            "\" calls workflow \"",
                            target.as_str(),
                            "\"",
                        ),
                    },
                );
            },
            _ => {},
        }
        let succeeding = action_list_blocker(
            &step.on_success,
            ActionListSite::Step { step_id: step.step_id.as_str(), branch: ActionBranch::Success },
        );
        if succeeding.is_some() {
            return succeeding;
        }
        let failing = action_list_blocker(
            &step.on_failure,
            ActionListSite::Step { step_id: step.step_id.as_str(), branch: ActionBranch::Failure },
        );
        if failing.is_some() {
            return failing;
        }
        i = i + 1;
    }
    let succeeding = action_list_blocker(
        &workflow.success_actions,
        ActionListSite::Workflow { branch: ActionBranch::Success },
    );
    if succeeding.is_some() {
        return succeeding;
    }
    action_list_blocker(
        &workflow.failure_actions,
        ActionListSite::Workflow { branch: ActionBranch::Failure },
    )
}

} // verus!
