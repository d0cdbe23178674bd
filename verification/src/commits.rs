//! Commit ancestry over a finite commit graph.
//!
//! A version-control history is an acyclic graph of commits, each pointing at
//! zero or more parents. The library works on a numbered snapshot of such a
//! history: commit `i`'s parents all carry indices smaller than `i`, which any
//! finite acyclic history admits (number the commits in a topological order).
use vstd::prelude::*;

verus! {

/// A snapshot of a commit history: `parents[i]` lists the parents of commit
/// `i`, each strictly smaller than `i`.
pub struct CommitGraph {
    pub parents: Vec<Vec<usize>>,
}

impl CommitGraph {
    /// Parents always point at earlier commits: the history is acyclic.
    pub open spec fn wf(self) -> bool {
        forall|i: int, j: int|
            0 <= i < self.parents@.len() && 0 <= j < self.parents@[i]@.len() ==> (
            self.parents@[i]@[j] as int) < i
    }

    /// The number of commits in the snapshot.
    pub open spec fn spec_len(self) -> nat {
        self.parents@.len()
    }
}

/// Commit `b` can be reached from commit `a` by following zero or more parent
/// links.
pub open spec fn reachable(g: CommitGraph, a: int, b: int) -> bool
    decreases a,
    when g.wf() && 0 <= a < g.spec_len()
{
    a == b || exists|j: int|
        0 <= j < g.parents@[a]@.len() && reachable(g, g.parents@[a]@[j] as int, b)
}

/// There is a link from commit `x` straight to its parent `y`.
pub open spec fn parent_link(g: CommitGraph, x: int, y: int) -> bool {
    &&& 0 <= x < g.spec_len()
    &&& exists|j: int| 0 <= j < g.parents@[x]@.len() && g.parents@[x]@[j] as int == y
}

/// Step `i` of the walk `c` follows one parent link.
pub open spec fn chain_linked(g: CommitGraph, c: Seq<int>, i: int) -> bool {
    parent_link(g, c[i], c[i + 1])
}

/// `c` walks parent links: each element is followed by one of its parents.
pub open spec fn is_parent_chain(g: CommitGraph, c: Seq<int>) -> bool {
    &&& c.len() >= 1
    &&& forall|i: int| 0 <= i < c.len() - 1 ==> #[trigger] chain_linked(g, c, i)
}

/// Every commit reaches itself by zero parent links.
pub proof fn lemma_reachable_self(g: CommitGraph, a: int)
    requires
        g.wf(),
        0 <= a < g.spec_len(),
    ensures
        reachable(g, a, a),
{
}

/// Reachability is exactly the existence of a chain of parent links: `b` is
/// reachable from `a` if and only if some walk over parent links starts at
/// `a` and ends at `b`.
pub proof fn lemma_reachable_iff_chain(g: CommitGraph, a: int, b: int)
    requires
        g.wf(),
        0 <= a < g.spec_len(),
    ensures
        reachable(g, a, b) <==> exists|c: Seq<int>|
            is_parent_chain(g, c) && c.first() == a && c.last() == b,
{
    if reachable(g, a, b) {
        lemma_reachable_implies_chain(g, a, b);
    }
    if exists|c: Seq<int>| is_parent_chain(g, c) && c.first() == a && c.last() == b {
        let c = choose|c: Seq<int>| is_parent_chain(g, c) && c.first() == a && c.last() == b;
        lemma_chain_implies_reachable(g, c);
    }
}

proof fn lemma_reachable_implies_chain(g: CommitGraph, a: int, b: int)
    requires
        g.wf(),
        0 <= a < g.spec_len(),
        reachable(g, a, b),
    ensures
        exists|c: Seq<int>| is_parent_chain(g, c) && c.first() == a && c.last() == b,
    decreases a,
{
    if a == b {
        let c = seq![a];
        assert(is_parent_chain(g, c) && c.first() == a && c.last() == b);
    } else {
        let j = choose|j: int|
            0 <= j < g.parents@[a]@.len() && reachable(g, g.parents@[a]@[j] as int, b);
        let p = g.parents@[a]@[j] as int;
        lemma_reachable_implies_chain(g, p, b);
        let c0 = choose|c: Seq<int>| is_parent_chain(g, c) && c.first() == p && c.last() == b;
        let c = seq![a] + c0;
        assert(parent_link(g, a, p));
        assert forall|i: int| 0 <= i < c.len() - 1 implies #[trigger] chain_linked(g, c, i) by {
            if i == 0 {
                assert(c[0] == a && c[1] == c0[0] && c0[0] == c0.first());
            } else {
                assert(chain_linked(g, c0, i - 1));
                assert(c[i] == c0[i - 1] && c[i + 1] == c0[i]);
            }
        }
        assert(c.last() == c0.last());
        assert(is_parent_chain(g, c) && c.first() == a && c.last() == b);
    }
}

proof fn lemma_chain_implies_reachable(g: CommitGraph, c: Seq<int>)
    requires
        g.wf(),
        is_parent_chain(g, c),
        0 <= c.first() < g.spec_len(),
    ensures
        reachable(g, c.first(), c.last()),
    decreases c.len(),
{
    if c.len() == 1 {
    } else {
        assert(chain_linked(g, c, 0));
        assert(parent_link(g, c[0], c[1]));
        let j = choose|j: int|
            0 <= j < g.parents@[c[0]]@.len() && g.parents@[c[0]]@[j] as int == c[1];
        assert(0 <= c[1] < g.spec_len()) by {
            assert((g.parents@[c[0]]@[j] as int) < c[0]);
        }
        let c1 = c.skip(1);
        assert forall|i: int| 0 <= i < c1.len() - 1 implies #[trigger] chain_linked(g, c1, i) by {
            assert(chain_linked(g, c, i + 1));
            assert(c1[i] == c[i + 1] && c1[i + 1] == c[i + 2]);
        }
        lemma_chain_implies_reachable(g, c1);
        assert(c1.first() == c[1] && c1.last() == c.last());
    }
}

/// Whether `target` is an ancestor of (or equal to) `search`: a depth-first
/// walk backward over parent links.
pub fn contains_commit(g: &CommitGraph, search: usize, target: usize) -> (r: bool)
    requires
        g.wf(),
        search < g.spec_len(),
        target < g.spec_len(),
    ensures
        r == reachable(*g, search as int, target as int),
    decreases search,
{
    if search == target {
        return true;
    }
    let n = g.parents[search].len();
    let mut j: usize = 0;
    while j < n
        invariant
            g.wf(),
            search < g.spec_len(),
            target < g.spec_len(),
            search != target,
            n == g.parents@[search as int]@.len(),
            j <= n,
            forall|k: int| 0 <= k < j
                ==> !reachable(*g, g.parents@[search as int]@[k] as int, target as int),
        decreases n - j,
    {
        let p = g.parents[search][j];
        assert((p as int) < search as int);
        if contains_commit(g, p, target) {
            return true;
        }
        j += 1;
    }
    false
}

} // verus!
