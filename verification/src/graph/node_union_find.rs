//! Union-find over the node ids of a graph, with union by rank and path halving.
use vstd::prelude::*;
use crate::graph::bits::{count_true, lemma_count_bound, lemma_count_update};

verus! {

/// Whether parents and ranks form a forest: every parent is an id, and the
/// rank strictly grows from a node to its parent.
pub open spec fn forest(parent: Seq<usize>, rank: Seq<u32>) -> bool {
    &&& parent.len() == rank.len()
    &&& forall|i: int| 0 <= i < parent.len() ==> (#[trigger] parent[i]) < parent.len()
    &&& forall|i: int| 0 <= i < parent.len() && parent[i] != i ==> rank[i] < #[trigger] rank[parent[i] as int]
}

/// The root of `i`: the end of the chain of parents from it.
pub open spec fn root_of(parent: Seq<usize>, rank: Seq<u32>, i: int) -> int
    decreases u32::MAX - rank[i],
    when forest(parent, rank) && 0 <= i < parent.len()
{
    if parent[i] == i {
        i
    } else {
        root_of(parent, rank, parent[i] as int)
    }
}

/// Which ids are not roots.
pub open spec fn non_roots(parent: Seq<usize>) -> Seq<bool> {
    Seq::new(parent.len(), |i: int| parent[i] != i)
}

/// The root of a root is itself; the root of a node is a root.
proof fn lemma_root_is_root(parent: Seq<usize>, rank: Seq<u32>, i: int)
    requires
        forest(parent, rank),
        0 <= i < parent.len(),
    ensures
        0 <= root_of(parent, rank, i) < parent.len(),
        parent[root_of(parent, rank, i)] == root_of(parent, rank, i),
        rank[i] <= rank[root_of(parent, rank, i)],
    decreases u32::MAX - rank[i],
{
    if parent[i] != i {
        lemma_root_is_root(parent, rank, parent[i] as int);
    }
}

/// Pointing `i` at its grandparent keeps every root.
proof fn lemma_halve(parent: Seq<usize>, rank: Seq<u32>, i: int, j: int)
    requires
        forest(parent, rank),
        0 <= i < parent.len(),
        0 <= j < parent.len(),
        parent[i] != i,
    ensures
        forest(parent.update(i, parent[parent[i] as int]), rank),
        root_of(parent.update(i, parent[parent[i] as int]), rank, j) == root_of(parent, rank, j),
    decreases u32::MAX - rank[j],
{
    let g = parent[parent[i] as int];
    let p2 = parent.update(i, g);
    assert(forest(p2, rank));
    if parent[j] != j {
        lemma_halve(parent, rank, i, parent[j] as int);
        if j == i {
            let p = parent[i] as int;
            if parent[p] != p {
                lemma_halve(parent, rank, i, p);
            }
        }
    }
}

/// Linking root `rb` under root `ra` (raising `ra`'s rank by `bump`) keeps a
/// forest; the nodes of `rb` then have root `ra`, the others keep theirs.
proof fn lemma_link(parent: Seq<usize>, rank: Seq<u32>, ra: int, rb: int, bump: bool, j: int)
    requires
        forest(parent, rank),
        0 <= ra < parent.len(),
        0 <= rb < parent.len(),
        ra != rb,
        parent[ra] == ra,
        parent[rb] == rb,
        if bump { rank[ra] == rank[rb] && rank[ra] < u32::MAX } else { rank[ra] > rank[rb] },
        0 <= j < parent.len(),
    ensures
        forest(parent.update(rb, ra as usize), if bump { rank.update(ra, (rank[ra] + 1) as u32) } else { rank }),
        root_of(parent.update(rb, ra as usize), if bump { rank.update(ra, (rank[ra] + 1) as u32) } else { rank }, j)
            == if root_of(parent, rank, j) == rb { ra } else { root_of(parent, rank, j) },
    decreases u32::MAX - rank[j],
{
    let p2 = parent.update(rb, ra as usize);
    let r2 = if bump { rank.update(ra, (rank[ra] + 1) as u32) } else { rank };
    assert forall|i: int| 0 <= i < p2.len() && p2[i] != i implies r2[i] < #[trigger] r2[p2[i] as int] by {
        if i != rb && parent[i] as int == ra {
            lemma_root_is_root(parent, rank, i);
        }
    }
    assert(forest(p2, r2));
    if j == rb {
        assert(root_of(p2, r2, ra) == ra);
    }
    if parent[j] != j {
        lemma_link(parent, rank, ra, rb, bump, parent[j] as int);
    }
}

/// Union-find over the node ids of a graph.
#[derive(Debug)]
pub struct NodeUnionFind {
    parent: Vec<usize>,
    rank: Vec<u32>,
    graph_id: usize,
}

impl NodeUnionFind {
    /// Whether the structure is a forest whose ranks stay within reach.
    pub closed spec fn well_formed(&self) -> bool {
        &&& forest(self.parent@, self.rank@)
        &&& self.parent@.len() <= u32::MAX
        &&& forall|i: int| 0 <= i < self.rank@.len() ==> #[trigger] self.rank@[i] <= count_true(non_roots(self.parent@))
    }

    /// The number of ids.
    pub closed spec fn size(&self) -> nat {
        self.parent@.len()
    }

    /// The representative of the set of `i`: its root, or `i` itself beyond the ids.
    pub closed spec fn root(&self, i: int) -> int {
        if 0 <= i < self.parent@.len() { root_of(self.parent@, self.rank@, i) } else { i }
    }

    /// The representative of a set is its own representative: `find` of
    /// what `find` gives is the same.
    pub proof fn law_root_is_fixed(&self, x: int)
        requires
            self.well_formed(),
        ensures
            self.root(self.root(x)) == self.root(x),
    {
        if 0 <= x < self.parent@.len() {
            lemma_root_is_root(self.parent@, self.rank@, x);
        }
    }

    /// The representative of an id is an id.
    pub proof fn law_root_in_range(&self, x: int)
        requires
            self.well_formed(),
            0 <= x < self.size(),
        ensures
            0 <= self.root(x) < self.size(),
    {
        lemma_root_is_root(self.parent@, self.rank@, x);
    }

    /// The graph the structure belongs to.
    pub closed spec fn graph(&self) -> usize {
        self.graph_id
    }

    /// Every id in a set of its own.
    pub fn new(graph_id: usize, node_count: usize) -> (r: Self)
        requires
            node_count <= u32::MAX,
        ensures
            r.well_formed(),
            r.size() == node_count,
            forall|i: int| #[trigger] r.root(i) == i,
            r.graph() == graph_id,
    {
        let mut parent: Vec<usize> = Vec::new();
        let mut rank: Vec<u32> = Vec::new();
        let mut i: usize = 0;
        while i < node_count
            invariant
                i <= node_count,
                parent@.len() == i,
                rank@.len() == i,
                forall|k: int| 0 <= k < i ==> parent@[k] == k,
                forall|k: int| 0 <= k < i ==> rank@[k] == 0,
            decreases node_count - i,
        {
            parent.push(i);
            rank.push(0u32);
            i = i + 1;
        }
        let r = NodeUnionFind { parent, rank, graph_id };
        assert forall|k: int| #[trigger] r.root(k) == k by {
            if 0 <= k < r.parent@.len() {
                assert(r.parent@[k] == k);
            }
        }
        r
    }

    /// The representative of the id's set; on the way, each node passed is
    /// pointed at its grandparent, which keeps every set.
    pub fn find(&mut self, node_id: usize) -> (r: usize)
        requires
            old(self).well_formed(),
        ensures
            final(self).well_formed(),
            r == old(self).root(node_id as int),
            forall|i: int| #[trigger] final(self).root(i) == old(self).root(i),
            final(self).size() == old(self).size(),
            final(self).graph() == old(self).graph(),
    {
        if node_id >= self.parent.len() {
            return node_id;
        }
        let mut current = node_id;
        proof {
            lemma_root_is_root(self.parent@, self.rank@, node_id as int);
        }
        while self.parent[current] != current
            invariant
                self.well_formed(),
                current < self.parent@.len(),
                self.rank@ == old(self).rank@,
                self.parent@.len() == old(self).parent@.len(),
                self.graph_id == old(self).graph_id,
                root_of(self.parent@, self.rank@, current as int) == old(self).root(node_id as int),
                forall|i: int| #[trigger] self.root(i) == old(self).root(i),
            decreases u32::MAX - self.rank@[current as int],
        {
            let p = self.parent[current];
            let g = self.parent[p];
            let ghost before = self.parent@;
            let ghost prev = *self;
            proof {
                assert(self.rank@[current as int] < self.rank@[p as int]);
                if before[p as int] != p {
                    assert(self.rank@[p as int] < self.rank@[g as int]);
                    assert(root_of(before, self.rank@, p as int) == root_of(before, self.rank@, g as int));
                }
                assert(root_of(before, self.rank@, current as int) == root_of(before, self.rank@, p as int));
                assert forall|j: int| 0 <= j < before.len() implies
                    #[trigger] root_of(before.update(current as int, g), self.rank@, j) == root_of(before, self.rank@, j) by {
                    lemma_halve(before, self.rank@, current as int, j);
                }
                lemma_halve(before, self.rank@, current as int, 0);
                assert(non_roots(before.update(current as int, g)) =~= non_roots(before));
            }
            self.parent.set(current, g);
            proof {
                assert forall|i: int| #[trigger] self.root(i) == old(self).root(i) by {
                    assert(prev.root(i) == old(self).root(i));
                    if 0 <= i < before.len() {
                        assert(root_of(before.update(current as int, g), self.rank@, i) == root_of(before, self.rank@, i));
                    }
                }
            }
            current = g;
        }
        current
    }

    /// Joins the sets of `a` and `b`: the root of lower rank goes under the
    /// other; with equal ranks, `b`'s root goes under `a`'s, whose rank grows.
    pub fn union(&mut self, a: usize, b: usize)
        requires
            old(self).well_formed(),
            (a < old(self).size() && b < old(self).size()) || old(self).root(a as int) == old(self).root(b as int),
        ensures
            final(self).well_formed(),
            final(self).root(a as int) == final(self).root(b as int),
            final(self).root(a as int) == old(self).root(a as int) || final(self).root(a as int) == old(self).root(b as int),
            forall|i: int| #[trigger] final(self).root(i) == if old(self).root(i) == old(self).root(a as int)
                || old(self).root(i) == old(self).root(b as int) {
                final(self).root(a as int)
            } else {
                old(self).root(i)
            },
            final(self).size() == old(self).size(),
            final(self).graph() == old(self).graph(),
    {
        let root_a = self.find(a);
        let ghost mid = *self;
        let root_b = self.find(b);
        let ghost after = *self;
        proof {
            assert(mid.root(a as int) == old(self).root(a as int));
            assert(self.root(a as int) == mid.root(a as int));
            assert(self.root(b as int) == mid.root(b as int));
        }
        if root_a != root_b {
            proof {
                lemma_root_is_root(self.parent@, self.rank@, a as int);
                lemma_root_is_root(self.parent@, self.rank@, b as int);
            }
            let ghost p0 = self.parent@;
            let ghost r0 = self.rank@;
            if self.rank[root_a] < self.rank[root_b] {
                proof {
                    assert forall|j: int| 0 <= j < p0.len() implies
                        #[trigger] root_of(p0.update(root_a as int, root_b), r0, j)
                            == if root_of(p0, r0, j) == root_a { root_b as int } else { root_of(p0, r0, j) } by {
                        lemma_link(p0, r0, root_b as int, root_a as int, false, j);
                    }
                    lemma_link(p0, r0, root_b as int, root_a as int, false, 0);
                    self.lemma_link_counts(p0, r0, root_a as int);
                }
                self.parent.set(root_a, root_b);
            } else if self.rank[root_a] > self.rank[root_b] {
                proof {
                    assert forall|j: int| 0 <= j < p0.len() implies
                        #[trigger] root_of(p0.update(root_b as int, root_a), r0, j)
                            == if root_of(p0, r0, j) == root_b { root_a as int } else { root_of(p0, r0, j) } by {
                        lemma_link(p0, r0, root_a as int, root_b as int, false, j);
                    }
                    lemma_link(p0, r0, root_a as int, root_b as int, false, 0);
                    self.lemma_link_counts(p0, r0, root_b as int);
                }
                self.parent.set(root_b, root_a);
            } else {
                proof {
                    lemma_count_update(non_roots(p0), root_a as int, true);
                    lemma_count_bound(non_roots(p0).update(root_a as int, true));
                    let r1 = r0.update(root_a as int, (r0[root_a as int] + 1) as u32);
                    assert forall|j: int| 0 <= j < p0.len() implies
                        #[trigger] root_of(p0.update(root_b as int, root_a), r1, j)
                            == if root_of(p0, r0, j) == root_b { root_a as int } else { root_of(p0, r0, j) } by {
                        lemma_link(p0, r0, root_a as int, root_b as int, true, j);
                    }
                    lemma_link(p0, r0, root_a as int, root_b as int, true, 0);
                    self.lemma_link_counts(p0, r0, root_b as int);
                }
                self.parent.set(root_b, root_a);
                let bumped = self.rank[root_a] + 1;
                self.rank.set(root_a, bumped);
            }
            proof {
                assert forall|i: int| #[trigger] self.root(i) == if old(self).root(i) == old(self).root(a as int)
                    || old(self).root(i) == old(self).root(b as int) {
                    self.root(a as int)
                } else {
                    old(self).root(i)
                } by {
                    assert(after.root(i) == mid.root(i));
                    assert(mid.root(i) == old(self).root(i));
                    if 0 <= i < p0.len() {
                        lemma_root_is_root(p0, r0, i);
                    }
                }
            }
        }
    }

    /// Linking root `rc` under another root makes one more non-root.
    proof fn lemma_link_counts(&self, p0: Seq<usize>, r0: Seq<u32>, rc: int)
        requires
            p0.len() == self.parent@.len(),
            0 <= rc < p0.len(),
            p0[rc] == rc,
        ensures
            forall|other: usize| other != rc ==> count_true(non_roots(p0.update(rc, other)))
                == count_true(non_roots(p0)) + 1,
    {
        assert forall|other: usize| other != rc implies count_true(non_roots(p0.update(rc, other)))
            == count_true(non_roots(p0)) + 1 by {
            assert(non_roots(p0.update(rc, other)) =~= non_roots(p0).update(rc, true));
            lemma_count_update(non_roots(p0), rc, true);
        }
    }

    /// Whether `a` and `b` are in the same set.
    pub fn is_same(&mut self, a: usize, b: usize) -> (r: bool)
        requires
            old(self).well_formed(),
        ensures
            final(self).well_formed(),
            r == (old(self).root(a as int) == old(self).root(b as int)),
            forall|i: int| #[trigger] final(self).root(i) == old(self).root(i),
            final(self).size() == old(self).size(),
            final(self).graph() == old(self).graph(),
    {
        let x = self.find(a);
        let y = self.find(b);
        x == y
    }

    /// The graph the structure belongs to.
    pub fn graph_id(&self) -> (r: usize)
        ensures
            r == self.graph(),
    {
        self.graph_id
    }
}

impl Clone for NodeUnionFind {
    fn clone(&self) -> (r: Self)
        ensures
            r.well_formed() == self.well_formed(),
            r.size() == self.size(),
            forall|i: int| #[trigger] r.root(i) == self.root(i),
            r.graph() == self.graph(),
    {
        let r = NodeUnionFind { parent: self.parent.clone(), rank: self.rank.clone(), graph_id: self.graph_id };
        assert(r.parent@ =~= self.parent@);
        assert(r.rank@ =~= self.rank@);
        r
    }
}

} // verus!
