//! Laws of the graph helpers: marking and clearing, union-find, and the
//! reuse of node ids.
use vstd::prelude::*;
use crate::graph::graph::{added_new, answers, lemma_rank_mono, lemma_rank_step, none_equal_at, rank, reused_equal, Graph};
use crate::graph::node::Node;
use crate::graph::node_bit_map::{lemma_listed_push, listed, NodeBitMap};
use crate::graph::node_work_list::unseen_in_order;
use crate::graph::node_union_find::NodeUnionFind;

verus! {

/// Marking an unmarked id and then clearing it leaves the marks and the
/// count as they were.
pub proof fn law_mark_then_clear(start: NodeBitMap, marked: NodeBitMap, cleared: NodeBitMap, id: int)
    requires
        !start.marked(id),
        forall|i: int| #[trigger] marked.marked(i) == (i == id || start.marked(i)),
        marked.counted() == start.counted() + 1,
        forall|i: int| #[trigger] cleared.marked(i) == (i != id && marked.marked(i)),
        cleared.counted() == marked.counted() - 1,
    ensures
        forall|i: int| #[trigger] cleared.marked(i) == start.marked(i),
        cleared.counted() == start.counted(),
{
    assert forall|i: int| #[trigger] cleared.marked(i) == start.marked(i) by {
        assert(marked.marked(i) == (i == id || start.marked(i)));
    }
}

/// Marking is idempotent: marking a marked id changes neither the marks nor the count.
pub proof fn law_mark_idempotent(before: NodeBitMap, after: NodeBitMap, id: int)
    requires
        before.marked(id),
        forall|i: int| #[trigger] after.marked(i) == (i == id || before.marked(i)),
        after.counted() == before.counted() + if before.marked(id) { 0int } else { 1int },
    ensures
        forall|i: int| #[trigger] after.marked(i) == before.marked(i),
        after.counted() == before.counted(),
{
    assert forall|i: int| #[trigger] after.marked(i) == before.marked(i) by {
        assert(after.marked(i) == (i == id || before.marked(i)));
    }
}

/// Joining the sets of `a` and `b` merges exactly those two sets: after
/// it, two ids are in the same set exactly where they were before, or where
/// one was with `a` and the other with `b`. Over a run of joins this makes
/// "same set" the equivalence closure of the pairs joined.
pub proof fn law_union_merges_exactly(before: NodeUnionFind, after: NodeUnionFind, a: int, b: int, x: int, y: int)
    requires
        after.root(a) == after.root(b),
        forall|i: int| #[trigger] after.root(i) == if before.root(i) == before.root(a) || before.root(i) == before.root(b) {
            after.root(a)
        } else {
            before.root(i)
        },
        after.root(a) == before.root(a) || after.root(a) == before.root(b),
    ensures
        (after.root(x) == after.root(y)) <==> (before.root(x) == before.root(y)
            || (before.root(x) == before.root(a) && before.root(y) == before.root(b))
            || (before.root(x) == before.root(b) && before.root(y) == before.root(a))),
{
    assert(after.root(x) == if before.root(x) == before.root(a) || before.root(x) == before.root(b) {
        after.root(a)
    } else {
        before.root(x)
    });
    assert(after.root(y) == if before.root(y) == before.root(a) || before.root(y) == before.root(b) {
        after.root(a)
    } else {
        before.root(y)
    });
}

/// After joining the sets of `a` and `b`, anything in the same set as `a`
/// before is in the same set as anything in the same set as `b` before,
/// and sets apart from both stay apart from them.
pub proof fn law_union_joins(before: NodeUnionFind, after: NodeUnionFind, a: int, b: int, x: int, y: int)
    requires
        after.root(a) == after.root(b),
        forall|i: int| #[trigger] after.root(i) == if before.root(i) == before.root(a) || before.root(i) == before.root(b) {
            after.root(a)
        } else {
            before.root(i)
        },
        after.root(a) == before.root(a) || after.root(a) == before.root(b),
    ensures
        before.root(x) == before.root(a) && before.root(y) == before.root(b) ==> after.root(x) == after.root(y),
        before.root(x) == before.root(y) ==> after.root(x) == after.root(y),
{
    assert(after.root(x) == if before.root(x) == before.root(a) || before.root(x) == before.root(b) {
        after.root(a)
    } else {
        before.root(x)
    });
    assert(after.root(y) == if before.root(y) == before.root(a) || before.root(y) == before.root(b) {
        after.root(a)
    } else {
        before.root(y)
    });
}

/// What a join of the sets of `a` and `b` does to the representatives, as
/// `NodeUnionFind::union` states it.
pub open spec fn union_step(before: NodeUnionFind, after: NodeUnionFind, a: int, b: int) -> bool {
    &&& after.root(a) == after.root(b)
    &&& forall|i: int| #[trigger] after.root(i) == if before.root(i) == before.root(a) || before.root(i) == before.root(b) {
        after.root(a)
    } else {
        before.root(i)
    }
    &&& (after.root(a) == before.root(a) || after.root(a) == before.root(b))
}

/// Whether `x` and `y` are related by the reflexive, symmetric and
/// transitive closure of the pairs, built up one pair at a time: a new pair
/// `(a, b)` relates what was related before, and what was related to `a` on
/// one side and to `b` on the other.
pub open spec fn joined(pairs: Seq<(int, int)>, x: int, y: int) -> bool
    decreases pairs.len(),
{
    if pairs.len() == 0 {
        x == y
    } else {
        let ps = pairs.drop_last();
        let a = pairs.last().0;
        let b = pairs.last().1;
        ||| joined(ps, x, y)
        ||| (joined(ps, x, a) && joined(ps, y, b))
        ||| (joined(ps, x, b) && joined(ps, y, a))
    }
}

/// Starting from every id in a set of its own, a run of joins over the
/// pairs leaves two ids in the same set exactly when the pairs relate them:
/// "same set" is the equivalence closure of the pairs joined.
pub proof fn law_unions_give_closure(states: Seq<NodeUnionFind>, pairs: Seq<(int, int)>, x: int, y: int)
    requires
        states.len() == pairs.len() + 1,
        forall|i: int| #[trigger] states[0].root(i) == i,
        forall|k: int| 0 <= k < pairs.len() ==> union_step(#[trigger] states[k], states[k + 1], pairs[k].0, pairs[k].1),
    ensures
        (states.last().root(x) == states.last().root(y)) <==> joined(pairs, x, y),
    decreases pairs.len(),
{
    if pairs.len() > 0 {
        let m = pairs.len() - 1;
        let ss = states.drop_last();
        let ps = pairs.drop_last();
        let a = pairs[m].0;
        let b = pairs[m].1;
        assert forall|k: int| 0 <= k < ps.len() implies union_step(#[trigger] ss[k], ss[k + 1], ps[k].0, ps[k].1) by {
            assert(union_step(states[k], states[k + 1], pairs[k].0, pairs[k].1));
        }
        assert(ss[0] == states[0]);
        law_unions_give_closure(ss, ps, x, y);
        law_unions_give_closure(ss, ps, x, a);
        law_unions_give_closure(ss, ps, y, b);
        law_unions_give_closure(ss, ps, x, b);
        law_unions_give_closure(ss, ps, y, a);
        assert(union_step(states[m], states[m + 1], a, b));
        assert(ss.last() == states[m]);
        law_union_merges_exactly(states[m], states[m + 1], a, b, x, y);
    }
}

/// Compression keeps the order of the nodes: of two ids that hold a node,
/// the smaller gets the smaller new id, so no two nodes share one.
pub proof fn law_compress_keeps_order(slots: Seq<bool>, i: int, j: int)
    requires
        0 <= i < j < slots.len(),
        slots[i],
    ensures
        rank(slots, i) < rank(slots, j),
{
    lemma_rank_step(slots, i);
    lemma_rank_mono(slots, i + 1, j);
}

/// Removing a node and then adding one gives the new node the removed
/// node's id; every other id keeps its node, and the node and id counts and
/// the free ids are as before the removal.
pub proof fn law_removed_id_reused<N: Node>(
    before: Graph<N>,
    removed: Graph<N>,
    added: Graph<N>,
    id: usize,
    next: usize,
    node: N,
)
    requires
        before.node_at(id as int) is Some,
        removed.node_at(id as int) is None,
        forall|i: int| i != id ==> #[trigger] removed.node_at(i) == before.node_at(i),
        removed.live() == before.live() - 1,
        removed.free() == before.free().push(id),
        removed.total() == before.total(),
        added.node_at(next as int) == Some(node),
        forall|i: int| i != next ==> #[trigger] added.node_at(i) == removed.node_at(i),
        removed.free().len() > 0 ==> next == removed.free().last(),
        added.live() == removed.live() + 1,
        removed.free().len() > 0 ==> added.total() == removed.total(),
        added.free() == if removed.free().len() > 0 { removed.free().drop_last() } else { removed.free() },
    ensures
        next == id,
        added.node_at(id as int) == Some(node),
        forall|i: int| i != id ==> #[trigger] added.node_at(i) == before.node_at(i),
        added.live() == before.live(),
        added.total() == before.total(),
        added.free() == before.free(),
{
    assert forall|i: int| i != id implies #[trigger] added.node_at(i) == before.node_at(i) by {
        assert(added.node_at(i) == removed.node_at(i));
    }
}

/// Adding a node and removing it again leaves the node count as it was.
pub proof fn law_add_then_remove_count<N: Node>(start: Graph<N>, added: Graph<N>, removed: Graph<N>, id: usize)
    requires
        added.node_at(id as int) is Some,
        added.live() == start.live() + 1,
        added.node_at(id as int) is Some ==> removed.live() == added.live() - 1,
    ensures
        removed.live() == start.live(),
{
}

/// Where the nodes answer `value_equals` one way only and some node of the
/// graph equals the new one in value, `add_or_get` gives the first slot
/// holding such a node and leaves the graph (its nodes and their count) as
/// it was.
pub proof fn law_add_or_get_finds_first_equal<N: Node>(before: Graph<N>, after: Graph<N>, node: N, r: usize, j: int)
    requires
        reused_equal(before, after, node, r) || added_new(before, after, node, r),
        forall|e: N| #[trigger] answers(e, node.node_id(), true) ==> !answers(e, node.node_id(), false),
        0 <= j,
        before.node_at(j) matches Some(e) && answers(e, node.node_id(), true),
    ensures
        r <= j,
        before.node_at(r as int) matches Some(e) && answers(e, node.node_id(), true),
        forall|k: int| 0 <= k < r ==> (#[trigger] before.node_at(k) matches Some(e) ==> !answers(e, node.node_id(), true)),
        after == before,
        after.live() == before.live(),
{
    let id = node.node_id();
    let e = before.node_at(j)->0;
    assert(answers(e, id, true));
    if added_new(before, after, node, r) && !reused_equal(before, after, node, r) {
        assert(before.node_at(j) is Some);
        assert(none_equal_at(before, id, j));
        assert(false);
    }
    if (j as int) < (r as int) {
        assert(none_equal_at(before, id, j));
    }
    assert forall|k: int| 0 <= k < r implies (#[trigger] before.node_at(k) matches Some(e) ==> !answers(e, node.node_id(), true)) by {
        assert(none_equal_at(before, id, k));
    }
}

/// Where the nodes answer `value_equals` one way only and no node of the
/// graph equals the new one in value, `add_or_get` adds the new node under
/// a free id: one more node, every other id keeping its node.
pub proof fn law_add_or_get_adds_when_none_equal<N: Node>(before: Graph<N>, after: Graph<N>, node: N, r: usize)
    requires
        reused_equal(before, after, node, r) || added_new(before, after, node, r),
        forall|e: N| #[trigger] answers(e, node.node_id(), true) ==> !answers(e, node.node_id(), false),
        forall|k: int| #[trigger] before.node_at(k) matches Some(e) ==> answers(e, node.node_id(), false),
    ensures
        before.node_at(r as int) is None,
        after.node_at(r as int) == Some(node),
        forall|i: int| i != r ==> #[trigger] after.node_at(i) == before.node_at(i),
        after.live() == before.live() + 1,
{
    if reused_equal(before, after, node, r) {
        let e = before.node_at(r as int)->0;
        assert(answers(e, node.node_id(), true));
        assert(before.node_at(r as int) matches Some(e) ==> answers(e, node.node_id(), false));
        assert(false);
    }
}

/// The ids `add_all` queues occur once each, and are exactly the ids of the
/// list that were not queued before.
proof fn lemma_unseen_members(ids: Seq<usize>, seen: NodeBitMap)
    ensures
        unseen_in_order(ids, seen).no_duplicates(),
        forall|x: usize| #[trigger] unseen_in_order(ids, seen).contains(x) <==> (listed(ids, x as int) && !seen.marked(x as int)),
    decreases ids.len(),
{
    let r = unseen_in_order(ids, seen);
    if ids.len() == 0 {
        assert forall|x: usize| #[trigger] r.contains(x) <==> (listed(ids, x as int) && !seen.marked(x as int)) by {
            assert(r.len() == 0);
        }
    } else {
        let prev = ids.drop_last();
        let x = ids.last();
        let rp = unseen_in_order(prev, seen);
        lemma_unseen_members(prev, seen);
        assert(ids =~= prev.push(x));
        assert forall|y: usize| listed(ids, y as int) == (listed(prev, y as int) || y == x) by {
            lemma_listed_push(prev, x, y as int);
        }
        if seen.marked(x as int) || listed(prev, x as int) {
            assert(r == rp);
            assert forall|y: usize| #[trigger] r.contains(y) <==> (listed(ids, y as int) && !seen.marked(y as int)) by {
                assert(rp.contains(y) <==> (listed(prev, y as int) && !seen.marked(y as int)));
            }
        } else {
            assert(r == rp.push(x));
            assert(!rp.contains(x));
            assert forall|y: usize| #[trigger] r.contains(y) <==> (listed(ids, y as int) && !seen.marked(y as int)) by {
                assert(rp.contains(y) <==> (listed(prev, y as int) && !seen.marked(y as int)));
                if y == x {
                    assert(r[rp.len() as int] == x);
                } else if r.contains(y) {
                    let k = choose|k: int| 0 <= k < r.len() && r[k] == y;
                    assert(rp[k] == y);
                } else if rp.contains(y) {
                    let k = choose|k: int| 0 <= k < rp.len() && rp[k] == y;
                    assert(r[k] == y);
                }
            }
            assert forall|a: int, b: int| 0 <= a < r.len() && 0 <= b < r.len() && a != b implies r[a] != r[b] by {
                if a == rp.len() {
                    assert(rp[b] == r[b]);
                    assert(rp.contains(rp[b]));
                } else if b == rp.len() {
                    assert(rp[a] == r[a]);
                    assert(rp.contains(rp[a]));
                }
            }
        }
    }
}

/// Whether `x` occurs in `ids` before position `j`.
pub open spec fn occurs_before(ids: Seq<usize>, x: usize, j: int) -> bool {
    exists|i: int| 0 <= i < j && ids[i] == x
}

/// Of two ids `add_all` queues, every occurrence in the list of the later
/// one comes after an occurrence of the earlier one.
proof fn lemma_unseen_order(ids: Seq<usize>, seen: NodeBitMap, p: int, q: int, j: int)
    requires
        0 <= p < q < unseen_in_order(ids, seen).len(),
        0 <= j < ids.len(),
        ids[j] == unseen_in_order(ids, seen)[q],
    ensures
        occurs_before(ids, unseen_in_order(ids, seen)[p], j),
    decreases ids.len(),
{
    let r = unseen_in_order(ids, seen);
    let prev = ids.drop_last();
    let x = ids.last();
    let rp = unseen_in_order(prev, seen);
    lemma_unseen_members(prev, seen);
    if seen.marked(x as int) || listed(prev, x as int) {
        assert(r == rp);
        if j == ids.len() - 1 {
            assert(rp.contains(rp[q]));
            let j2 = choose|q2: int| 0 <= q2 < prev.len() && prev[q2] == rp[q] as int;
            lemma_unseen_order(prev, seen, p, q, j2);
            let i = choose|i: int| 0 <= i < j2 && prev[i] == rp[p];
            assert(ids[i] == r[p]);
        } else {
            assert(prev[j] == rp[q]);
            lemma_unseen_order(prev, seen, p, q, j);
            let i = choose|i: int| 0 <= i < j && prev[i] == rp[p];
            assert(ids[i] == r[p]);
        }
    } else {
        assert(r == rp.push(x));
        if q == rp.len() {
            if j < ids.len() - 1 {
                assert(prev[j] == x);
                assert(listed(prev, x as int));
            }
            assert(r[p] == rp[p]);
            assert(rp.contains(rp[p]));
            let i = choose|i: int| 0 <= i < prev.len() && prev[i] == rp[p] as int;
            assert(ids[i] == r[p]);
        } else {
            assert(r[q] == rp[q]);
            assert(r[p] == rp[p]);
            if j == ids.len() - 1 {
                assert(rp.contains(rp[q]));
                assert(false);
            }
            assert(prev[j] == rp[q]);
            lemma_unseen_order(prev, seen, p, q, j);
            let i = choose|i: int| 0 <= i < j && prev[i] == rp[p];
            assert(ids[i] == r[p]);
        }
    }
}

/// What `add_all` queues: no id twice; exactly the ids of the list that
/// were not queued before; and in the order in which they first occur in
/// the list (every occurrence of a later one comes after an occurrence of
/// an earlier one).
pub proof fn law_add_all_queues_new_ids_once(ids: Seq<usize>, seen: NodeBitMap)
    ensures
        unseen_in_order(ids, seen).no_duplicates(),
        forall|x: usize| #[trigger] unseen_in_order(ids, seen).contains(x) <==> (listed(ids, x as int) && !seen.marked(x as int)),
        forall|p: int, q: int, j: int|
            #![trigger ids[j], unseen_in_order(ids, seen)[q], unseen_in_order(ids, seen)[p]]
            0 <= p < q < unseen_in_order(ids, seen).len() && 0 <= j < ids.len() && ids[j] == unseen_in_order(ids, seen)[q]
                ==> occurs_before(ids, unseen_in_order(ids, seen)[p], j),
{
    lemma_unseen_members(ids, seen);
    assert forall|p: int, q: int, j: int|
        #![trigger ids[j], unseen_in_order(ids, seen)[q], unseen_in_order(ids, seen)[p]]
        0 <= p < q < unseen_in_order(ids, seen).len() && 0 <= j < ids.len() && ids[j] == unseen_in_order(ids, seen)[q]
            implies occurs_before(ids, unseen_in_order(ids, seen)[p], j) by {
        lemma_unseen_order(ids, seen, p, q, j);
    }
}

} // verus!
