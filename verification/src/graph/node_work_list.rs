//! A work list of node ids: each id is queued at most once until the list is cleared.
use std::collections::VecDeque;
use vstd::prelude::*;
use crate::graph::node_bit_map::{lemma_listed_push, listed, NodeBitMap};

verus! {

/// The ids of `ids` that `add_all` queues: those not marked in `seen`, each
/// at its first occurrence in `ids`.
pub open spec fn unseen_in_order(ids: Seq<usize>, seen: NodeBitMap) -> Seq<usize>
    decreases ids.len(),
{
    if ids.len() == 0 {
        Seq::empty()
    } else {
        let prev = ids.drop_last();
        let x = ids.last();
        if seen.marked(x as int) || listed(prev, x as int) {
            unseen_in_order(prev, seen)
        } else {
            unseen_in_order(prev, seen).push(x)
        }
    }
}

/// A queue of node ids, with a bit map of the ids ever queued.
#[derive(Debug)]
pub struct NodeWorkList {
    queue: VecDeque<usize>,
    on_worklist: NodeBitMap,
    graph_id: usize,
    iteration_index: usize,
    iteration_snapshot: Vec<usize>,
}

impl NodeWorkList {
    /// The queued ids, front first.
    pub closed spec fn queued(&self) -> Seq<usize> {
        self.queue@
    }

    /// The marks of the ids ever queued.
    pub closed spec fn seen(&self) -> NodeBitMap {
        self.on_worklist
    }

    /// The graph worked on.
    pub closed spec fn graph(&self) -> usize {
        self.graph_id
    }

    /// An empty work list.
    pub fn new(graph_id: usize, node_count: usize) -> (r: Self)
        requires
            node_count <= usize::MAX - 64,
        ensures
            r.queued().len() == 0,
            forall|i: int| !r.seen().marked(i),
            r.seen().consistent(),
            r.graph() == graph_id,
    {
        NodeWorkList {
            queue: VecDeque::new(),
            on_worklist: NodeBitMap::new(graph_id, node_count),
            graph_id,
            iteration_index: 0,
            iteration_snapshot: Vec::new(),
        }
    }

    /// Queues the id at the back, unless it was queued before.
    pub fn add(&mut self, node_id: usize)
        requires
            node_id <= usize::MAX - 64,
            !old(self).seen().marked(node_id as int) ==> old(self).seen().counted() < usize::MAX,
        ensures
            forall|i: int| #[trigger] final(self).seen().marked(i) == (i == node_id || old(self).seen().marked(i)),
            final(self).queued() == if old(self).seen().marked(node_id as int) {
                old(self).queued()
            } else {
                old(self).queued().push(node_id)
            },
            old(self).seen().consistent() ==> final(self).seen().consistent(),
            final(self).seen().counted() == old(self).seen().counted()
                + if old(self).seen().marked(node_id as int) { 0int } else { 1int },
            final(self).graph() == old(self).graph(),
    {
        if !self.on_worklist.is_marked(node_id) {
            self.on_worklist.mark(node_id);
            self.queue.push_back(node_id);
        }
    }

    /// Queues the id at the front, unless it was queued before.
    pub fn add_first(&mut self, node_id: usize)
        requires
            node_id <= usize::MAX - 64,
            !old(self).seen().marked(node_id as int) ==> old(self).seen().counted() < usize::MAX,
        ensures
            forall|i: int| #[trigger] final(self).seen().marked(i) == (i == node_id || old(self).seen().marked(i)),
            final(self).queued() == if old(self).seen().marked(node_id as int) {
                old(self).queued()
            } else {
                seq![node_id] + old(self).queued()
            },
            old(self).seen().consistent() ==> final(self).seen().consistent(),
            final(self).graph() == old(self).graph(),
    {
        if !self.on_worklist.is_marked(node_id) {
            self.on_worklist.mark(node_id);
            self.queue.push_front(node_id);
        }
    }

    /// Queues each id in turn at the back, skipping those queued before.
    pub fn add_all(&mut self, node_ids: &[usize])
        requires
            forall|k: int| 0 <= k < node_ids@.len() ==> node_ids@[k] <= usize::MAX - 64,
            old(self).seen().counted() + node_ids@.len() <= usize::MAX,
        ensures
            forall|i: int| #[trigger] final(self).seen().marked(i)
                == (listed(node_ids@, i) || old(self).seen().marked(i)),
            final(self).queued() == old(self).queued() + unseen_in_order(node_ids@, old(self).seen()),
            old(self).seen().consistent() ==> final(self).seen().consistent(),
            final(self).graph() == old(self).graph(),
    {
        let mut k: usize = 0;
        while k < node_ids.len()
            invariant
                k <= node_ids@.len(),
                forall|q: int| 0 <= q < node_ids@.len() ==> node_ids@[q] <= usize::MAX - 64,
                self.seen().counted() <= old(self).seen().counted() + k,
                old(self).seen().counted() + node_ids@.len() <= usize::MAX,
                forall|i: int| #[trigger] self.seen().marked(i)
                    == (listed(node_ids@.take(k as int), i) || old(self).seen().marked(i)),
                old(self).seen().consistent() ==> self.seen().consistent(),
                self.graph() == old(self).graph(),
                self.queued() == old(self).queued() + unseen_in_order(node_ids@.take(k as int), old(self).seen()),
            decreases node_ids.len() - k,
        {
            let id = node_ids[k];
            self.add(id);
            proof {
                assert(node_ids@.take(k + 1) =~= node_ids@.take(k as int).push(id));
                assert(node_ids@.take(k + 1).drop_last() =~= node_ids@.take(k as int));
                assert(self.seen().marked(id as int));
                lemma_listed_push(node_ids@.take(k as int), id, id as int);
                assert forall|i: int| #[trigger] self.seen().marked(i)
                    == (listed(node_ids@.take(k + 1), i) || old(self).seen().marked(i)) by {
                    lemma_listed_push(node_ids@.take(k as int), id, i);
                }
            }
            proof {
                assert(self.queued() =~= old(self).queued() + unseen_in_order(node_ids@.take(k + 1), old(self).seen()));
            }
            k = k + 1;
        }
        assert(node_ids@.take(node_ids@.len() as int) =~= node_ids@);
    }

    /// Whether the id was ever queued (until the last clearing).
    pub fn contains(&self, node_id: usize) -> (r: bool)
        ensures
            r == self.seen().marked(node_id as int),
    {
        self.on_worklist.is_marked(node_id)
    }

    /// Whether nothing is queued.
    pub fn is_empty(&self) -> (r: bool)
        ensures
            r == (self.queued().len() == 0),
    {
        self.queue.len() == 0
    }

    /// Whether something is queued.
    pub fn is_not_empty(&self) -> (r: bool)
        ensures
            r == (self.queued().len() > 0),
    {
        self.queue.len() != 0
    }

    /// Takes the id at the front, if any; it stays marked as queued once.
    pub fn poll(&mut self) -> (r: Option<usize>)
        ensures
            old(self).queued().len() == 0 ==> r is None && final(self).queued() == old(self).queued(),
            old(self).queued().len() > 0 ==> r == Some(old(self).queued()[0])
                && final(self).queued() == old(self).queued().drop_first(),
            final(self).seen() == old(self).seen(),
            final(self).graph() == old(self).graph(),
    {
        self.queue.pop_front()
    }

    /// Empties the list and forgets which ids were queued.
    pub fn clear(&mut self)
        ensures
            final(self).queued().len() == 0,
            forall|i: int| !final(self).seen().marked(i),
            final(self).seen().consistent(),
            final(self).graph() == old(self).graph(),
    {
        self.queue.clear();
        self.on_worklist.clear_all();
        self.iteration_snapshot.clear();
        self.iteration_index = 0;
    }

    /// The graph worked on.
    pub fn graph_id(&self) -> (r: usize)
        ensures
            r == self.graph(),
    {
        self.graph_id
    }

    /// The queued ids, front first.
    pub fn iter(&self) -> (r: Vec<usize>)
        ensures
            r@ == self.queued(),
    {
        let mut r: Vec<usize> = Vec::new();
        let mut i: usize = 0;
        while i < self.queue.len()
            invariant
                i <= self.queue@.len(),
                r@ == self.queue@.take(i as int),
            decreases self.queue.len() - i,
        {
            r.push(self.queue[i]);
            assert(self.queue@.take(i + 1) =~= self.queue@.take(i as int).push(self.queue@[i as int]));
            i = i + 1;
        }
        assert(self.queue@.take(self.queue@.len() as int) =~= self.queue@);
        r
    }
}

} // verus!
