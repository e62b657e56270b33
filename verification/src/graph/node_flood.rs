//! A flood over the nodes of a graph: nodes are queued as they are added and
//! marked as visited.
use std::collections::VecDeque;
use vstd::prelude::*;
use crate::graph::node_bit_map::{lemma_listed_push, listed, NodeBitMap};

verus! {

/// A flood over node ids: a bit map of the visited ids and a queue.
#[derive(Debug)]
pub struct NodeFlood {
    visited: NodeBitMap,
    queue: VecDeque<usize>,
    graph_id: usize,
    is_input: bool,
}

impl NodeFlood {
    /// The visited marks.
    pub closed spec fn visits(&self) -> NodeBitMap {
        self.visited
    }

    /// The queued ids, front first.
    pub closed spec fn queued(&self) -> Seq<usize> {
        self.queue@
    }

    /// The graph flooded.
    pub closed spec fn graph(&self) -> usize {
        self.graph_id
    }

    /// Whether the flood follows inputs (else usages).
    pub closed spec fn follows_inputs(&self) -> bool {
        self.is_input
    }

    /// A flood along inputs with nothing visited and nothing queued.
    pub fn new(graph_id: usize, node_count: usize) -> (r: Self)
        requires
            node_count <= usize::MAX - 64,
        ensures
            forall|i: int| !r.visits().marked(i),
            r.visits().consistent(),
            r.queued().len() == 0,
            r.graph() == graph_id,
            r.follows_inputs(),
    {
        NodeFlood { visited: NodeBitMap::new(graph_id, node_count), queue: VecDeque::new(), graph_id, is_input: true }
    }

    /// A flood in the given direction with nothing visited and nothing queued.
    pub fn with_direction(graph_id: usize, node_count: usize, is_input: bool) -> (r: Self)
        requires
            node_count <= usize::MAX - 64,
        ensures
            forall|i: int| !r.visits().marked(i),
            r.visits().consistent(),
            r.queued().len() == 0,
            r.graph() == graph_id,
            r.follows_inputs() == is_input,
    {
        NodeFlood { visited: NodeBitMap::new(graph_id, node_count), queue: VecDeque::new(), graph_id, is_input }
    }

    /// Marks the id as visited; the id is queued where it had been visited
    /// already.
    pub fn add(&mut self, node_id: usize)
        requires
            node_id <= usize::MAX - 64,
            !old(self).visits().marked(node_id as int) ==> old(self).visits().counted() < usize::MAX,
        ensures
            forall|i: int| #[trigger] final(self).visits().marked(i) == (i == node_id || old(self).visits().marked(i)),
            final(self).visits().counted() == old(self).visits().counted()
                + if old(self).visits().marked(node_id as int) { 0int } else { 1int },
            old(self).visits().consistent() ==> final(self).visits().consistent(),
            final(self).queued() == if old(self).visits().marked(node_id as int) {
                old(self).queued().push(node_id)
            } else {
                old(self).queued()
            },
            final(self).graph() == old(self).graph(),
            final(self).follows_inputs() == old(self).follows_inputs(),
    {
        if self.visited.is_new_marked(node_id) {
            self.queue.push_back(node_id);
        }
    }

    /// Adds each id in turn.
    pub fn add_all(&mut self, node_ids: &[usize])
        requires
            forall|k: int| 0 <= k < node_ids@.len() ==> node_ids@[k] <= usize::MAX - 64,
            old(self).visits().counted() + node_ids@.len() <= usize::MAX,
        ensures
            forall|i: int| #[trigger] final(self).visits().marked(i)
                == (listed(node_ids@, i) || old(self).visits().marked(i)),
            old(self).visits().consistent() ==> final(self).visits().consistent(),
            final(self).graph() == old(self).graph(),
            final(self).follows_inputs() == old(self).follows_inputs(),
    {
        let mut k: usize = 0;
        while k < node_ids.len()
            invariant
                k <= node_ids@.len(),
                forall|q: int| 0 <= q < node_ids@.len() ==> node_ids@[q] <= usize::MAX - 64,
                self.visits().counted() <= old(self).visits().counted() + k,
                old(self).visits().counted() + node_ids@.len() <= usize::MAX,
                forall|i: int| #[trigger] self.visits().marked(i)
                    == (listed(node_ids@.take(k as int), i) || old(self).visits().marked(i)),
                old(self).visits().consistent() ==> self.visits().consistent(),
                self.graph() == old(self).graph(),
                self.follows_inputs() == old(self).follows_inputs(),
            decreases node_ids.len() - k,
        {
            let id = node_ids[k];
            self.add(id);
            proof {
                assert(node_ids@.take(k + 1) =~= node_ids@.take(k as int).push(id));
                assert forall|i: int| #[trigger] self.visits().marked(i)
                    == (listed(node_ids@.take(k + 1), i) || old(self).visits().marked(i)) by {
                    lemma_listed_push(node_ids@.take(k as int), id, i);
                }
            }
            k = k + 1;
        }
        assert(node_ids@.take(node_ids@.len() as int) =~= node_ids@);
    }

    /// Whether the id was visited.
    pub fn is_marked(&self, node_id: usize) -> (r: bool)
        ensures
            r == self.visits().marked(node_id as int),
    {
        self.visited.is_marked(node_id)
    }

    /// Marks the id as visited; gives whether it had been visited.
    pub fn is_new_marked(&mut self, node_id: usize) -> (r: bool)
        requires
            node_id <= usize::MAX - 64,
            !old(self).visits().marked(node_id as int) ==> old(self).visits().counted() < usize::MAX,
        ensures
            r == old(self).visits().marked(node_id as int),
            forall|i: int| #[trigger] final(self).visits().marked(i) == (i == node_id || old(self).visits().marked(i)),
            old(self).visits().consistent() ==> final(self).visits().consistent(),
            final(self).queued() == old(self).queued(),
            final(self).graph() == old(self).graph(),
            final(self).follows_inputs() == old(self).follows_inputs(),
    {
        self.visited.is_new_marked(node_id)
    }

    /// Whether nothing is queued.
    pub fn is_empty(&self) -> (r: bool)
        ensures
            r == (self.queued().len() == 0),
    {
        self.queue.len() == 0
    }

    /// The number of visited ids, as the bit map keeps it.
    pub fn count(&self) -> (r: usize)
        ensures
            r == self.visits().counted(),
    {
        self.visited.count()
    }

    /// Forgets every visit and empties the queue.
    pub fn clear(&mut self)
        ensures
            forall|i: int| !final(self).visits().marked(i),
            final(self).visits().consistent(),
            final(self).queued().len() == 0,
            final(self).graph() == old(self).graph(),
            final(self).follows_inputs() == old(self).follows_inputs(),
    {
        self.visited.clear_all();
        self.queue.clear();
    }

    /// The graph flooded.
    pub fn graph_id(&self) -> (r: usize)
        ensures
            r == self.graph(),
    {
        self.graph_id
    }

    /// The visited marks.
    pub fn visited(&self) -> (r: &NodeBitMap)
        ensures
            *r == self.visits(),
    {
        &self.visited
    }

    /// The visited marks, for changing them.
    pub fn visited_mut(&mut self) -> (r: &mut NodeBitMap)
        ensures
            *r == old(self).visits(),
            final(self).visits() == *final(r),
            final(self).queued() == old(self).queued(),
            final(self).graph() == old(self).graph(),
            final(self).follows_inputs() == old(self).follows_inputs(),
    {
        &mut self.visited
    }

    /// Takes the id at the front of the queue, if any.
    pub fn next(&mut self) -> (r: Option<usize>)
        ensures
            old(self).queued().len() == 0 ==> r is None && final(self).queued() == old(self).queued(),
            old(self).queued().len() > 0 ==> r == Some(old(self).queued()[0])
                && final(self).queued() == old(self).queued().drop_first(),
            final(self).visits() == old(self).visits(),
            final(self).graph() == old(self).graph(),
            final(self).follows_inputs() == old(self).follows_inputs(),
    {
        self.queue.pop_front()
    }
}

impl Clone for NodeFlood {
    fn clone(&self) -> (r: Self)
        ensures
            r.visits().marks() == self.visits().marks(),
            r.visits().counted() == self.visits().counted(),
            r.queued() == self.queued(),
            r.graph() == self.graph(),
            r.follows_inputs() == self.follows_inputs(),
    {
        NodeFlood { visited: self.visited.copy(), queue: self.queue.clone(), graph_id: self.graph_id, is_input: self.is_input }
    }
}

} // verus!
