//! Walks over the ids of the nodes of one indexed type.
use vstd::prelude::*;

verus! {

/// A walk over a list of node ids of one indexed type.
#[derive(Debug)]
pub struct TypedGraphNodeIterator {
    graph_id: usize,
    iterable_id: u64,
    position: usize,
    node_ids: Vec<usize>,
}

impl TypedGraphNodeIterator {
    /// The ids walked over.
    pub closed spec fn ids(&self) -> Seq<usize> {
        self.node_ids@
    }

    /// How many ids were given out.
    pub closed spec fn done(&self) -> nat {
        self.position as nat
    }

    /// The graph.
    pub closed spec fn graph(&self) -> usize {
        self.graph_id
    }

    /// The index of the type.
    pub closed spec fn kind(&self) -> u64 {
        self.iterable_id
    }

    #[verifier::type_invariant]
    closed spec fn in_range(&self) -> bool {
        self.position <= self.node_ids@.len()
    }

    /// A walk from the first id.
    pub fn new(graph_id: usize, iterable_id: u64, node_ids: Vec<usize>) -> (r: Self)
        ensures
            r.ids() == node_ids@,
            r.done() == 0,
            r.graph() == graph_id,
            r.kind() == iterable_id,
    {
        TypedGraphNodeIterator { graph_id, iterable_id, position: 0, node_ids }
    }

    /// Whether an id is left.
    pub fn has_next(&self) -> (r: bool)
        ensures
            r == (self.done() < self.ids().len()),
    {
        self.position < self.node_ids.len()
    }

    /// The next id, if any.
    pub fn next(&mut self) -> (r: Option<usize>)
        ensures
            final(self).ids() == old(self).ids(),
            final(self).graph() == old(self).graph(),
            final(self).kind() == old(self).kind(),
            old(self).done() < old(self).ids().len() ==> r == Some(old(self).ids()[old(self).done() as int])
                && final(self).done() == old(self).done() + 1,
            old(self).done() >= old(self).ids().len() ==> r is None && final(self).done() == old(self).done(),
    {
        proof {
            use_type_invariant(&*self);
        }
        if self.position < self.node_ids.len() {
            let id = self.node_ids[self.position];
            self.position = self.position + 1;
            Some(id)
        } else {
            None
        }
    }

    /// The graph.
    pub fn graph_id(&self) -> (r: usize)
        ensures
            r == self.graph(),
    {
        self.graph_id
    }

    /// The index of the type.
    pub fn iterable_id(&self) -> (r: u64)
        ensures
            r == self.kind(),
    {
        self.iterable_id
    }

    /// The number of ids left.
    pub fn remaining(&self) -> (r: usize)
        ensures
            r == self.ids().len() - self.done(),
    {
        proof {
            use_type_invariant(self);
        }
        self.node_ids.len() - self.position
    }
}

} // verus!
