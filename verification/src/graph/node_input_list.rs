//! The input list of a node: input ids, where id 0 stands for no input.
use vstd::prelude::*;
use crate::graph::node_list::{position_of, NodeList};

verus! {

/// The inputs of a node; an entry 0 is an unset input.
#[derive(Debug)]
pub struct NodeInputList {
    node_ids: Vec<usize>,
    owner_id: usize,
}

impl NodeInputList {
    /// The entries, in order.
    pub closed spec fn ids(&self) -> Seq<usize> {
        self.node_ids@
    }

    /// The owning node.
    pub closed spec fn owner(&self) -> usize {
        self.owner_id
    }

    /// A list of `size` unset inputs.
    pub fn new(owner_id: usize, size: usize) -> (r: Self)
        ensures
            r.ids() == Seq::new(size as nat, |i: int| 0usize),
            r.owner() == owner_id,
    {
        let mut v: Vec<usize> = Vec::new();
        let mut i: usize = 0;
        while i < size
            invariant
                i <= size,
                v@ == Seq::new(i as nat, |k: int| 0usize),
            decreases size - i,
        {
            v.push(0);
            assert(v@ =~= Seq::new((i + 1) as nat, |k: int| 0usize));
            i = i + 1;
        }
        NodeInputList { node_ids: v, owner_id }
    }

    /// A list of a copy of the given entries.
    pub fn from_slice(owner_id: usize, node_ids: &[usize]) -> (r: Self)
        ensures
            r.ids() == node_ids@,
            r.owner() == owner_id,
    {
        let mut v: Vec<usize> = Vec::new();
        let mut i: usize = 0;
        while i < node_ids.len()
            invariant
                i <= node_ids@.len(),
                v@ == node_ids@.take(i as int),
            decreases node_ids.len() - i,
        {
            v.push(node_ids[i]);
            assert(node_ids@.take(i + 1) =~= node_ids@.take(i as int).push(node_ids@[i as int]));
            i = i + 1;
        }
        assert(node_ids@.take(node_ids@.len() as int) =~= node_ids@);
        NodeInputList { node_ids: v, owner_id }
    }

    /// A list of the given entries.
    pub fn from_vec(owner_id: usize, node_ids: Vec<usize>) -> (r: Self)
        ensures
            r.ids() == node_ids@,
            r.owner() == owner_id,
    {
        NodeInputList { node_ids, owner_id }
    }

    /// The number of entries.
    pub fn size(&self) -> (r: usize)
        ensures
            r == self.ids().len(),
    {
        self.node_ids.len()
    }

    /// The owning node.
    pub fn owner_id(&self) -> (r: usize)
        ensures
            r == self.owner(),
    {
        self.owner_id
    }

    /// The entries.
    pub fn node_ids(&self) -> (r: &[usize])
        ensures
            r@ == self.ids(),
    {
        self.node_ids.as_slice()
    }

    /// The input at an index: none beyond the list or where the entry is 0.
    pub fn get_id(&self, index: usize) -> (r: Option<usize>)
        ensures
            r == if index < self.ids().len() && self.ids()[index as int] != 0 {
                Some(self.ids()[index as int])
            } else {
                None
            },
    {
        if index < self.node_ids.len() {
            let id = self.node_ids[index];
            if id == 0 {
                None
            } else {
                Some(id)
            }
        } else {
            None
        }
    }

    /// Sets the entry at an index (nothing changes beyond the list).
    pub fn set_id(&mut self, index: usize, node_id: usize)
        ensures
            final(self).ids() == if index < old(self).ids().len() {
                old(self).ids().update(index as int, node_id)
            } else {
                old(self).ids()
            },
            final(self).owner() == old(self).owner(),
    {
        if index < self.node_ids.len() {
            self.node_ids.set(index, node_id);
        }
    }
}

impl Clone for NodeInputList {
    fn clone(&self) -> (r: Self)
        ensures
            r.ids() == self.ids(),
            r.owner() == self.owner(),
    {
        NodeInputList { node_ids: self.node_ids.clone(), owner_id: self.owner_id }
    }
}

impl NodeList for NodeInputList {
    fn count(&self) -> (r: usize)
        ensures
            r == self.ids().len(),
    {
        self.node_ids.len()
    }

    fn get(&self, index: usize) -> (r: Option<usize>)
        ensures
            r == if index < self.ids().len() { Some(self.ids()[index as int]) } else { None },
    {
        if index < self.node_ids.len() {
            Some(self.node_ids[index])
        } else {
            None
        }
    }

    fn contains(&self, node: usize) -> (r: bool)
        ensures
            r == self.ids().contains(node),
    {
        position_of(&self.node_ids, node).is_some()
    }

    fn index_of(&self, node: usize) -> (r: Option<usize>)
        ensures
            match r {
                Some(i) => i < self.ids().len() && self.ids()[i as int] == node
                    && forall|j: int| 0 <= j < i ==> self.ids()[j] != node,
                None => !self.ids().contains(node),
            },
    {
        position_of(&self.node_ids, node)
    }

    fn is_list(&self) -> (r: bool)
        ensures
            !r,
    {
        false
    }
}

} // verus!
