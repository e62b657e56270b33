//! Positions of edges: which input or successor slot of which node.
use vstd::prelude::*;

verus! {

/// An edge slot of a node.
pub trait Position {
    /// The node at the slot of the given node, if any.
    fn get(&self, node_id: usize) -> Option<usize>;

    /// Sets the slot of the given node.
    fn set(&self, node_id: usize, value: Option<usize>);

    /// Sets the slot of the given node without touching usages.
    fn initialize(&self, node_id: usize, value: Option<usize>);

    /// The edge index.
    fn index(&self) -> usize;

    /// The position within a list edge.
    fn sub_index(&self) -> usize;

    /// Whether the slot is an input (else a successor).
    fn is_input_position(&self) -> bool;

    /// The node owning the slot.
    fn get_owner(&self) -> usize;
}

/// An input slot of a node.
#[derive(Debug, Clone, Copy)]
pub struct InputPosition {
    owner: usize,
    pos_index: usize,
    pos_sub_index: usize,
}

impl InputPosition {
    /// The owner of the slot.
    pub closed spec fn owner_id(&self) -> usize {
        self.owner
    }

    /// The edge index of the slot.
    pub closed spec fn at(&self) -> usize {
        self.pos_index
    }

    /// The position within a list edge.
    pub closed spec fn sub_at(&self) -> usize {
        self.pos_sub_index
    }

    /// The slot at an index, sub-index 0.
    pub fn new(owner: usize, index: usize) -> (r: Self)
        ensures
            r.owner_id() == owner,
            r.at() == index,
            r.sub_at() == 0,
    {
        InputPosition { owner, pos_index: index, pos_sub_index: 0 }
    }

    /// The slot at an index and sub-index.
    pub fn with_sub_index(owner: usize, index: usize, sub_index: usize) -> (r: Self)
        ensures
            r.owner_id() == owner,
            r.at() == index,
            r.sub_at() == sub_index,
    {
        InputPosition { owner, pos_index: index, pos_sub_index: sub_index }
    }
}

impl Position for InputPosition {
    fn get(&self, node_id: usize) -> (r: Option<usize>)
        ensures
            r is None,
    {
        None
    }

    fn set(&self, node_id: usize, value: Option<usize>) {
    }

    fn initialize(&self, node_id: usize, value: Option<usize>) {
    }

    fn index(&self) -> (r: usize)
        ensures
            r == self.at(),
    {
        self.pos_index
    }

    fn sub_index(&self) -> (r: usize)
        ensures
            r == self.sub_at(),
    {
        self.pos_sub_index
    }

    fn is_input_position(&self) -> (r: bool)
        ensures
            r,
    {
        true
    }

    fn get_owner(&self) -> (r: usize)
        ensures
            r == self.owner_id(),
    {
        self.owner
    }
}

/// A successor slot of a node.
#[derive(Debug, Clone, Copy)]
pub struct SuccessorPosition {
    owner: usize,
    pos_index: usize,
    pos_sub_index: usize,
}

impl SuccessorPosition {
    /// The owner of the slot.
    pub closed spec fn owner_id(&self) -> usize {
        self.owner
    }

    /// The edge index of the slot.
    pub closed spec fn at(&self) -> usize {
        self.pos_index
    }

    /// The position within a list edge.
    pub closed spec fn sub_at(&self) -> usize {
        self.pos_sub_index
    }

    /// The slot at an index, sub-index 0.
    pub fn new(owner: usize, index: usize) -> (r: Self)
        ensures
            r.owner_id() == owner,
            r.at() == index,
            r.sub_at() == 0,
    {
        SuccessorPosition { owner, pos_index: index, pos_sub_index: 0 }
    }

    /// The slot at an index and sub-index.
    pub fn with_sub_index(owner: usize, index: usize, sub_index: usize) -> (r: Self)
        ensures
            r.owner_id() == owner,
            r.at() == index,
            r.sub_at() == sub_index,
    {
        SuccessorPosition { owner, pos_index: index, pos_sub_index: sub_index }
    }
}

impl Position for SuccessorPosition {
    fn get(&self, node_id: usize) -> (r: Option<usize>)
        ensures
            r is None,
    {
        None
    }

    fn set(&self, node_id: usize, value: Option<usize>) {
    }

    fn initialize(&self, node_id: usize, value: Option<usize>) {
    }

    fn index(&self) -> (r: usize)
        ensures
            r == self.at(),
    {
        self.pos_index
    }

    fn sub_index(&self) -> (r: usize)
        ensures
            r == self.sub_at(),
    {
        self.pos_sub_index
    }

    fn is_input_position(&self) -> (r: bool)
        ensures
            !r,
    {
        false
    }

    fn get_owner(&self) -> (r: usize)
        ensures
            r == self.owner_id(),
    {
        self.owner
    }
}

} // verus!
