//! Lists of node ids: the edges of one kind of a node.
use vstd::prelude::*;

verus! {

/// A list of node ids.
pub trait NodeList {
    /// The number of entries.
    fn count(&self) -> usize;

    /// The id at an index, if any.
    fn get(&self, index: usize) -> Option<usize>;

    /// Whether the id occurs.
    fn contains(&self, node: usize) -> bool;

    /// The first index of the id, if it occurs.
    fn index_of(&self, node: usize) -> Option<usize>;

    /// Whether the list is a list edge (rather than a single edge).
    fn is_list(&self) -> bool;
}

/// The first index of `x` in `s`, if it occurs.
pub open spec fn first_index(s: Seq<usize>, x: usize) -> Option<int> {
    if exists|i: int| 0 <= i < s.len() && s[i] == x {
        Some(choose|i: int| 0 <= i < s.len() && s[i] == x && forall|j: int| 0 <= j < i ==> s[j] != x)
    } else {
        None
    }
}

/// The first index of `x` among the ids.
pub fn position_of(ids: &Vec<usize>, x: usize) -> (r: Option<usize>)
    ensures
        match r {
            Some(i) => i < ids@.len() && ids@[i as int] == x && forall|j: int| 0 <= j < i ==> ids@[j] != x,
            None => forall|j: int| 0 <= j < ids@.len() ==> ids@[j] != x,
        },
{
    let mut i: usize = 0;
    while i < ids.len()
        invariant
            i <= ids@.len(),
            forall|j: int| 0 <= j < i ==> ids@[j] != x,
        decreases ids.len() - i,
    {
        if ids[i] == x {
            return Some(i);
        }
        i = i + 1;
    }
    None
}

/// A list of at most one id.
#[derive(Debug, Clone, Copy)]
pub struct SingleNodeList {
    node: Option<usize>,
}

impl SingleNodeList {
    /// The id held, if any.
    pub closed spec fn held(&self) -> Option<usize> {
        self.node
    }

    /// A list holding the id, if any.
    pub fn new(node_id: Option<usize>) -> (r: Self)
        ensures
            r.held() == node_id,
    {
        SingleNodeList { node: node_id }
    }

    /// The id held, if any.
    pub fn node_id(&self) -> (r: Option<usize>)
        ensures
            r == self.held(),
    {
        self.node
    }
}

impl NodeList for SingleNodeList {
    fn count(&self) -> (r: usize)
        ensures
            r == if self.held() is Some { 1usize } else { 0usize },
    {
        if self.node.is_some() {
            1
        } else {
            0
        }
    }

    fn get(&self, index: usize) -> (r: Option<usize>)
        ensures
            r == if index == 0 { self.held() } else { None },
    {
        if index == 0 {
            self.node
        } else {
            None
        }
    }

    fn contains(&self, node: usize) -> (r: bool)
        ensures
            r == (self.held() == Some(node)),
    {
        match self.node {
            Some(n) => n == node,
            None => false,
        }
    }

    fn index_of(&self, node: usize) -> (r: Option<usize>)
        ensures
            r == if self.held() == Some(node) { Some(0usize) } else { None },
    {
        match self.node {
            Some(n) => if n == node { Some(0) } else { None },
            None => None,
        }
    }

    fn is_list(&self) -> (r: bool)
        ensures
            !r,
    {
        false
    }
}

/// A list of ids.
#[derive(Debug)]
pub struct SubListNodeList {
    nodes: Vec<usize>,
}

impl SubListNodeList {
    /// The ids, in order.
    pub closed spec fn ids(&self) -> Seq<usize> {
        self.nodes@
    }

    /// A list of the given ids.
    pub fn new(nodes: Vec<usize>) -> (r: Self)
        ensures
            r.ids() == nodes@,
    {
        SubListNodeList { nodes }
    }

    /// A list of a copy of the given ids.
    pub fn from_slice(nodes: &[usize]) -> (r: Self)
        ensures
            r.ids() == nodes@,
    {
        let mut v: Vec<usize> = Vec::new();
        let mut i: usize = 0;
        while i < nodes.len()
            invariant
                i <= nodes@.len(),
                v@ == nodes@.take(i as int),
            decreases nodes.len() - i,
        {
            v.push(nodes[i]);
            assert(nodes@.take(i + 1) =~= nodes@.take(i as int).push(nodes@[i as int]));
            i = i + 1;
        }
        assert(nodes@.take(nodes@.len() as int) =~= nodes@);
        SubListNodeList { nodes: v }
    }
}

impl Clone for SubListNodeList {
    fn clone(&self) -> (r: Self)
        ensures
            r.ids() == self.ids(),
    {
        SubListNodeList { nodes: self.nodes.clone() }
    }
}

impl NodeList for SubListNodeList {
    fn count(&self) -> (r: usize)
        ensures
            r == self.ids().len(),
    {
        self.nodes.len()
    }

    fn get(&self, index: usize) -> (r: Option<usize>)
        ensures
            r == if index < self.ids().len() { Some(self.ids()[index as int]) } else { None },
    {
        if index < self.nodes.len() {
            Some(self.nodes[index])
        } else {
            None
        }
    }

    fn contains(&self, node: usize) -> (r: bool)
        ensures
            r == self.ids().contains(node),
    {
        position_of(&self.nodes, node).is_some()
    }

    fn index_of(&self, node: usize) -> (r: Option<usize>)
        ensures
            match r {
                Some(i) => i < self.ids().len() && self.ids()[i as int] == node
                    && forall|j: int| 0 <= j < i ==> self.ids()[j] != node,
                None => !self.ids().contains(node),
            },
    {
        position_of(&self.nodes, node)
    }

    fn is_list(&self) -> (r: bool)
        ensures
            r,
    {
        true
    }
}

} // verus!
