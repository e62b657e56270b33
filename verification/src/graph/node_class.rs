//! What the nodes of one type share: their input and successor edges.
use vstd::prelude::*;
use crate::graph::node::Node;

verus! {

/// What is known of one input: its name, its type, whether it may be absent.
#[derive(Debug, Clone, Copy)]
pub struct InputInfo {
    /// The input's name.
    pub name: &'static str,
    /// The input's type, if restricted.
    pub input_type: Option<&'static str>,
    /// Whether the input may be absent.
    pub optional: bool,
}

impl InputInfo {
    /// The information of one input.
    pub fn new(name: &'static str, input_type: Option<&'static str>, optional: bool) -> (r: Self)
        ensures
            r.name == name,
            r.input_type == input_type,
            r.optional == optional,
    {
        InputInfo { name, input_type, optional }
    }
}

/// The edges of a node type: one offset per edge, and how many edges are
/// required (direct) and optional (indirect).
#[derive(Debug)]
pub struct Edges {
    /// The offset of each edge.
    pub offsets: Vec<usize>,
    /// The number of required edges.
    pub direct_count: usize,
    /// The number of optional edges.
    pub indirect_count: usize,
}

/// The number of optional inputs among the infos.
pub open spec fn optional_count(infos: Seq<InputInfo>) -> nat
    decreases infos.len(),
{
    if infos.len() == 0 {
        0
    } else {
        optional_count(infos.drop_last()) + if infos.last().optional { 1nat } else { 0nat }
    }
}

impl Clone for Edges {
    fn clone(&self) -> (r: Self)
        ensures
            r.offsets@ == self.offsets@,
            r.direct_count == self.direct_count,
            r.indirect_count == self.indirect_count,
    {
        Edges { offsets: self.offsets.clone(), direct_count: self.direct_count, indirect_count: self.indirect_count }
    }
}

impl Edges {
    /// The edges of the inputs: edge `i` at offset `i`; optional inputs
    /// counted as indirect, the others as direct.
    pub fn new(infos: &[InputInfo], direct: bool) -> (r: Self)
        ensures
            r.offsets@.len() == infos@.len(),
            forall|i: int| 0 <= i < infos@.len() ==> r.offsets@[i] == i,
            r.indirect_count == optional_count(infos@),
            r.direct_count + r.indirect_count == infos@.len(),
    {
        let mut offsets: Vec<usize> = Vec::new();
        let mut direct_count: usize = 0;
        let mut indirect_count: usize = 0;
        let mut offset: usize = 0;
        let mut i: usize = 0;
        while i < infos.len()
            invariant
                i <= infos@.len(),
                offset == i,
                offsets@.len() == i,
                forall|k: int| 0 <= k < i ==> offsets@[k] == k,
                indirect_count == optional_count(infos@.take(i as int)),
                direct_count + indirect_count == i,
            decreases infos.len() - i,
        {
            offsets.push(offset);
            assert(infos@.take(i + 1).drop_last() =~= infos@.take(i as int));
            if infos[i].optional {
                indirect_count = indirect_count + 1;
                offset = offset + 1;
            } else {
                direct_count = direct_count + 1;
                offset = offset + 1;
            }
            i = i + 1;
        }
        assert(infos@.take(infos@.len() as int) =~= infos@);
        Edges { offsets, direct_count, indirect_count }
    }

    /// The number of edges, direct and indirect.
    pub fn count(&self) -> (r: usize)
        requires
            self.direct_count + self.indirect_count <= usize::MAX,
        ensures
            r == self.direct_count + self.indirect_count,
    {
        self.direct_count + self.indirect_count
    }

    /// The number of offsets.
    pub fn get_count(&self) -> (r: usize)
        ensures
            r == self.offsets@.len(),
    {
        self.offsets.len()
    }

    /// The offset of an edge (0 beyond the edges).
    pub fn get_offset(&self, index: usize) -> (r: usize)
        ensures
            r == if index < self.offsets@.len() { self.offsets@[index as int] } else { 0 },
    {
        if index < self.offsets.len() {
            self.offsets[index]
        } else {
            0
        }
    }
}

/// What the nodes of one type share; implemented by each node type, for
/// the type of node a graph holds.
pub trait NodeClass<N: Node> {
    /// The name of the type.
    fn java_class_name(&self) -> &'static str;

    /// The template of the node names.
    fn name_template(&self) -> &'static str {
        "{p#nodeClass}"
    }

    /// The input edges.
    fn input_edges(&self) -> &Edges;

    /// The successor edges.
    fn successor_edges(&self) -> &Edges;

    /// Whether the graph indexes nodes of this type.
    fn is_iterable_node_type(&self) -> bool {
        false
    }

    /// Whether no type derives from this one.
    fn is_leaf_class(&self) -> bool {
        false
    }

    /// The index of the type this one derives from, if any.
    fn super_class_id(&self) -> Option<u64> {
        None
    }

    /// The indexes of the type and the types it derives from.
    fn iterable_ids(&self) -> &[u64] {
        &[]
    }

    /// The index of the type.
    fn iterable_id(&self) -> u64 {
        0
    }

    /// A new node of this type.
    fn allocate_instance(&self) -> N;

    /// Whether nodes of the type with the given index are nodes of this one.
    fn is_assignable_from(&self, other_iterable_id: u64) -> bool;
}

} // verus!
