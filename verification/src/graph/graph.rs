//! The compiler graph: the nodes, their ids and the reuse of ids, the index
//! of nodes by type, source positions and compression.
use std::collections::HashMap;
use vstd::prelude::*;
use crate::debug::debug_context::DebugContext;
use crate::graph::bits::{count_true, lemma_count_bound, lemma_count_none, lemma_count_update};
use crate::graph::node::{Node, Verbosity};
use crate::graph::node_class::NodeClass;
use crate::graph::node_source_position::NodeSourcePosition;
use crate::graph::node_work_list::NodeWorkList;
use crate::graph::typed_graph_node_iterator::TypedGraphNodeIterator;
use crate::text::{decimal, owned, push_decimal, push_text};

verus! {

broadcast use vstd::std_specs::hash::group_hash_axioms;

/// A graph of nodes of type `N`. Node ids index the slots of the graph; the
/// ids of removed nodes are given out again before new ones.
pub struct Graph<N: Node> {
    name: String,
    id: usize,
    nodes: Vec<Option<N>>,
    nodes_deleted_since_last_compression: usize,
    node_count: usize,
    mod_count: u32,
    node_id_count: usize,
    iterable_nodes: HashMap<u64, Vec<usize>>,
    nodes_to_iterable_id: HashMap<usize, u64>,
    is_after_expand: bool,
    free_ids: Vec<usize>,
    node_source_positions: HashMap<usize, NodeSourcePosition>,
    has_assumptions: bool,
    verification_enabled: bool,
    debug_context: Option<DebugContext>,
}

/// Whether `value_equals` may answer `b` for the node `e` and the id `id`.
pub open spec fn answers<N: Node>(e: N, id: usize, b: bool) -> bool {
    call_ensures(N::value_equals, (&e, id), b)
}

/// Whether the node at slot `k` of `g`, if any, said it is not equal in
/// value to the node with id `id`.
pub open spec fn none_equal_at<N: Node>(g: Graph<N>, id: usize, k: int) -> bool {
    g.node_at(k) matches Some(e) ==> answers(e, id, false)
}

/// `add_or_get` found the node at slot `r` equal in value to `node`, every
/// node at a slot before `r` unequal, and left the graph as it was.
pub open spec fn reused_equal<N: Node>(before: Graph<N>, after: Graph<N>, node: N, r: usize) -> bool {
    &&& before.node_at(r as int) matches Some(e) && answers(e, node.node_id(), true)
    &&& forall|k: int| 0 <= k < r ==> none_equal_at(before, node.node_id(), k)
    &&& after == before
}

/// `add_or_get` found no node equal in value to `node` and added it under
/// the id `r`, as `add` does.
pub open spec fn added_new<N: Node>(before: Graph<N>, after: Graph<N>, node: N, r: usize) -> bool {
    &&& forall|k: int| (#[trigger] before.node_at(k)) is Some ==> none_equal_at(before, node.node_id(), k)
    &&& after.node_at(r as int) == Some(node)
    &&& before.node_at(r as int) is None
    &&& forall|i: int| i != r ==> #[trigger] after.node_at(i) == before.node_at(i)
    &&& after.live() == before.live() + 1
    &&& before.free().len() > 0 ==> r == before.free().last()
    &&& before.free().len() == 0 ==> r == before.total()
}

/// Which slots hold a node.
pub open spec fn filled<N>(nodes: Seq<Option<N>>) -> Seq<bool> {
    Seq::new(nodes.len(), |i: int| nodes[i] is Some)
}

/// The rank of slot `i`: how many slots before it hold a node.
pub open spec fn rank(slots: Seq<bool>, i: int) -> nat {
    count_true(slots.take(i))
}

/// The id that `x` gets when the nodes are packed in id order: its rank
/// where it holds a node; any other id stays as it is.
pub open spec fn packed_id(slots: Seq<bool>, x: usize) -> usize {
    if x < slots.len() && slots[x as int] { rank(slots, x as int) as usize } else { x }
}

/// Edges (set or not) with each set id packed.
pub open spec fn packed_edges(slots: Seq<bool>, ids: Seq<Option<usize>>) -> Seq<Option<usize>> {
    ids.map_values(|o: Option<usize>| match o {
        Some(x) => Some(packed_id(slots, x)),
        None => None,
    })
}

/// Edges with each set id `x` below the map's length replaced by `map[x]`.
pub open spec fn mapped_edges(map: Seq<usize>, ids: Seq<Option<usize>>) -> Seq<Option<usize>> {
    ids.map_values(|o: Option<usize>| match o {
        Some(x) => Some(if x < map.len() { map[x as int] } else { x }),
        None => None,
    })
}

/// Whether `b` is the node `a` moved into a packed graph: its inputs and
/// successors packed, everything else the same.
pub open spec fn moved_node<N: Node>(slots: Seq<bool>, a: N, b: N) -> bool {
    &&& b.input_ids() == packed_edges(slots, a.input_ids())
    &&& b.successor_ids() == packed_edges(slots, a.successor_ids())
    &&& b.node_id() == a.node_id()
    &&& b.node_graph() == a.node_graph()
    &&& b.kind_text() == a.kind_text()
}

/// Whether the node at old slot `j` of `all` sits, moved, at its rank in `packed`.
pub open spec fn placed<N: Node>(all: Seq<Option<N>>, packed: Seq<Option<N>>, j: int) -> bool {
    match (all[j], packed[rank(filled(all), j) as int]) {
        (Some(a), Some(b)) => moved_node(filled(all), a, b),
        _ => false,
    }
}

/// Whether `b` is a copy of `a` with its edges unchanged.
pub open spec fn copied_node<N: Node>(a: N, b: N) -> bool {
    &&& b.input_ids() == a.input_ids()
    &&& b.successor_ids() == a.successor_ids()
    &&& b.kind_text() == a.kind_text()
}

/// Whether `b` is a copy of `a` moved into a packed graph: its inputs and
/// successors packed.
pub open spec fn packed_copy<N: Node>(slots: Seq<bool>, a: N, b: N) -> bool {
    &&& b.input_ids() == packed_edges(slots, a.input_ids())
    &&& b.successor_ids() == packed_edges(slots, a.successor_ids())
    &&& b.kind_text() == a.kind_text()
}

/// Counting over one more flag adds that flag.
pub(crate) proof fn lemma_rank_step(s: Seq<bool>, j: int)
    requires
        0 <= j < s.len(),
    ensures
        rank(s, j + 1) == rank(s, j) + if s[j] { 1nat } else { 0nat },
{
    assert(s.take(j + 1).drop_last() =~= s.take(j));
}

/// A rank is at most the index, and ranks grow with the index.
pub(crate) proof fn lemma_rank_mono(s: Seq<bool>, a: int, b: int)
    requires
        0 <= a <= b <= s.len(),
    ensures
        rank(s, a) <= rank(s, b),
        rank(s, b) <= b,
    decreases b - a,
{
    lemma_count_bound(s.take(b));
    if a < b {
        lemma_rank_step(s, b - 1);
        lemma_rank_mono(s, a, b - 1);
    }
}

/// The text of a graph: `Graph(<name>)[<count> nodes]`.
pub open spec fn graph_text(name: Seq<char>, count: nat) -> Seq<char> {
    "Graph("@ + name + ")["@ + decimal(count) + " nodes]"@
}

impl<N: Node> Graph<N> {
    /// The graph's name.
    pub closed spec fn title(&self) -> Seq<char> {
        self.name@
    }

    /// The graph's id.
    pub closed spec fn graph(&self) -> usize {
        self.id
    }

    /// Which ids hold a node.
    pub closed spec fn slots(&self) -> Seq<bool> {
        filled(self.nodes@)
    }

    /// The node at an id, if any.
    pub closed spec fn node_at(&self, i: int) -> Option<N> {
        if 0 <= i < self.nodes@.len() { self.nodes@[i] } else { None }
    }

    /// The number of nodes.
    pub closed spec fn live(&self) -> usize {
        self.node_count
    }

    /// The number of ids given out (removed ones included).
    pub closed spec fn total(&self) -> usize {
        self.node_id_count
    }

    /// The modification count.
    pub closed spec fn mods(&self) -> u32 {
        self.mod_count
    }

    /// The number of nodes removed since the last compression.
    pub closed spec fn deleted(&self) -> usize {
        self.nodes_deleted_since_last_compression
    }

    /// The ids free for reuse, the last one first in line.
    pub closed spec fn free(&self) -> Seq<usize> {
        self.free_ids@
    }

    /// Whether expansion has happened.
    pub closed spec fn after_expand(&self) -> bool {
        self.is_after_expand
    }

    /// Whether the graph has assumptions.
    pub closed spec fn assumptions(&self) -> bool {
        self.has_assumptions
    }

    /// Whether verification is on.
    pub closed spec fn verifying(&self) -> bool {
        self.verification_enabled
    }

    /// The source positions, by node id.
    pub closed spec fn positions(&self) -> Map<usize, NodeSourcePosition> {
        self.node_source_positions@
    }

    /// The ids of the nodes of each indexed type.
    pub closed spec fn typed(&self) -> Map<u64, Vec<usize>> {
        self.iterable_nodes@
    }

    /// Whether a debug context is attached.
    pub closed spec fn has_debug_context(&self) -> bool {
        self.debug_context is Some
    }

    /// Whether everything but the nodes themselves is as in `other`.
    pub closed spec fn same_but_nodes(&self, other: &Self) -> bool {
        &&& self.name == other.name
        &&& self.id == other.id
        &&& self.nodes_deleted_since_last_compression == other.nodes_deleted_since_last_compression
        &&& self.node_count == other.node_count
        &&& self.mod_count == other.mod_count
        &&& self.node_id_count == other.node_id_count
        &&& self.iterable_nodes == other.iterable_nodes
        &&& self.nodes_to_iterable_id == other.nodes_to_iterable_id
        &&& self.is_after_expand == other.is_after_expand
        &&& self.free_ids == other.free_ids
        &&& self.node_source_positions == other.node_source_positions
        &&& self.has_assumptions == other.has_assumptions
        &&& self.verification_enabled == other.verification_enabled
        &&& self.debug_context == other.debug_context
    }

    /// Whether the bookkeeping agrees: one slot per id given out, the node
    /// count is the number of filled slots, and the free ids are exactly the
    /// empty slots, each once.
    pub closed spec fn well_formed(&self) -> bool {
        &&& self.nodes@.len() == self.node_id_count
        &&& self.node_count == count_true(filled(self.nodes@))
        &&& forall|k: int| 0 <= k < self.free_ids@.len() ==> (#[trigger] self.free_ids@[k]) < self.nodes@.len()
        &&& forall|k: int| 0 <= k < self.free_ids@.len() ==> self.nodes@[#[trigger] self.free_ids@[k] as int] is None
        &&& forall|i: int| 0 <= i < self.nodes@.len() && self.nodes@[i] is None ==> #[trigger] self.free_ids@.contains(i as usize)
        &&& forall|a: int, b: int| 0 <= a < b < self.free_ids@.len() ==> self.free_ids@[a] != self.free_ids@[b]
    }

    /// An empty graph with the given name and id.
    pub fn new(name: String, id: usize) -> (r: Self)
        ensures
            r.well_formed(),
            r.title() == name@,
            r.graph() == id,
            r.slots().len() == 0,
            r.live() == 0,
            r.total() == 0,
            r.mods() == 0,
            r.deleted() == 0,
            r.free().len() == 0,
            !r.after_expand(),
            !r.assumptions(),
            !r.verifying(),
            r.positions() == Map::<usize, NodeSourcePosition>::empty(),
            r.typed() == Map::<u64, Vec<usize>>::empty(),
            !r.has_debug_context(),
    {
        let r = Graph {
            name,
            id,
            nodes: Vec::new(),
            nodes_deleted_since_last_compression: 0,
            node_count: 0,
            mod_count: 0,
            node_id_count: 0,
            iterable_nodes: HashMap::new(),
            nodes_to_iterable_id: HashMap::new(),
            is_after_expand: false,
            free_ids: Vec::new(),
            node_source_positions: HashMap::new(),
            has_assumptions: false,
            verification_enabled: false,
            debug_context: None,
        };
        assert(filled(r.nodes@) =~= Seq::<bool>::empty());
        r
    }

    /// An empty graph; options do not change how it is built.
    pub fn new_with_options(name: String, id: usize, options: &str) -> (r: Self)
        ensures
            r.well_formed(),
            r.title() == name@,
            r.graph() == id,
            r.slots().len() == 0,
            r.live() == 0,
            r.mods() == 0,
    {
        Self::new(name, id)
    }

    /// The graph's name.
    pub fn name(&self) -> (r: &str)
        ensures
            r@ == self.title(),
    {
        self.name.as_str()
    }

    /// The graph's id.
    pub fn id(&self) -> (r: usize)
        ensures
            r == self.graph(),
    {
        self.id
    }

    /// The number of nodes.
    pub fn get_node_count(&self) -> (r: usize)
        ensures
            r == self.live(),
    {
        self.node_count
    }

    /// The number of ids given out, removed ones included.
    pub fn get_total_node_count(&self) -> (r: usize)
        ensures
            r == self.total(),
    {
        self.node_id_count
    }

    /// The modification count.
    pub fn get_mod_count(&self) -> (r: u32)
        ensures
            r == self.mods(),
    {
        self.mod_count
    }

    /// Whether expansion has happened.
    pub fn is_after_expand(&self) -> (r: bool)
        ensures
            r == self.after_expand(),
    {
        self.is_after_expand
    }

    /// Sets whether expansion has happened.
    pub fn set_after_expand(&mut self, value: bool)
        requires
            old(self).well_formed(),
        ensures
            final(self).well_formed(),
            final(self).after_expand() == value,
            final(self).slots() == old(self).slots(),
            final(self).live() == old(self).live(),
    {
        self.is_after_expand = value;
    }

    /// Whether the graph has assumptions.
    pub fn has_assumptions(&self) -> (r: bool)
        ensures
            r == self.assumptions(),
    {
        self.has_assumptions
    }

    /// Sets whether the graph has assumptions.
    pub fn set_has_assumptions(&mut self, value: bool)
        requires
            old(self).well_formed(),
        ensures
            final(self).well_formed(),
            final(self).assumptions() == value,
            final(self).slots() == old(self).slots(),
            final(self).live() == old(self).live(),
    {
        self.has_assumptions = value;
    }

    /// The id for a new node: the last freed id, else the next new id (with
    /// a new empty slot).
    fn next_node_id(&mut self) -> (r: usize)
        requires
            old(self).well_formed(),
            old(self).free().len() == 0 ==> old(self).total() < usize::MAX,
        ensures
            r < final(self).nodes@.len(),
            final(self).nodes@[r as int] is None,
            old(self).free().len() > 0 ==> r == old(self).free().last() && final(self).nodes@ == old(self).nodes@
                && final(self).free() == old(self).free().drop_last() && final(self).total() == old(self).total(),
            old(self).free().len() == 0 ==> r == old(self).total() && final(self).nodes@ == old(self).nodes@.push(None)
                && final(self).free() == old(self).free() && final(self).total() == old(self).total() + 1,
            final(self).node_count == old(self).node_count,
            final(self).mod_count == old(self).mod_count,
            final(self).nodes_deleted_since_last_compression == old(self).nodes_deleted_since_last_compression,
            final(self).name == old(self).name,
            final(self).id == old(self).id,
            final(self).iterable_nodes == old(self).iterable_nodes,
            final(self).node_source_positions == old(self).node_source_positions,
            final(self).is_after_expand == old(self).is_after_expand,
            final(self).has_assumptions == old(self).has_assumptions,
            final(self).verification_enabled == old(self).verification_enabled,
            final(self).debug_context == old(self).debug_context,
    {
        match self.free_ids.pop() {
            Some(id) => {
                assert(old(self).free_ids@[old(self).free_ids@.len() - 1] == id);
                id
            },
            None => {
                let id = self.node_id_count;
                self.node_id_count = self.node_id_count + 1;
                if id >= self.nodes.len() {
                    self.nodes.push(None);
                }
                id
            },
        }
    }

    /// Puts `node` in a new slot and gives its id.
    fn put(&mut self, node: N) -> (r: usize)
        requires
            old(self).well_formed(),
            old(self).free().len() == 0 ==> old(self).total() < usize::MAX,
        ensures
            final(self).well_formed(),
            r < final(self).slots().len(),
            final(self).node_at(r as int) == Some(node),
            final(self).slots() == if old(self).free().len() > 0 {
                old(self).slots().update(r as int, true)
            } else {
                old(self).slots().push(true)
            },
            forall|i: int| i != r ==> #[trigger] final(self).node_at(i) == old(self).node_at(i),
            old(self).free().len() > 0 ==> r == old(self).free().last() && final(self).free() == old(self).free().drop_last()
                && final(self).total() == old(self).total(),
            old(self).free().len() == 0 ==> r == old(self).total() && final(self).free() == old(self).free()
                && final(self).total() == old(self).total() + 1,
            final(self).live() == old(self).live() + 1,
            final(self).mods() == old(self).mods().wrapping_add(1),
            final(self).deleted() == old(self).deleted(),
            final(self).title() == old(self).title(),
            final(self).graph() == old(self).graph(),
            final(self).positions() == old(self).positions(),
            final(self).typed() == old(self).typed(),
            final(self).after_expand() == old(self).after_expand(),
            final(self).assumptions() == old(self).assumptions(),
            final(self).verifying() == old(self).verifying(),
            final(self).has_debug_context() == old(self).has_debug_context(),
    {
        let ghost before = self.nodes@;
        let ghost free_before = self.free_ids@;
        let id = self.next_node_id();
        let cur_len = self.nodes.len();
        let ghost mid = self.nodes@;
        proof {
            if free_before.len() == 0 {
                assert(filled(mid) =~= filled(before) + seq![false]);
                crate::graph::bits::lemma_count_concat(filled(before), seq![false]);
                lemma_count_none(seq![false]);
            } else {
                assert(filled(mid) =~= filled(before));
            }
            lemma_count_update(filled(mid), id as int, true);
            lemma_count_bound(filled(mid).update(id as int, true));
            assert(filled(mid.update(id as int, Some(node))) =~= filled(mid).update(id as int, true));
        }
        self.nodes.set(id, Some(node));
        self.node_count = self.node_count + 1;
        self.mod_count = self.mod_count.wrapping_add(1);
        proof {
            let f = self.free_ids@;
            let n = self.nodes@;
            assert forall|i: int| 0 <= i < n.len() && n[i] is None implies #[trigger] f.contains(i as usize) by {
                if free_before.len() > 0 {
                    assert(free_before.contains(i as usize));
                    let k = choose|k: int| 0 <= k < free_before.len() && free_before[k] == i as usize;
                    if k == free_before.len() - 1 {
                        assert(i == id);
                    } else {
                        assert(f[k] == i as usize);
                    }
                } else {
                    assert(i < before.len());
                    assert(free_before.contains(i as usize));
                }
            }
            assert forall|k: int| 0 <= k < f.len() implies n[#[trigger] f[k] as int] is None && f[k] < n.len() by {
                assert(free_before[k] == f[k]);
                if f[k] == id {
                    assert(free_before[k] != free_before[free_before.len() - 1]);
                }
            }
            assert(self.nodes@.len() == self.node_id_count);
            assert(self.node_count == count_true(filled(self.nodes@)));
            if free_before.len() > 0 {
                assert(filled(before) == filled(mid));
            }
            assert(self.slots() =~= if free_before.len() > 0 {
                filled(before).update(id as int, true)
            } else {
                filled(before).push(true)
            });
        }
        id
    }

    /// Adds a node and gives its id (a freed id first, else a new one).
    pub fn add(&mut self, node: N) -> (r: usize)
        requires
            old(self).well_formed(),
            old(self).free().len() == 0 ==> old(self).total() < usize::MAX,
        ensures
            final(self).well_formed(),
            final(self).node_at(r as int) == Some(node),
            forall|i: int| i != r ==> #[trigger] final(self).node_at(i) == old(self).node_at(i),
            old(self).free().len() > 0 ==> r == old(self).free().last(),
            old(self).free().len() == 0 ==> r == old(self).total(),
            old(self).free().len() > 0 ==> final(self).total() == old(self).total(),
            old(self).free().len() == 0 ==> final(self).total() == old(self).total() + 1,
            final(self).free() == if old(self).free().len() > 0 { old(self).free().drop_last() } else { old(self).free() },
            final(self).live() == old(self).live() + 1,
            final(self).mods() == old(self).mods().wrapping_add(1),
            final(self).title() == old(self).title(),
            final(self).graph() == old(self).graph(),
    {
        self.put(node)
    }

    /// The id of an equal node already in the graph (the first whose value
    /// equals the new node's id), else the id the new node is added under.
    pub fn add_or_get(&mut self, node: N) -> (r: usize)
        requires
            old(self).well_formed(),
            old(self).free().len() == 0 ==> old(self).total() < usize::MAX,
        ensures
            final(self).well_formed(),
            final(self).node_at(r as int) is Some,
            final(self).live() == old(self).live() || final(self).live() == old(self).live() + 1,
            final(self).live() == old(self).live() ==> final(self).slots() == old(self).slots(),
            final(self).title() == old(self).title(),
            final(self).graph() == old(self).graph(),
            reused_equal(*old(self), *final(self), node, r) || added_new(*old(self), *final(self), node, r),
    {
        let new_id = node.id();
        let mut i: usize = 0;
        while i < self.nodes.len()
            invariant
                i <= self.nodes@.len(),
                self.well_formed(),
                *self == *old(self),
                new_id == node.node_id(),
                forall|k: int| 0 <= k < i ==> none_equal_at(*old(self), new_id, k),
            decreases self.nodes.len() - i,
        {
            match &self.nodes[i] {
                Some(existing) => {
                    let b = existing.value_equals(new_id);
                    proof {
                        assert(call_ensures(N::value_equals, (existing, new_id), b));
                        assert(self.node_at(i as int) == Some(*existing));
                    }
                    if b {
                        return i;
                    }
                },
                None => {},
            }
            i = i + 1;
        }
        proof {
            assert forall|k: int| #[trigger] self.node_at(k) is Some implies none_equal_at(*old(self), new_id, k) by {
                assert(0 <= k < self.nodes@.len());
            }
        }
        self.put(node)
    }

    /// Adds a node without looking for an equal one; gives its id.
    pub fn add_without_unique(&mut self, node: N) -> (r: usize)
        requires
            old(self).well_formed(),
            old(self).free().len() == 0 ==> old(self).total() < usize::MAX,
        ensures
            final(self).well_formed(),
            final(self).node_at(r as int) == Some(node),
            forall|i: int| i != r ==> #[trigger] final(self).node_at(i) == old(self).node_at(i),
            old(self).free().len() > 0 ==> r == old(self).free().last(),
            old(self).free().len() == 0 ==> r == old(self).total(),
            final(self).live() == old(self).live() + 1,
            final(self).mods() == old(self).mods().wrapping_add(1),
            final(self).title() == old(self).title(),
            final(self).graph() == old(self).graph(),
    {
        self.put(node)
    }

    /// Removes the node at the id, if any; its id becomes free for reuse.
    pub fn remove(&mut self, node_id: usize)
        requires
            old(self).well_formed(),
            old(self).node_at(node_id as int) is Some ==> old(self).deleted() < usize::MAX,
        ensures
            final(self).well_formed(),
            final(self).node_at(node_id as int) is None,
            forall|i: int| i != node_id ==> #[trigger] final(self).node_at(i) == old(self).node_at(i),
            old(self).node_at(node_id as int) is Some ==> {
                &&& final(self).live() == old(self).live() - 1
                &&& final(self).deleted() == old(self).deleted() + 1
                &&& final(self).mods() == old(self).mods().wrapping_add(1)
                &&& final(self).free() == old(self).free().push(node_id)
            },
            old(self).node_at(node_id as int) is None ==> {
                &&& final(self).live() == old(self).live()
                &&& final(self).deleted() == old(self).deleted()
                &&& final(self).mods() == old(self).mods()
                &&& final(self).free() == old(self).free()
                &&& *final(self) == *old(self)
            },
            final(self).total() == old(self).total(),
            final(self).title() == old(self).title(),
            final(self).graph() == old(self).graph(),
            final(self).positions() == old(self).positions(),
            final(self).typed() == old(self).typed(),
            final(self).after_expand() == old(self).after_expand(),
            final(self).assumptions() == old(self).assumptions(),
            final(self).verifying() == old(self).verifying(),
            final(self).has_debug_context() == old(self).has_debug_context(),
    {
        if node_id < self.nodes.len() {
            if self.nodes[node_id].is_some() {
                let ghost before = self.nodes@;
                proof {
                    lemma_count_update(filled(before), node_id as int, false);
                    assert(filled(before.update(node_id as int, None)) =~= filled(before).update(node_id as int, false));
                    assert forall|k: int| 0 <= k < self.free_ids@.len() implies #[trigger] self.free_ids@[k] != node_id by {
                        assert(before[self.free_ids@[k] as int] is None);
                    }
                }
                self.nodes.set(node_id, None);
                self.node_count = self.node_count - 1;
                self.nodes_deleted_since_last_compression = self.nodes_deleted_since_last_compression + 1;
                self.mod_count = self.mod_count.wrapping_add(1);
                let ghost free_before = self.free_ids@;
                self.free_ids.push(node_id);
                proof {
                    let f = self.free_ids@;
                    let n = self.nodes@;
                    assert forall|i: int| 0 <= i < n.len() && n[i] is None implies #[trigger] f.contains(i as usize) by {
                        if i == node_id {
                            assert(f[f.len() - 1] == node_id);
                        } else {
                            assert(free_before.contains(i as usize));
                            let k = choose|k: int| 0 <= k < free_before.len() && free_before[k] == i as usize;
                            assert(f[k] == i as usize);
                        }
                    }
                }
            }
        }
    }

    /// The node at the id, if any.
    pub fn node(&self, node_id: usize) -> (r: Option<&N>)
        ensures
            match self.node_at(node_id as int) {
                Some(n) => r == Some(&n),
                None => r is None,
            },
    {
        if node_id < self.nodes.len() {
            match &self.nodes[node_id] {
                Some(n) => Some(n),
                None => None,
            }
        } else {
            None
        }
    }

    /// The node at the id, if any, for changing it.
    pub fn node_mut(&mut self, node_id: usize) -> (r: Option<&mut N>)
        ensures
            r is Some <==> old(self).node_at(node_id as int) is Some,
            r matches Some(n) ==> old(self).node_at(node_id as int) == Some(*n),
            r matches Some(n) ==> final(self).node_at(node_id as int) == Some(*final(n)),
            r is None ==> forall|i: int| #[trigger] final(self).node_at(i) == old(self).node_at(i),
            forall|i: int| i != node_id ==> #[trigger] final(self).node_at(i) == old(self).node_at(i),
            final(self).slots() == old(self).slots(),
            final(self).same_but_nodes(old(self)),
            old(self).well_formed() ==> final(self).well_formed(),
    {
        if node_id < self.nodes.len() {
            let ghost before = self.nodes@;
            proof {
                assert forall|x: Option<N>| (x is Some <==> before[node_id as int] is Some) implies
                    #[trigger] filled(before.update(node_id as int, x)) == filled(before) by {
                    assert(filled(before.update(node_id as int, x)) =~= filled(before));
                }
            }
            self.nodes[node_id].as_mut()
        } else {
            None
        }
    }

    /// The node's id where the graph holds a node at it.
    pub fn get_node_id(&self, node: &N) -> (r: Option<usize>)
        ensures
            r == if self.node_at(node.node_id() as int) is Some { Some(node.node_id()) } else { None::<usize> },
    {
        let id = node.id();
        if id < self.nodes.len() && self.nodes[id].is_some() {
            Some(id)
        } else {
            None
        }
    }

    /// The ids that hold a node, in ascending order.
    pub fn get_nodes(&self) -> (r: Vec<usize>)
        ensures
            forall|k: int| 0 <= k < r@.len() ==> self.node_at(#[trigger] r@[k] as int) is Some,
            forall|i: int| 0 <= i < self.slots().len() && self.slots()[i] ==> #[trigger] r@.contains(i as usize),
            forall|a: int, b: int| 0 <= a < b < r@.len() ==> r@[a] < r@[b],
    {
        let mut ids: Vec<usize> = Vec::new();
        let mut i: usize = 0;
        while i < self.nodes.len()
            invariant
                i <= self.nodes@.len(),
                forall|k: int| 0 <= k < ids@.len() ==> (#[trigger] ids@[k]) < i && self.nodes@[ids@[k] as int] is Some,
                forall|j: int| 0 <= j < i && self.nodes@[j] is Some ==> #[trigger] ids@.contains(j as usize),
                forall|a: int, b: int| 0 <= a < b < ids@.len() ==> ids@[a] < ids@[b],
            decreases self.nodes.len() - i,
        {
            if self.nodes[i].is_some() {
                let ghost before = ids@;
                ids.push(i);
                proof {
                    assert forall|j: int| 0 <= j <= i && self.nodes@[j] is Some implies #[trigger] ids@.contains(j as usize) by {
                        if j == i {
                            assert(ids@[ids@.len() - 1] == i);
                        } else {
                            assert(before.contains(j as usize));
                            let k = choose|k: int| 0 <= k < before.len() && before[k] == j as usize;
                            assert(ids@[k] == j as usize);
                        }
                    }
                }
            }
            i = i + 1;
        }
        ids
    }

    /// A walk over the ids of the nodes of the indexed type (none where the
    /// type has no nodes).
    pub fn get_nodes_of_type(&self, iterable_id: u64) -> (r: TypedGraphNodeIterator)
        ensures
            r.graph() == self.graph(),
            r.kind() == iterable_id,
            r.done() == 0,
            self.typed().contains_key(iterable_id) ==> r.ids() == self.typed()[iterable_id]@,
            !self.typed().contains_key(iterable_id) ==> r.ids().len() == 0,
    {
        let node_ids = match self.iterable_nodes.get(&iterable_id) {
            Some(v) => v.clone(),
            None => Vec::new(),
        };
        TypedGraphNodeIterator::new(self.id, iterable_id, node_ids)
    }

    /// The number of nodes of the indexed type.
    pub fn get_nodes_count_of_type(&self, iterable_id: u64) -> (r: usize)
        ensures
            self.typed().contains_key(iterable_id) ==> r == self.typed()[iterable_id]@.len(),
            !self.typed().contains_key(iterable_id) ==> r == 0,
    {
        match self.iterable_nodes.get(&iterable_id) {
            Some(v) => v.len(),
            None => 0,
        }
    }

    /// The node at the index, if any.
    pub fn get_node_at_index(&self, index: usize) -> (r: Option<&N>)
        ensures
            match self.node_at(index as int) {
                Some(n) => r == Some(&n),
                None => r is None,
            },
    {
        self.node(index)
    }

    /// Adds a new node of the class; gives its id.
    pub fn add_new(&mut self, node_class: &dyn NodeClass<N>) -> (r: usize)
        requires
            old(self).well_formed(),
            old(self).free().len() == 0 ==> old(self).total() < usize::MAX,
        ensures
            final(self).well_formed(),
            final(self).node_at(r as int) is Some,
            final(self).live() == old(self).live() + 1,
            old(self).free().len() > 0 ==> r == old(self).free().last(),
            old(self).free().len() == 0 ==> r == old(self).total(),
    {
        let node = node_class.allocate_instance();
        self.put(node)
    }

    /// Compresses the ids where more than half as many nodes were removed
    /// since the last compression as there are nodes.
    pub fn maybe_compress(&mut self)
        requires
            old(self).well_formed(),
        ensures
            final(self).well_formed(),
            final(self).live() == old(self).live(),
            old(self).deleted() > old(self).live() / 2 ==> final(self).total() == old(self).live()
                && final(self).deleted() == 0 && final(self).free().len() == 0,
            old(self).deleted() <= old(self).live() / 2 ==> *final(self) == *old(self),
            old(self).deleted() > old(self).live() / 2 ==> {
                &&& forall|k: int| 0 <= k < final(self).live() ==> #[trigger] final(self).node_at(k) is Some
                &&& forall|i: int| #[trigger] old(self).node_at(i) is Some ==> (match (
                    old(self).node_at(i),
                    final(self).node_at(rank(old(self).slots(), i) as int),
                ) {
                    (Some(a), Some(b)) => moved_node(old(self).slots(), a, b),
                    _ => false,
                })
                &&& final(self).mods() == old(self).mods().wrapping_add(1)
                &&& final(self).positions() == old(self).positions()
                &&& final(self).typed() == old(self).typed()
            },
    {
        if self.nodes_deleted_since_last_compression > self.node_count / 2 {
            self.compress();
        }
    }

    /// The new id of an old id: its rank among the filled slots, where it is
    /// one; other ids stay as they are.
    fn renumber(map: &Vec<usize>, nodes_len: usize, old_id: usize) -> (r: usize)
        requires
            map@.len() == nodes_len,
        ensures
            r == if old_id < nodes_len { map@[old_id as int] } else { old_id },
    {
        if old_id < nodes_len {
            map[old_id]
        } else {
            old_id
        }
    }

    /// For each old id, the id it gets when the nodes are packed.
    fn pack_map(nodes: &Vec<Option<N>>) -> (r: Vec<usize>)
        ensures
            r@.len() == nodes@.len(),
            forall|x: int| 0 <= x < nodes@.len() ==> #[trigger] r@[x] == packed_id(filled(nodes@), x as usize),
    {
        let n = nodes.len();
        let ghost slots = filled(nodes@);
        let mut old_to_new: Vec<usize> = Vec::new();
        let mut new_id: usize = 0;
        let mut i: usize = 0;
        while i < n
            invariant
                i <= n,
                n == nodes@.len(),
                slots == filled(nodes@),
                old_to_new@.len() == i,
                new_id == rank(slots, i as int),
                new_id <= i,
                forall|x: int| 0 <= x < i ==> #[trigger] old_to_new@[x] == packed_id(slots, x as usize),
            decreases n - i,
        {
            proof {
                lemma_rank_step(slots, i as int);
                lemma_rank_mono(slots, i as int, i as int);
            }
            if nodes[i].is_some() {
                old_to_new.push(new_id);
                new_id = new_id + 1;
            } else {
                old_to_new.push(i);
            }
            i = i + 1;
        }
        old_to_new
    }

    /// The node with its set inputs and successors renumbered by `map`
    /// (ids past the map's end stay).
    fn renumber_edges(node: N, map: &Vec<usize>) -> (r: N)
        ensures
            r.input_ids() == mapped_edges(map@, node.input_ids()),
            r.successor_ids() == mapped_edges(map@, node.successor_ids()),
            r.node_id() == node.node_id(),
            r.node_graph() == node.node_graph(),
            r.kind_text() == node.kind_text(),
    {
        let n = map.len();
        let ghost a = node;
        let ghost target_inputs = mapped_edges(map@, a.input_ids());
        let ghost target_succs = mapped_edges(map@, a.successor_ids());
        let mut node = node;
        let inputs = node.input_count();
        let mut q: usize = 0;
        while q < inputs
            invariant
                q <= inputs,
                inputs == a.input_ids().len(),
                n == map@.len(),
                target_inputs == mapped_edges(map@, a.input_ids()),
                node.input_ids().len() == inputs,
                forall|r: int| 0 <= r < q ==> #[trigger] node.input_ids()[r] == target_inputs[r],
                forall|r: int| q <= r < inputs ==> #[trigger] node.input_ids()[r] == a.input_ids()[r],
                node.successor_ids() == a.successor_ids(),
                node.node_id() == a.node_id(),
                node.node_graph() == a.node_graph(),
                node.kind_text() == a.kind_text(),
            decreases inputs - q,
        {
            match node.input_at(q) {
                Some(old_input) => {
                    let new_input = Self::renumber(map, n, old_input);
                    node.initialize_input(q, Some(new_input));
                },
                None => {},
            }
            q = q + 1;
        }
        assert(node.input_ids() =~= target_inputs);
        let successors = node.successor_count();
        let mut q: usize = 0;
        while q < successors
            invariant
                q <= successors,
                successors == a.successor_ids().len(),
                n == map@.len(),
                target_succs == mapped_edges(map@, a.successor_ids()),
                node.successor_ids().len() == successors,
                forall|r: int| 0 <= r < q ==> #[trigger] node.successor_ids()[r] == target_succs[r],
                forall|r: int| q <= r < successors ==> #[trigger] node.successor_ids()[r] == a.successor_ids()[r],
                node.input_ids() == target_inputs,
                node.node_id() == a.node_id(),
                node.node_graph() == a.node_graph(),
                node.kind_text() == a.kind_text(),
            decreases successors - q,
        {
            match node.successor_at(q) {
                Some(old_succ) => {
                    let new_succ = Self::renumber(map, n, old_succ);
                    node.initialize_successor(q, Some(new_succ));
                },
                None => {},
            }
            q = q + 1;
        }
        assert(node.successor_ids() =~= target_succs);
        node
    }

    /// Gives the nodes consecutive ids in their order, updating their edges:
    /// the node at old id `i` moves to id `rank(i)`, and every set input or
    /// successor that is the id of a node is renumbered the same way (ids of
    /// empty slots and ids past the end stay). Positions and the type index
    /// are kept as they are.
    fn compress(&mut self)
        requires
            old(self).well_formed(),
        ensures
            final(self).well_formed(),
            final(self).live() == old(self).live(),
            final(self).total() == old(self).live(),
            final(self).deleted() == 0,
            final(self).free().len() == 0,
            final(self).mods() == old(self).mods().wrapping_add(1),
            final(self).title() == old(self).title(),
            final(self).graph() == old(self).graph(),
            forall|k: int| 0 <= k < final(self).live() ==> #[trigger] final(self).node_at(k) is Some,
            forall|i: int| #[trigger] old(self).node_at(i) is Some ==> (match (old(self).node_at(i), final(self).node_at(rank(old(self).slots(), i) as int)) {
                (Some(a), Some(b)) => moved_node(old(self).slots(), a, b),
                _ => false,
            }),
            final(self).positions() == old(self).positions(),
            final(self).typed() == old(self).typed(),
            final(self).after_expand() == old(self).after_expand(),
            final(self).assumptions() == old(self).assumptions(),
            final(self).verifying() == old(self).verifying(),
            final(self).has_debug_context() == old(self).has_debug_context(),
    {
        let n = self.nodes.len();
        let ghost all = self.nodes@;
        let ghost slots = filled(all);
        let old_to_new = Self::pack_map(&self.nodes);
        let mut old_nodes: Vec<Option<N>> = Vec::new();
        std::mem::swap(&mut old_nodes, &mut self.nodes);
        let rebuilt = Self::pack_nodes(old_nodes, &old_to_new);
        assert(slots.take(n as int) =~= slots);
        proof {
            assert(filled(rebuilt@) =~= Seq::new(rebuilt@.len(), |q: int| true));
            lemma_count_all(rebuilt@.len() as nat);
        }
        self.nodes = rebuilt;
        self.node_id_count = self.node_count;
        self.nodes_deleted_since_last_compression = 0;
        self.free_ids.clear();
        self.mod_count = self.mod_count.wrapping_add(1);
        proof {
            assert forall|i2: int| #[trigger] old(self).node_at(i2) is Some implies (match (old(self).node_at(i2), self.node_at(rank(old(self).slots(), i2) as int)) {
                (Some(a), Some(b)) => moved_node(old(self).slots(), a, b),
                _ => false,
            }) by {
                assert(all[i2] is Some);
                assert(placed(all, rebuilt@, i2));
                lemma_rank_mono(slots, i2 + 1, n as int);
                lemma_rank_step(slots, i2);
            }
        }
    }

    /// The filled slots of `nodes`, in order, each node with its edges
    /// renumbered by `map`, which gives each old id its packed id.
    #[verifier::rlimit(40)]
    fn pack_nodes(nodes: Vec<Option<N>>, map: &Vec<usize>) -> (r: Vec<Option<N>>)
        requires
            map@.len() == nodes@.len(),
            forall|x: int| 0 <= x < nodes@.len() ==> #[trigger] map@[x] == packed_id(filled(nodes@), x as usize),
        ensures
            r@.len() == count_true(filled(nodes@)),
            forall|q: int| 0 <= q < r@.len() ==> (#[trigger] r@[q]) is Some,
            forall|j: int| 0 <= j < nodes@.len() && (#[trigger] nodes@[j]) is Some ==> placed(nodes@, r@, j),
    {
        let n = nodes.len();
        let ghost all = nodes@;
        let ghost slots = filled(all);
        let mut old_nodes = nodes;
        let mut rebuilt: Vec<Option<N>> = Vec::new();
        let mut k: usize = 0;
        while old_nodes.len() > 0
            invariant
                k + old_nodes@.len() == n,
                all.len() == n,
                slots == filled(all),
                old_nodes@ == all.skip(k as int),
                rebuilt@.len() == rank(slots, k as int),
                forall|q: int| 0 <= q < rebuilt@.len() ==> (#[trigger] rebuilt@[q]) is Some,
                map@.len() == n,
                forall|x: int| 0 <= x < n ==> #[trigger] map@[x] == packed_id(slots, x as usize),
                forall|j: int| 0 <= j < k && (#[trigger] all[j]) is Some ==> placed(all, rebuilt@, j),
            decreases old_nodes@.len(),
        {
            let slot = old_nodes.remove(0);
            proof {
                assert(all.skip(k as int)[0] == all[k as int]);
                assert(all.skip(k as int).drop_first() =~= all.skip(k + 1));
                lemma_rank_step(slots, k as int);
            }
            match slot {
                Some(node) => {
                    let ghost a = node;
                    let node = Self::renumber_edges(node, map);
                    proof {
                        assert(mapped_edges(map@, a.input_ids()) =~= packed_edges(slots, a.input_ids()));
                        assert(mapped_edges(map@, a.successor_ids()) =~= packed_edges(slots, a.successor_ids()));
                    }
                    let ghost before = rebuilt@;
                    rebuilt.push(Some(node));
                    proof {
                        assert forall|j: int| 0 <= j < k + 1 && (#[trigger] all[j]) is Some implies placed(all, rebuilt@, j) by {
                            if j < k {
                                assert(placed(all, before, j));
                                lemma_rank_step(slots, j);
                                lemma_rank_mono(slots, j + 1, k as int);
                                assert(rebuilt@[rank(slots, j) as int] == before[rank(slots, j) as int]);
                            }
                        }
                    }
                },
                None => {},
            }
            k = k + 1;
        }
        assert(slots.take(n as int) =~= slots);
        rebuilt
    }

    /// The source position of the node at the id, if set.
    pub fn get_node_source_position(&self, node_id: usize) -> (r: Option<&NodeSourcePosition>)
        ensures
            match r {
                Some(p) => self.positions().contains_key(node_id) && *p == self.positions()[node_id],
                None => !self.positions().contains_key(node_id),
            },
    {
        self.node_source_positions.get(&node_id)
    }

    /// Sets the source position of the node at the id.
    pub fn set_node_source_position(&mut self, node_id: usize, pos: NodeSourcePosition)
        requires
            old(self).well_formed(),
        ensures
            final(self).well_formed(),
            final(self).positions() == old(self).positions().insert(node_id, pos),
            forall|i: int| #[trigger] final(self).node_at(i) == old(self).node_at(i),
            final(self).slots() == old(self).slots(),
            final(self).live() == old(self).live(),
            final(self).free() == old(self).free(),
            final(self).total() == old(self).total(),
            final(self).title() == old(self).title(),
            final(self).graph() == old(self).graph(),
            final(self).assumptions() == old(self).assumptions(),
            final(self).verifying() == old(self).verifying(),
            final(self).after_expand() == old(self).after_expand(),
            final(self).has_debug_context() == old(self).has_debug_context(),
    {
        self.node_source_positions.insert(node_id, pos);
    }

    /// Verifies every node, where verification is on.
    pub fn verify(&self) {
        if !self.verification_enabled {
            return;
        }
        let mut i: usize = 0;
        while i < self.nodes.len()
            decreases self.nodes.len() - i,
        {
            match &self.nodes[i] {
                Some(node) => node.verify(),
                None => {},
            }
            i = i + 1;
        }
    }

    /// Turns verification on or off.
    pub fn set_verification_enabled(&mut self, enabled: bool)
        requires
            old(self).well_formed(),
        ensures
            final(self).well_formed(),
            final(self).verifying() == enabled,
            final(self).slots() == old(self).slots(),
            final(self).live() == old(self).live(),
    {
        self.verification_enabled = enabled;
    }

    /// The text of the graph: `Graph(<name>)[<count> nodes]`.
    pub fn to_string(&self) -> (r: String)
        ensures
            r@ == graph_text(self.title(), self.live() as nat),
    {
        let mut s = owned("Graph(");
        push_text(&mut s, self.name.as_str());
        push_text(&mut s, ")[");
        push_decimal(&mut s, self.node_count as u64);
        push_text(&mut s, " nodes]");
        s
    }

    /// The text of the graph with the given verbosity: `Graph#<id>` (Id),
    /// `Graph(<name>)` (Name), else the text, a colon and one line per node.
    pub fn to_string_with_verbosity(&self, verbosity: Verbosity) -> (r: String)
        ensures
            verbosity == Verbosity::Id ==> r@ == "Graph#"@ + decimal(self.graph() as nat),
            verbosity == Verbosity::Name ==> r@ == "Graph("@ + self.title() + ")"@,
            verbosity != Verbosity::Id && verbosity != Verbosity::Name ==> r@.take(
                graph_text(self.title(), self.live() as nat).len() as int + 2,
            ) == graph_text(self.title(), self.live() as nat) + ":\n"@,
    {
        match verbosity {
            Verbosity::Id => {
                let mut s = owned("Graph#");
                push_decimal(&mut s, self.id as u64);
                s
            },
            Verbosity::Name => {
                let mut s = owned("Graph(");
                push_text(&mut s, self.name.as_str());
                push_text(&mut s, ")");
                s
            },
            _ => {
                let mut s = self.to_string();
                push_text(&mut s, ":\n");
                proof {
                    reveal_strlit(":\n");
                }
                let ghost head = s@;
                let mut i: usize = 0;
                while i < self.nodes.len()
                    invariant
                        head.len() <= s@.len(),
                        s@.take(head.len() as int) == head,
                    decreases self.nodes.len() - i,
                {
                    match &self.nodes[i] {
                        Some(node) => {
                            let ghost before = s@;
                            push_text(&mut s, "  ");
                            push_decimal(&mut s, i as u64);
                            push_text(&mut s, ": ");
                            let text = node.debug_text();
                            push_text(&mut s, text.as_str());
                            push_text(&mut s, "\n");
                            assert(s@.take(head.len() as int) =~= before.take(head.len() as int));
                        },
                        None => {},
                    }
                    i = i + 1;
                }
                s
            },
        }
    }

    /// The debug context attached, if any.
    pub fn get_debug_context(&self) -> (r: Option<&DebugContext>)
        ensures
            r is Some <==> self.has_debug_context(),
    {
        match &self.debug_context {
            Some(c) => Some(c),
            None => None,
        }
    }

    /// Attaches a debug context.
    pub fn set_debug_context(&mut self, ctx: DebugContext)
        requires
            old(self).well_formed(),
        ensures
            final(self).well_formed(),
            final(self).has_debug_context(),
            final(self).slots() == old(self).slots(),
            final(self).live() == old(self).live(),
    {
        self.debug_context = Some(ctx);
    }

    /// A new work list for the graph, sized for the ids given out.
    pub fn get_node_work_list(&self) -> (r: NodeWorkList)
        requires
            self.total() <= usize::MAX - 64,
        ensures
            r.graph() == self.graph(),
            r.queued().len() == 0,
            forall|i: int| !r.seen().marked(i),
    {
        NodeWorkList::new(self.id, self.node_id_count)
    }

    /// A copy of the graph under a new name and the next graph id: the node
    /// at id `i` is copied to id `rank(i)` (the copies keep their order and
    /// take consecutive ids), each set input or successor that is the id of
    /// a node is renumbered the same way (other ids stay), and each source
    /// position of a node is carried over to its new id.
    pub fn copy(&self, name: String) -> (r: Self)
        requires
            self.well_formed(),
            self.graph() < usize::MAX,
        ensures
            r.well_formed(),
            r.title() == name@,
            r.graph() == self.graph() + 1,
            r.live() == self.live(),
            r.total() == self.live(),
            r.free().len() == 0,
            r.assumptions() == self.assumptions(),
            r.verifying() == self.verifying(),
            r.after_expand() == self.after_expand(),
            !r.has_debug_context(),
            forall|j: int| #[trigger] self.node_at(j) is Some ==> (match (self.node_at(j), r.node_at(rank(self.slots(), j) as int)) {
                (Some(a), Some(b)) => packed_copy(self.slots(), a, b),
                _ => false,
            }),
            forall|p: usize| #[trigger] self.positions().contains_key(p) && p < self.slots().len() && self.slots()[p as int]
                ==> r.positions().contains_key(rank(self.slots(), p as int) as usize)
                && r.positions()[rank(self.slots(), p as int) as usize] == self.positions()[p],
    {
        let mut new_graph: Graph<N> = Graph::new(name, self.id + 1);
        new_graph.has_assumptions = self.has_assumptions;
        new_graph.verification_enabled = self.verification_enabled;
        new_graph.is_after_expand = self.is_after_expand;
        let n = self.nodes.len();
        let ghost slots = self.slots();
        let old_to_new = self.copy_nodes_into(&mut new_graph);
        let mut j: usize = 0;
        while j < n
            invariant
                j <= n,
                n == self.nodes@.len(),
                slots == self.slots(),
                self.well_formed(),
                old_to_new@.len() == n,
                forall|x: int| 0 <= x < n ==> #[trigger] old_to_new@[x] == if slots[x] { Some(rank(slots, x) as usize) } else { None },
                new_graph.well_formed(),
                new_graph.free().len() == 0,
                new_graph.live() == count_true(slots),
                new_graph.total() == count_true(slots),
                new_graph.title() == name@,
                new_graph.graph() == self.graph() + 1,
                new_graph.assumptions() == self.assumptions(),
                new_graph.verifying() == self.verifying(),
                new_graph.after_expand() == self.after_expand(),
                !new_graph.has_debug_context(),
                new_graph.positions() == Map::<usize, NodeSourcePosition>::empty(),
                forall|k: int| 0 <= k < n && #[trigger] self.node_at(k) is Some ==> (match (self.node_at(k), new_graph.node_at(rank(slots, k) as int)) {
                    (Some(a), Some(b)) => if k < j { packed_copy(slots, a, b) } else { copied_node(a, b) },
                    _ => false,
                }),
            decreases n - j,
        {
            if self.nodes[j].is_some() {
                let id = match old_to_new[j] {
                    Some(id) => id,
                    None => 0,
                };
                proof {
                    lemma_rank_step(slots, j as int);
                    lemma_rank_mono(slots, j + 1, n as int);
                    assert(slots.take(n as int) =~= slots);
                }
                let ghost before = new_graph;
                self.fix_copied_edges(&mut new_graph, j, id, &old_to_new);
                proof {
                    assert forall|k: int| 0 <= k < n && #[trigger] self.node_at(k) is Some implies (match (self.node_at(k), new_graph.node_at(rank(slots, k) as int)) {
                        (Some(a), Some(b)) => if k < j + 1 { packed_copy(slots, a, b) } else { copied_node(a, b) },
                        _ => false,
                    }) by {
                        if k != j {
                            if k < j {
                                lemma_rank_step(slots, k);
                                lemma_rank_mono(slots, k + 1, j as int);
                            } else {
                                lemma_rank_step(slots, j as int);
                                lemma_rank_mono(slots, j + 1, k);
                            }
                            assert(new_graph.node_at(rank(slots, k) as int) == before.node_at(rank(slots, k) as int));
                        }
                    }
                }
            }
            j = j + 1;
        }
        let mut p: usize = 0;
        while p < n
            invariant
                p <= n,
                n == self.nodes@.len(),
                slots == self.slots(),
                old_to_new@.len() == n,
                forall|x: int| 0 <= x < n ==> #[trigger] old_to_new@[x] == if slots[x] { Some(rank(slots, x) as usize) } else { None },
                new_graph.well_formed(),
                new_graph.free().len() == 0,
                new_graph.live() == count_true(slots),
                new_graph.total() == count_true(slots),
                new_graph.title() == name@,
                new_graph.graph() == self.graph() + 1,
                new_graph.assumptions() == self.assumptions(),
                new_graph.verifying() == self.verifying(),
                new_graph.after_expand() == self.after_expand(),
                !new_graph.has_debug_context(),
                forall|k: int| 0 <= k < n && #[trigger] self.node_at(k) is Some ==> (match (self.node_at(k), new_graph.node_at(rank(slots, k) as int)) {
                    (Some(a), Some(b)) => packed_copy(slots, a, b),
                    _ => false,
                }),
                forall|q: usize| #[trigger] self.positions().contains_key(q) && q < p && slots[q as int]
                    ==> new_graph.positions().contains_key(rank(slots, q as int) as usize)
                    && new_graph.positions()[rank(slots, q as int) as usize] == self.positions()[q],
            decreases n - p,
        {
            match self.node_source_positions.get(&p) {
                Some(pos) => match old_to_new[p] {
                    Some(new_id) => {
                        let ghost before = new_graph.positions();
                        new_graph.set_node_source_position(new_id, pos.clone());
                        proof {
                            assert forall|q: usize| #[trigger] self.positions().contains_key(q) && q < p + 1 && slots[q as int]
                                implies new_graph.positions().contains_key(rank(slots, q as int) as usize)
                                && new_graph.positions()[rank(slots, q as int) as usize] == self.positions()[q] by {
                                if q < p {
                                    lemma_rank_step(slots, q as int);
                                    lemma_rank_mono(slots, q + 1, p as int);
                                    lemma_rank_mono(slots, p as int, n as int);
                                }
                            }
                        }
                    },
                    None => {},
                },
                None => {},
            }
            p = p + 1;
        }
        proof {
            assert(slots.take(n as int) =~= slots);
            assert forall|j2: int| #[trigger] self.node_at(j2) is Some implies (match (self.node_at(j2), new_graph.node_at(rank(self.slots(), j2) as int)) {
                (Some(a), Some(b)) => packed_copy(self.slots(), a, b),
                _ => false,
            }) by {
                assert(0 <= j2 < n);
            }
        }
        new_graph
    }

    /// Puts a copy of every node into `new_graph`, an empty graph, in id
    /// order; gives for each id the id of its copy.
    fn copy_nodes_into(&self, new_graph: &mut Graph<N>) -> (map: Vec<Option<usize>>)
        requires
            self.well_formed(),
            old(new_graph).well_formed(),
            old(new_graph).free().len() == 0,
            old(new_graph).total() == 0,
            old(new_graph).live() == 0,
        ensures
            final(new_graph).well_formed(),
            final(new_graph).free().len() == 0,
            final(new_graph).live() == count_true(self.slots()),
            final(new_graph).total() == count_true(self.slots()),
            map@.len() == self.slots().len(),
            forall|x: int| 0 <= x < self.slots().len() ==> #[trigger] map@[x] == if self.slots()[x] {
                Some(rank(self.slots(), x) as usize)
            } else {
                None
            },
            forall|k: int| #[trigger] self.node_at(k) is Some ==> (match (self.node_at(k), final(new_graph).node_at(rank(self.slots(), k) as int)) {
                (Some(a), Some(b)) => copied_node(a, b),
                _ => false,
            }),
            final(new_graph).title() == old(new_graph).title(),
            final(new_graph).graph() == old(new_graph).graph(),
            final(new_graph).positions() == old(new_graph).positions(),
            final(new_graph).assumptions() == old(new_graph).assumptions(),
            final(new_graph).verifying() == old(new_graph).verifying(),
            final(new_graph).after_expand() == old(new_graph).after_expand(),
            final(new_graph).has_debug_context() == old(new_graph).has_debug_context(),
    {
        let n = self.nodes.len();
        let ghost slots = self.slots();
        let mut old_to_new: Vec<Option<usize>> = Vec::new();
        let mut i: usize = 0;
        while i < n
            invariant
                i <= n,
                n == self.nodes@.len(),
                slots == self.slots(),
                new_graph.well_formed(),
                new_graph.free().len() == 0,
                new_graph.total() == rank(slots, i as int),
                new_graph.live() == rank(slots, i as int),
                rank(slots, i as int) <= i,
                old_to_new@.len() == i,
                forall|x: int| 0 <= x < i ==> #[trigger] old_to_new@[x] == if slots[x] { Some(rank(slots, x) as usize) } else { None },
                forall|k: int| 0 <= k < i && #[trigger] self.node_at(k) is Some ==> (match (self.node_at(k), new_graph.node_at(rank(slots, k) as int)) {
                    (Some(a), Some(b)) => copied_node(a, b),
                    _ => false,
                }),
                new_graph.title() == old(new_graph).title(),
                new_graph.graph() == old(new_graph).graph(),
                new_graph.positions() == old(new_graph).positions(),
                new_graph.assumptions() == old(new_graph).assumptions(),
                new_graph.verifying() == old(new_graph).verifying(),
                new_graph.after_expand() == old(new_graph).after_expand(),
                new_graph.has_debug_context() == old(new_graph).has_debug_context(),
            decreases n - i,
        {
            proof {
                lemma_rank_step(slots, i as int);
            }
            match &self.nodes[i] {
                Some(node) => {
                    let cloned = node.copy_with_inputs();
                    let ghost before = *new_graph;
                    let id = new_graph.put(cloned);
                    old_to_new.push(Some(id));
                    proof {
                        assert forall|k: int| 0 <= k < i + 1 && #[trigger] self.node_at(k) is Some implies (match (self.node_at(k), new_graph.node_at(rank(slots, k) as int)) {
                            (Some(a), Some(b)) => copied_node(a, b),
                            _ => false,
                        }) by {
                            if k < i {
                                lemma_rank_step(slots, k);
                                lemma_rank_mono(slots, k + 1, i as int);
                            }
                        }
                    }
                },
                None => {
                    old_to_new.push(None);
                },
            }
            i = i + 1;
        }
        proof {
            assert(slots.take(n as int) =~= slots);
        }
        old_to_new
    }

    /// Renumbers, in `new_graph`, the edges of the copy (at `id`) of the node
    /// at old id `j`: each set input or successor of the original that is the
    /// id of a node gets the id of that node's copy.
    fn fix_copied_edges(&self, new_graph: &mut Graph<N>, j: usize, id: usize, map: &Vec<Option<usize>>)
        requires
            self.well_formed(),
            old(new_graph).well_formed(),
            j < self.slots().len(),
            map@.len() == self.slots().len(),
            forall|x: int| 0 <= x < self.slots().len() ==> #[trigger] map@[x] == if self.slots()[x] {
                Some(rank(self.slots(), x) as usize)
            } else {
                None
            },
            match (self.node_at(j as int), old(new_graph).node_at(id as int)) {
                (Some(a), Some(b)) => copied_node(a, b),
                _ => false,
            },
        ensures
            match (self.node_at(j as int), final(new_graph).node_at(id as int)) {
                (Some(a), Some(b)) => packed_copy(self.slots(), a, b),
                _ => false,
            },
            forall|k: int| k != id ==> #[trigger] final(new_graph).node_at(k) == old(new_graph).node_at(k),
            final(new_graph).well_formed(),
            final(new_graph).slots() == old(new_graph).slots(),
            final(new_graph).live() == old(new_graph).live(),
            final(new_graph).free() == old(new_graph).free(),
            final(new_graph).total() == old(new_graph).total(),
            final(new_graph).title() == old(new_graph).title(),
            final(new_graph).graph() == old(new_graph).graph(),
            final(new_graph).assumptions() == old(new_graph).assumptions(),
            final(new_graph).verifying() == old(new_graph).verifying(),
            final(new_graph).after_expand() == old(new_graph).after_expand(),
            final(new_graph).has_debug_context() == old(new_graph).has_debug_context(),
            final(new_graph).positions() == old(new_graph).positions(),
    {
        let n = self.nodes.len();
        let ghost slots = self.slots();
        let node = match &self.nodes[j] {
            Some(node) => node,
            None => {
                return;
            },
        };
        let ghost a = *node;
        let ghost ti = packed_edges(slots, a.input_ids());
        let ghost ts = packed_edges(slots, a.successor_ids());
        let inputs = node.input_count();
        let mut q: usize = 0;
        while q < inputs
            invariant
                q <= inputs,
                inputs == a.input_ids().len(),
                a == *node,
                n == slots.len(),
                map@.len() == n,
                forall|x: int| 0 <= x < n ==> #[trigger] map@[x] == if slots[x] { Some(rank(slots, x) as usize) } else { None },
                ti == packed_edges(slots, a.input_ids()),
                new_graph.well_formed(),
                forall|k: int| k != id ==> #[trigger] new_graph.node_at(k) == old(new_graph).node_at(k),
                new_graph.slots() == old(new_graph).slots(),
                new_graph.live() == old(new_graph).live(),
                new_graph.free() == old(new_graph).free(),
                new_graph.total() == old(new_graph).total(),
                new_graph.title() == old(new_graph).title(),
                new_graph.graph() == old(new_graph).graph(),
                new_graph.assumptions() == old(new_graph).assumptions(),
                new_graph.verifying() == old(new_graph).verifying(),
                new_graph.after_expand() == old(new_graph).after_expand(),
                new_graph.has_debug_context() == old(new_graph).has_debug_context(),
                new_graph.positions() == old(new_graph).positions(),
                match new_graph.node_at(id as int) {
                    Some(b) => {
                        &&& b.input_ids().len() == inputs
                        &&& (forall|r: int| 0 <= r < q ==> #[trigger] b.input_ids()[r] == ti[r])
                        &&& (forall|r: int| q <= r < inputs ==> #[trigger] b.input_ids()[r] == a.input_ids()[r])
                        &&& b.successor_ids() == a.successor_ids()
                        &&& b.kind_text() == a.kind_text()
                    },
                    None => false,
                },
            decreases inputs - q,
        {
            let ghost b0 = new_graph.node_at(id as int)->0;
            match node.input_at(q) {
                Some(old_input) => {
                    if old_input < n {
                        match map[old_input] {
                            Some(new_input) => {
                                new_graph.initialize_input_of(id, q, new_input);
                                assert(ti[q as int] == Some(new_input));
                            },
                            None => {
                                assert(ti[q as int] == Some(old_input));
                            },
                        }
                    } else {
                        assert(ti[q as int] == Some(old_input));
                    }
                },
                None => {
                    assert(ti[q as int] is None);
                },
            }
            q = q + 1;
        }
        let successors = node.successor_count();
        let mut q: usize = 0;
        while q < successors
            invariant
                q <= successors,
                successors == a.successor_ids().len(),
                a == *node,
                n == slots.len(),
                map@.len() == n,
                forall|x: int| 0 <= x < n ==> #[trigger] map@[x] == if slots[x] { Some(rank(slots, x) as usize) } else { None },
                ti == packed_edges(slots, a.input_ids()),
                ts == packed_edges(slots, a.successor_ids()),
                new_graph.well_formed(),
                forall|k: int| k != id ==> #[trigger] new_graph.node_at(k) == old(new_graph).node_at(k),
                new_graph.slots() == old(new_graph).slots(),
                new_graph.live() == old(new_graph).live(),
                new_graph.free() == old(new_graph).free(),
                new_graph.total() == old(new_graph).total(),
                new_graph.title() == old(new_graph).title(),
                new_graph.graph() == old(new_graph).graph(),
                new_graph.assumptions() == old(new_graph).assumptions(),
                new_graph.verifying() == old(new_graph).verifying(),
                new_graph.after_expand() == old(new_graph).after_expand(),
                new_graph.has_debug_context() == old(new_graph).has_debug_context(),
                new_graph.positions() == old(new_graph).positions(),
                match new_graph.node_at(id as int) {
                    Some(b) => {
                        &&& b.successor_ids().len() == successors
                        &&& (forall|r: int| 0 <= r < q ==> #[trigger] b.successor_ids()[r] == ts[r])
                        &&& (forall|r: int| q <= r < successors ==> #[trigger] b.successor_ids()[r] == a.successor_ids()[r])
                        &&& b.input_ids() == ti
                        &&& b.kind_text() == a.kind_text()
                    },
                    None => false,
                },
            decreases successors - q,
        {
            match node.successor_at(q) {
                Some(old_succ) => {
                    if old_succ < n {
                        match map[old_succ] {
                            Some(new_succ) => {
                                new_graph.initialize_successor_of(id, q, new_succ);
                                assert(ts[q as int] == Some(new_succ));
                            },
                            None => {
                                assert(ts[q as int] == Some(old_succ));
                            },
                        }
                    } else {
                        assert(ts[q as int] == Some(old_succ));
                    }
                },
                None => {
                    assert(ts[q as int] is None);
                },
            }
            q = q + 1;
        }
        proof {
            match new_graph.node_at(id as int) {
                Some(b) => {
                    assert(b.input_ids() =~= ti);
                    assert(b.successor_ids() =~= ts);
                },
                None => {},
            }
        }
    }

    /// Sets an input of the node at the id, without touching usages.
    fn initialize_input_of(&mut self, node_id: usize, index: usize, value: usize)
        requires
            old(self).well_formed(),
        ensures
            forall|i: int| i != node_id ==> #[trigger] final(self).node_at(i) == old(self).node_at(i),
            match (old(self).node_at(node_id as int), final(self).node_at(node_id as int)) {
                (Some(a), Some(b)) => {
                    &&& b.input_ids() == if index < a.input_ids().len() {
                        a.input_ids().update(index as int, Some(value))
                    } else {
                        a.input_ids()
                    }
                    &&& b.successor_ids() == a.successor_ids()
                    &&& b.node_id() == a.node_id()
                    &&& b.node_graph() == a.node_graph()
                    &&& b.kind_text() == a.kind_text()
                },
                (None, None) => true,
                _ => false,
            },
            final(self).well_formed(),
            final(self).slots() == old(self).slots(),
            final(self).live() == old(self).live(),
            final(self).free() == old(self).free(),
            final(self).total() == old(self).total(),
            final(self).title() == old(self).title(),
            final(self).graph() == old(self).graph(),
            final(self).assumptions() == old(self).assumptions(),
            final(self).verifying() == old(self).verifying(),
            final(self).after_expand() == old(self).after_expand(),
            final(self).has_debug_context() == old(self).has_debug_context(),
            final(self).positions() == old(self).positions(),
    {
        if node_id < self.nodes.len() {
            let ghost before = self.nodes@;
            let slot = self.nodes.remove(node_id);
            match slot {
                Some(mut node) => {
                    node.initialize_input(index, Some(value));
                    self.nodes.insert(node_id, Some(node));
                },
                None => {
                    self.nodes.insert(node_id, None);
                },
            }
            proof {
                assert(filled(self.nodes@) =~= filled(before));
                assert forall|i: int| 0 <= i < self.nodes@.len() implies (self.nodes@[i] is None) == (before[i] is None) by {
                    assert(filled(self.nodes@)[i] == filled(before)[i]);
                }
            }
        }
    }

    /// Sets a successor of the node at the id, without touching predecessors.
    fn initialize_successor_of(&mut self, node_id: usize, index: usize, value: usize)
        requires
            old(self).well_formed(),
        ensures
            forall|i: int| i != node_id ==> #[trigger] final(self).node_at(i) == old(self).node_at(i),
            match (old(self).node_at(node_id as int), final(self).node_at(node_id as int)) {
                (Some(a), Some(b)) => {
                    &&& b.successor_ids() == if index < a.successor_ids().len() {
                        a.successor_ids().update(index as int, Some(value))
                    } else {
                        a.successor_ids()
                    }
                    &&& b.input_ids() == a.input_ids()
                    &&& b.node_id() == a.node_id()
                    &&& b.node_graph() == a.node_graph()
                    &&& b.kind_text() == a.kind_text()
                },
                (None, None) => true,
                _ => false,
            },
            final(self).well_formed(),
            final(self).slots() == old(self).slots(),
            final(self).live() == old(self).live(),
            final(self).free() == old(self).free(),
            final(self).total() == old(self).total(),
            final(self).title() == old(self).title(),
            final(self).graph() == old(self).graph(),
            final(self).assumptions() == old(self).assumptions(),
            final(self).verifying() == old(self).verifying(),
            final(self).after_expand() == old(self).after_expand(),
            final(self).has_debug_context() == old(self).has_debug_context(),
            final(self).positions() == old(self).positions(),
    {
        if node_id < self.nodes.len() {
            let ghost before = self.nodes@;
            let slot = self.nodes.remove(node_id);
            match slot {
                Some(mut node) => {
                    node.initialize_successor(index, Some(value));
                    self.nodes.insert(node_id, Some(node));
                },
                None => {
                    self.nodes.insert(node_id, None);
                },
            }
            proof {
                assert(filled(self.nodes@) =~= filled(before));
                assert forall|i: int| 0 <= i < self.nodes@.len() implies (self.nodes@[i] is None) == (before[i] is None) by {
                    assert(filled(self.nodes@)[i] == filled(before)[i]);
                }
            }
        }
    }
}

/// Every flag of an all-true sequence counts.
proof fn lemma_count_all(n: nat)
    ensures
        count_true(Seq::new(n, |q: int| true)) == n,
    decreases n,
{
    if n > 0 {
        assert(Seq::new(n, |q: int| true).drop_last() =~= Seq::new((n - 1) as nat, |q: int| true));
        lemma_count_all((n - 1) as nat);
    }
}

} // verus!
