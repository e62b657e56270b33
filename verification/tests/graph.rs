use rustci::graph::graal_graph_error::GraalGraphError;
use rustci::graph::graph::Graph;
use rustci::graph::node::{ModCounts, Node, UsagePredicate, UsageRecord, Verbosity};
use rustci::graph::node_bit_map::NodeBitMap;
use rustci::graph::node_class::{Edges, InputInfo};
use rustci::graph::node_flood::NodeFlood;
use rustci::graph::node_input_list::NodeInputList;
use rustci::graph::node_list::{NodeList, SingleNodeList, SubListNodeList};
use rustci::graph::node_source_position::NodeSourcePosition;
use rustci::graph::node_source_position_filter::NodeSourcePositionFilter;
use rustci::graph::node_union_find::NodeUnionFind;
use rustci::graph::node_usage_with_count_iterator::NodeUsageWithCountIterator;
use rustci::graph::node_work_list::NodeWorkList;
use rustci::graph::position::{InputPosition, Position, SuccessorPosition};
use rustci::graph::typed_graph_node_iterator::TypedGraphNodeIterator;
use vstd::seq::Seq;

struct TestNode {
    id: usize,
    inputs: Vec<Option<usize>>,
}

impl Node for TestNode {
    // Specification functions: they describe the node to the verifier and
    // are never called when the program runs.
    fn node_id(&self) -> usize {
        self.id
    }
    fn node_graph(&self) -> Option<usize> {
        Some(0)
    }
    fn input_ids(&self) -> Seq<Option<usize>> {
        unreachable!()
    }
    fn successor_ids(&self) -> Seq<Option<usize>> {
        unreachable!()
    }
    fn kind_text(&self) -> Seq<char> {
        unreachable!()
    }
    fn property_texts(&self) -> Seq<(Seq<char>, Seq<char>)> {
        unreachable!()
    }

    fn debug_properties(&self) -> Vec<(String, String)> {
        Vec::new()
    }
    fn id(&self) -> usize {
        self.id
    }
    fn graph_id(&self) -> Option<usize> {
        Some(0)
    }
    fn is_deleted(&self) -> bool {
        false
    }
    fn mark_deleted(&mut self) {}
    fn input_at(&self, index: usize) -> Option<usize> {
        self.inputs.get(index).copied().flatten()
    }
    fn input_count(&self) -> usize {
        self.inputs.len()
    }
    fn set_input(&mut self, index: usize, value: Option<usize>) {
        self.inputs[index] = value;
    }
    fn initialize_input(&mut self, index: usize, value: Option<usize>) {
        self.inputs[index] = value;
    }
    fn successor_at(&self, _index: usize) -> Option<usize> {
        None
    }
    fn successor_count(&self) -> usize {
        0
    }
    fn set_successor(&mut self, _index: usize, _value: Option<usize>) {}
    fn initialize_successor(&mut self, _index: usize, _value: Option<usize>) {}
    fn usage_count(&self) -> usize {
        0
    }
    fn usages(&self) -> Vec<UsageRecord> {
        Vec::new()
    }
    fn usages_with_count(&self) -> Vec<(UsageRecord, usize)> {
        Vec::new()
    }
    fn replace_at_usages(&mut self, _other: usize) {}
    fn replace_at_matching_usages(&mut self, _other: usize, _predicate: &dyn UsagePredicate) {}
    fn replace_at_predecessor(&mut self, _other: usize) {}
    fn replace_first_input(&mut self, _old_input: usize, _new_input: usize) -> bool {
        false
    }
    fn replace_first_successor(&mut self, _old: usize, _new: usize) -> bool {
        false
    }
    fn safe_delete(&mut self) {}
    fn check_delete(&self) -> bool {
        true
    }
    fn verify(&self) {}
    fn verify_inputs(&self) {}
    fn verify_edges(&self) {}
    fn copy_with_inputs(&self) -> Self {
        TestNode { id: self.id, inputs: self.inputs.clone() }
    }
    fn kind_name(&self) -> String {
        "TestNode".to_string()
    }
    fn debug_text(&self) -> String {
        format!("TestNode({})", self.id)
    }
}

fn node(id: usize, inputs: Vec<Option<usize>>) -> TestNode {
    TestNode { id, inputs }
}

#[test]
fn bit_map_marks_and_counts() {
    let mut m = NodeBitMap::new(7, 10);
    assert_eq!(m.graph_id(), 7);
    assert!(m.is_empty());
    m.mark(3);
    assert!(m.is_marked(3));
    assert!(!m.is_marked(4));
    assert_eq!(m.count(), 1);
    m.mark(3);
    assert_eq!(m.count(), 1);
    assert!(!m.is_new_marked(130));
    assert!(m.is_new_marked(130));
    assert_eq!(m.count(), 2);
    m.clear(3);
    assert!(!m.is_marked(3));
    assert_eq!(m.count(), 1);
    m.invert();
    assert_eq!(m.count(), 3 * 64 - 1);
    assert!(m.is_marked(3));
    assert!(!m.is_marked(130));
    m.clear_all();
    assert_eq!(m.count(), 0);
    assert!(!m.is_not_empty());
}

#[test]
fn bit_map_combinations() {
    let mut a = NodeBitMap::new(0, 64);
    let mut b = NodeBitMap::new(0, 64);
    a.mark(1);
    a.mark(2);
    b.mark(2);
    b.mark(5);
    let mut i = a.copy();
    i.intersect(&b);
    assert!(i.is_marked(2) && !i.is_marked(1) && !i.is_marked(5));
    assert_eq!(i.count(), 1);
    let mut u = a.copy();
    u.union(&b);
    assert_eq!(u.count(), 3);
    let mut s = a.copy();
    s.set_all(&b);
    assert!(s.is_marked(5) && !s.is_marked(1));
    let mut n = a.clone();
    n.and(&b);
    assert_eq!(n.count(), 1);
    let mut it = u.iter_marked();
    assert_eq!(it.next(), Some(1));
    assert_eq!(it.next(), Some(2));
    assert_eq!(it.next(), Some(5));
    assert_eq!(it.next(), None);
    let mut g = NodeBitMap::new(0, 1);
    g.grow(200);
    g.mark(199);
    assert!(g.is_marked(199));
}

#[test]
fn union_find_joins_sets() {
    let mut u = NodeUnionFind::new(3, 5);
    u.union(0, 1);
    u.union(3, 4);
    assert!(u.is_same(0, 1));
    assert!(!u.is_same(1, 3));
    u.union(1, 4);
    assert!(u.is_same(0, 3));
    assert!(!u.is_same(2, 0));
    assert_eq!(u.find(9), 9);
    assert_eq!(u.graph_id(), 3);
    let root = u.find(4);
    assert_eq!(u.find(0), root);
    let mut c = u.clone();
    assert!(c.is_same(0, 4));
}

#[test]
fn flood_queues_known_nodes_again() {
    let mut f = NodeFlood::new(1, 8);
    f.add(2);
    assert!(f.is_marked(2));
    assert_eq!(f.next(), None);
    f.add(2);
    assert_eq!(f.next(), Some(2));
    f.add_all(&[4, 4]);
    assert_eq!(f.next(), Some(4));
    assert!(f.is_empty());
    assert_eq!(f.count(), 2);
    assert!(f.is_new_marked(2));
    let g = NodeFlood::with_direction(1, 8, false);
    assert_eq!(g.graph_id(), 1);
    f.clear();
    assert_eq!(f.count(), 0);
    assert!(!f.visited().is_marked(2));
}

#[test]
fn work_list_queues_once() {
    let mut w = NodeWorkList::new(0, 16);
    w.add(1);
    w.add(2);
    w.add(1);
    w.add_first(5);
    assert_eq!(w.iter(), vec![5, 1, 2]);
    assert!(w.contains(1));
    assert_eq!(w.poll(), Some(5));
    assert_eq!(w.poll(), Some(1));
    w.add(1);
    assert_eq!(w.poll(), Some(2));
    assert_eq!(w.poll(), None);
    assert!(w.is_empty());
    w.add_all(&[3, 3, 4]);
    assert_eq!(w.iter(), vec![3, 4]);
    assert!(w.is_not_empty());
    w.clear();
    assert!(!w.contains(3));
}

#[test]
fn node_lists() {
    let single = SingleNodeList::new(Some(4));
    assert_eq!(single.count(), 1);
    assert_eq!(single.get(0), Some(4));
    assert_eq!(single.get(1), None);
    assert_eq!(single.index_of(4), Some(0));
    assert!(!single.is_list());
    assert_eq!(SingleNodeList::new(None).count(), 0);
    let sub = SubListNodeList::from_slice(&[7, 8, 7]);
    assert_eq!(sub.index_of(7), Some(0));
    assert_eq!(sub.index_of(9), None);
    assert!(sub.contains(8));
    assert!(sub.is_list());
    let mut inputs = NodeInputList::new(3, 2);
    assert_eq!(inputs.get_id(0), None);
    inputs.set_id(1, 6);
    inputs.set_id(5, 6);
    assert_eq!(inputs.get_id(1), Some(6));
    assert_eq!(inputs.node_ids(), &[0, 6]);
    assert_eq!(inputs.index_of(6), Some(1));
    assert_eq!(NodeInputList::from_vec(1, vec![2]).owner_id(), 1);
}

#[test]
fn positions_and_edges() {
    let i = InputPosition::with_sub_index(1, 2, 3);
    assert_eq!((i.get_owner(), i.index(), i.sub_index()), (1, 2, 3));
    assert!(i.is_input_position());
    assert!(!SuccessorPosition::new(4, 0).is_input_position());
    let infos = [InputInfo::new("a", None, false), InputInfo::new("b", Some("T"), true), InputInfo::new("c", None, false)];
    let e = Edges::new(&infos, true);
    assert_eq!(e.count(), 3);
    assert_eq!(e.direct_count, 2);
    assert_eq!(e.indirect_count, 1);
    assert_eq!(e.get_offset(2), 2);
    assert_eq!(e.get_offset(9), 0);
    assert_eq!(e.get_count(), 3);
}

#[test]
fn source_positions_and_filter() {
    let outer = NodeSourcePosition::new(None, Some("Outer.run".to_string()), 1);
    let inner = NodeSourcePosition::new(Some(outer.clone()), Some("Inner.call".to_string()), 7);
    assert_eq!(inner.get_call_depth(), 1);
    assert!(inner.source_equals(&inner.clone()));
    assert!(!inner.source_equals(&outer));
    let mut f = NodeSourcePositionFilter::new();
    assert!(f.matches(&inner));
    f.set_method_pattern(Some("Inner".to_string()));
    assert!(f.matches(&inner));
    assert!(!f.matches(&outer));
    f.set_bci_range(0, 5);
    assert!(!f.matches(&inner));
    f.set_bci_range(0, 10);
    f.set_max_depth(Some(0));
    assert!(!f.matches(&inner));
    let mut p = inner.clone();
    p.set_substituted(true);
    assert!(p.is_substituted());
    assert!(!p.source_equals(&inner));
}

#[test]
fn iterators_walk_in_order() {
    let mut t = TypedGraphNodeIterator::new(1, 9, vec![4, 2]);
    assert_eq!(t.remaining(), 2);
    assert_eq!(t.next(), Some(4));
    assert!(t.has_next());
    assert_eq!(t.next(), Some(2));
    assert_eq!(t.next(), None);
    assert_eq!((t.graph_id(), t.iterable_id()), (1, 9));
    let rec = UsageRecord::with_sub_index(3, 1, 2);
    let mut u = NodeUsageWithCountIterator::new(vec![(rec, 2)], 8);
    assert_eq!(u.next().map(|(r, c)| (r.node_id, r.sub_index, c)), Some((3, 2, 2)));
    assert!(u.next().is_none());
    assert_eq!(u.node_id(), 8);
    assert_eq!(UsageRecord::new(1, 2).sub_index, 0);
}

#[test]
fn mod_counts_wrap() {
    let mut m = ModCounts::new();
    m.inc_input_mod_count();
    assert_eq!(m.inputs_mod_count, 1);
    m.successors_mod_count = u32::MAX;
    m.inc_successor_mod_count();
    assert_eq!(m.successors_mod_count, 0);
    assert_eq!(ModCounts::default().inputs_mod_count, 0);
}

#[test]
fn graph_error_text() {
    assert_eq!(GraalGraphError::new("m".to_string()).to_string(), "m");
    let e = GraalGraphError::with_cause("c".to_string(), "m".to_string());
    assert_eq!(e.to_string(), "m: c");
    assert_eq!(e.cause(), Some("c"));
}

#[test]
fn graph_reuses_removed_ids() {
    let mut g: Graph<TestNode> = Graph::new("g".to_string(), 1);
    let a = g.add(node(0, vec![]));
    let b = g.add(node(1, vec![Some(0)]));
    assert_eq!((a, b), (0, 1));
    assert_eq!(g.to_string(), "Graph(g)[2 nodes]");
    g.remove(0);
    assert_eq!(g.get_node_count(), 1);
    assert!(g.node(0).is_none());
    let c = g.add_without_unique(node(2, vec![]));
    assert_eq!(c, 0);
    assert_eq!(g.get_nodes(), vec![0, 1]);
    assert_eq!(g.get_total_node_count(), 2);
    assert_eq!(g.to_string_with_verbosity(Verbosity::Id), "Graph#1");
    assert_eq!(g.to_string_with_verbosity(Verbosity::Name), "Graph(g)");
    assert_eq!(g.to_string_with_verbosity(Verbosity::Short), "Graph(g)[2 nodes]:\n  0: TestNode(2)\n  1: TestNode(1)\n");
    assert_eq!(g.get_nodes_count_of_type(5), 0);
    assert_eq!(g.get_node_work_list().graph_id(), 1);
}

#[test]
fn graph_compresses_and_copies() {
    let mut g: Graph<TestNode> = Graph::new("g".to_string(), 4);
    g.add(node(0, vec![]));
    g.add(node(1, vec![]));
    g.add(node(2, vec![Some(1)]));
    g.remove(0);
    g.remove(1);
    g.maybe_compress();
    assert_eq!(g.get_total_node_count(), 1);
    assert_eq!(g.get_nodes(), vec![0]);
    assert_eq!(g.node(0).unwrap().input_at(0), Some(1));
    g.set_node_source_position(0, NodeSourcePosition::new(None, None, 3));
    g.set_has_assumptions(true);
    let copy = g.copy("h".to_string());
    assert_eq!(copy.name(), "h");
    assert_eq!(copy.id(), 5);
    assert_eq!(copy.get_node_count(), 1);
    assert!(copy.has_assumptions());
    assert_eq!(copy.get_node_source_position(0).unwrap().get_bci(), 3);
    assert_eq!(copy.get_mod_count(), 1);
}

#[test]
fn compression_renumbers_edges_to_packed_ids() {
    let mut g: Graph<TestNode> = Graph::new("g".to_string(), 0);
    g.add(node(0, vec![]));
    g.add(node(1, vec![]));
    g.add(node(2, vec![]));
    g.add(node(3, vec![Some(2), Some(0), Some(9)]));
    g.remove(0);
    g.remove(1);
    g.maybe_compress();
    assert_eq!(g.get_nodes(), vec![0, 1]);
    // Old id 2 becomes 0, old id 3 becomes 1; removed id 0 and id 9 (past the end) stay.
    let moved = g.node(1).unwrap();
    assert_eq!(moved.input_at(0), Some(0));
    assert_eq!(moved.input_at(1), Some(0));
    assert_eq!(moved.input_at(2), Some(9));
}

#[test]
fn copy_renumbers_edges_and_positions() {
    let mut g: Graph<TestNode> = Graph::new("g".to_string(), 0);
    g.add(node(0, vec![]));
    g.add(node(1, vec![]));
    g.add(node(2, vec![Some(1), Some(0)]));
    g.remove(0);
    g.set_node_source_position(2, NodeSourcePosition::new(None, None, 7));
    let c = g.copy("c".to_string());
    assert_eq!(c.get_nodes(), vec![0, 1]);
    let copied = c.node(1).unwrap();
    assert_eq!(copied.input_at(0), Some(0));
    assert_eq!(copied.input_at(1), Some(0));
    assert_eq!(c.get_node_source_position(1).unwrap().get_bci(), 7);
    assert!(c.get_node_source_position(2).is_none());
}

#[test]
fn intersect_clears_words_the_other_lacks() {
    let mut a = NodeBitMap::new(0, 200);
    let mut b = NodeBitMap::new(0, 64);
    a.mark(3);
    a.mark(150);
    b.mark(3);
    a.intersect(&b);
    assert!(a.is_marked(3));
    assert!(!a.is_marked(150));
    assert_eq!(a.count(), 1);
}

#[test]
fn removing_an_absent_id_changes_nothing() {
    let mut g: Graph<TestNode> = Graph::new("g".to_string(), 0);
    g.add(node(0, vec![]));
    g.set_node_source_position(0, NodeSourcePosition::new(None, None, 1));
    let mods = g.get_mod_count();
    g.remove(5);
    assert_eq!(g.get_node_count(), 1);
    assert_eq!(g.get_mod_count(), mods);
    assert_eq!(g.get_node_source_position(0).unwrap().get_bci(), 1);
}

#[test]
fn union_find_closure_of_pairs() {
    let mut u = NodeUnionFind::new(0, 6);
    u.union(0, 1);
    u.union(2, 3);
    assert!(!u.is_same(0, 2));
    u.union(1, 3);
    assert!(u.is_same(0, 2));
    assert!(u.is_same(3, 1));
    assert!(!u.is_same(0, 4));
    assert!(!u.is_same(4, 5));
    assert!(u.is_same(5, 5));
    for x in 0..6 {
        assert!(u.find(x) < 6);
    }
}

#[test]
fn node_mut_changes_only_that_node() {
    let mut g: Graph<TestNode> = Graph::new("g".to_string(), 1);
    g.add(node(0, vec![]));
    g.add(node(1, vec![Some(0)]));
    if let Some(n) = g.node_mut(1) {
        n.inputs = vec![None, Some(1)];
    }
    assert_eq!(g.node(1).unwrap().inputs, vec![None, Some(1)]);
    assert!(g.node(0).unwrap().inputs.is_empty());
    assert_eq!(g.get_node_count(), 2);
    assert!(g.node_mut(7).is_none());
}
