//! Nodes of the compiler graph: the interface every node type implements,
//! usage records and edge modification counts.
use vstd::prelude::*;
use crate::graph::node_class::InputInfo;
use crate::text::{owned, push_char, push_decimal, push_text};

verus! {

/// A usage: the node that uses another as an input, and where.
#[derive(Debug, Clone, Copy, PartialEq, Eq, Structural)]
pub struct UsageRecord {
    /// The using node.
    pub node_id: usize,
    /// The input (or successor) index in the using node.
    pub index: usize,
    /// The position within a list of inputs.
    pub sub_index: usize,
}

impl UsageRecord {
    /// A usage at an index, with sub-index 0.
    pub fn new(node_id: usize, index: usize) -> (r: Self)
        ensures
            r == (UsageRecord { node_id, index, sub_index: 0 }),
    {
        UsageRecord { node_id, index, sub_index: 0 }
    }

    /// A usage at an index and sub-index.
    pub fn with_sub_index(node_id: usize, index: usize, sub_index: usize) -> (r: Self)
        ensures
            r == (UsageRecord { node_id, index, sub_index }),
    {
        UsageRecord { node_id, index, sub_index }
    }
}

/// How much a node's text shows.
#[derive(Debug, Clone, Copy, PartialEq, Eq, Structural)]
pub enum Verbosity {
    /// The type and id.
    Id,
    /// The type only.
    Name,
    /// The type and id, short.
    Short,
    /// The type and id, with the debug properties.
    Long,
    /// Everything.
    All,
}

/// Decides which usages of a node are replaced.
pub trait UsagePredicate {
    /// Whether the using node is selected.
    fn test(&self, node_id: usize) -> bool;
}

/// The text `<label><sep><id>`.
pub fn labelled_id(label: &str, sep: char, id: usize) -> (r: String)
    ensures
        r@ == label@ + seq![sep] + crate::text::decimal(id as nat),
{
    let mut r = owned(label);
    push_char(&mut r, sep);
    push_decimal(&mut r, id as u64);
    r
}

/// Debug properties as they follow a node's text: ` name=value` each.
pub open spec fn properties_text(ps: Seq<(Seq<char>, Seq<char>)>) -> Seq<char>
    decreases ps.len(),
{
    if ps.len() == 0 {
        Seq::empty()
    } else {
        properties_text(ps.drop_last()) + seq![' '] + ps.last().0 + seq!['='] + ps.last().1
    }
}

/// The text of a node of the given type name, id and debug properties at a
/// verbosity: the name, then `#id` (Id), nothing (Name), `@id` (Short, All),
/// or `@id` followed, where there are properties, by ` {`, the properties
/// and ` }` (Long).
pub open spec fn node_text(
    kind: Seq<char>,
    id: usize,
    props: Seq<(Seq<char>, Seq<char>)>,
    verbosity: Verbosity,
) -> Seq<char> {
    match verbosity {
        Verbosity::Id => kind + seq!['#'] + crate::text::decimal(id as nat),
        Verbosity::Name => kind,
        Verbosity::Long => kind + seq!['@'] + crate::text::decimal(id as nat) + if props.len() > 0 {
            seq![' ', '{'] + properties_text(props) + seq![' ', '}']
        } else {
            Seq::empty()
        },
        _ => kind + seq!['@'] + crate::text::decimal(id as nat),
    }
}

/// A node of the compiler graph; implemented by each node type. Nodes refer
/// to other nodes by id.
pub trait Node {
    /// The node's id in its graph.
    spec fn node_id(&self) -> usize;

    /// The graph the node is in, if it is alive.
    spec fn node_graph(&self) -> Option<usize>;

    /// The node's inputs, by index; an unset input is `None`.
    spec fn input_ids(&self) -> Seq<Option<usize>>;

    /// The node's successors, by index; an unset successor is `None`.
    spec fn successor_ids(&self) -> Seq<Option<usize>>;

    /// The name of the node's type.
    spec fn kind_text(&self) -> Seq<char>;

    /// The node's debug properties, as (name, value).
    spec fn property_texts(&self) -> Seq<(Seq<char>, Seq<char>)>;

    /// The node's id in its graph.
    fn id(&self) -> (r: usize)
        ensures
            r == self.node_id(),
    ;

    /// The graph the node is in, if it is alive.
    fn graph_id(&self) -> (r: Option<usize>)
        ensures
            r == self.node_graph(),
    ;

    /// Whether the node is in a graph.
    fn is_alive(&self) -> (r: bool)
        ensures
            r == self.node_graph() is Some,
    {
        self.graph_id().is_some()
    }

    /// Whether the node was deleted.
    fn is_deleted(&self) -> bool;

    /// Marks the node deleted.
    fn mark_deleted(&mut self);

    /// The input at an index, if set.
    fn input_at(&self, index: usize) -> (r: Option<usize>)
        ensures
            index < self.input_ids().len() ==> r == self.input_ids()[index as int],
    ;

    /// The number of inputs.
    fn input_count(&self) -> (r: usize)
        ensures
            r == self.input_ids().len(),
    ;

    /// Sets an input, keeping usages up to date.
    fn set_input(&mut self, index: usize, value: Option<usize>);

    /// Sets an input without touching usages.
    fn initialize_input(&mut self, index: usize, value: Option<usize>)
        ensures
            index < old(self).input_ids().len() ==> final(self).input_ids() == old(self).input_ids().update(
                index as int,
                value,
            ),
            index >= old(self).input_ids().len() ==> final(self).input_ids() == old(self).input_ids(),
            final(self).successor_ids() == old(self).successor_ids(),
            final(self).node_id() == old(self).node_id(),
            final(self).node_graph() == old(self).node_graph(),
            final(self).kind_text() == old(self).kind_text(),
    ;

    /// The input at a list index and sub-index, if set.
    fn input_list_at(&self, index: usize, sub_index: usize) -> Option<usize> {
        None
    }

    /// Sets the input at a list index and sub-index.
    fn set_input_list_at(&mut self, index: usize, sub_index: usize, value: Option<usize>) {
    }

    /// Sets the input at a list index and sub-index without touching usages.
    fn initialize_input_list_at(&mut self, index: usize, sub_index: usize, value: Option<usize>) {
    }

    /// The successor at an index, if set.
    fn successor_at(&self, index: usize) -> (r: Option<usize>)
        ensures
            index < self.successor_ids().len() ==> r == self.successor_ids()[index as int],
    ;

    /// The number of successors.
    fn successor_count(&self) -> (r: usize)
        ensures
            r == self.successor_ids().len(),
    ;

    /// Sets a successor.
    fn set_successor(&mut self, index: usize, value: Option<usize>);

    /// Sets a successor without touching predecessors.
    fn initialize_successor(&mut self, index: usize, value: Option<usize>)
        ensures
            index < old(self).successor_ids().len() ==> final(self).successor_ids()
                == old(self).successor_ids().update(index as int, value),
            index >= old(self).successor_ids().len() ==> final(self).successor_ids() == old(self).successor_ids(),
            final(self).input_ids() == old(self).input_ids(),
            final(self).node_id() == old(self).node_id(),
            final(self).node_graph() == old(self).node_graph(),
            final(self).kind_text() == old(self).kind_text(),
    ;

    /// The successor at a list index and sub-index, if set.
    fn successor_list_at(&self, index: usize, sub_index: usize) -> Option<usize> {
        None
    }

    /// Sets the successor at a list index and sub-index.
    fn set_successor_list_at(&mut self, index: usize, sub_index: usize, value: Option<usize>) {
    }

    /// Sets the successor at a list index and sub-index without touching predecessors.
    fn initialize_successor_list_at(&mut self, index: usize, sub_index: usize, value: Option<usize>) {
    }

    /// Whether another node uses this one.
    fn has_usages(&self) -> bool {
        self.usage_count() > 0
    }

    /// The number of usages.
    fn usage_count(&self) -> usize;

    /// The usages.
    fn usages(&self) -> Vec<UsageRecord>;

    /// The usages, each with its count.
    fn usages_with_count(&self) -> Vec<(UsageRecord, usize)>;

    /// Replaces this node by `other` at every usage.
    fn replace_at_usages(&mut self, other: usize);

    /// Replaces this node by `other` at the usages the predicate selects.
    fn replace_at_matching_usages(&mut self, other: usize, predicate: &dyn UsagePredicate);

    /// Replaces this node by `other` at its predecessor.
    fn replace_at_predecessor(&mut self, other: usize);

    /// Replaces the first input `old_input` by `new_input`; whether one was found.
    fn replace_first_input(&mut self, old_input: usize, new_input: usize) -> bool;

    /// Replaces the first successor `old_successor` by `new_successor`; whether one was found.
    fn replace_first_successor(&mut self, old_successor: usize, new_successor: usize) -> bool;

    /// Deletes the node, which must have no usages.
    fn safe_delete(&mut self);

    /// Whether the node can be deleted.
    fn check_delete(&self) -> bool;

    /// Verifies the node.
    fn verify(&self);

    /// Verifies the node's inputs.
    fn verify_inputs(&self);

    /// Verifies the node's edges.
    fn verify_edges(&self);

    /// Whether this node equals another in value: here, whether it has that id.
    fn value_equals(&self, other: usize) -> bool {
        self.id() == other
    }

    /// A copy of this node with the same inputs and successors.
    fn copy_with_inputs(&self) -> (r: Self) where Self: Sized
        ensures
            r.input_ids() == self.input_ids(),
            r.successor_ids() == self.successor_ids(),
            r.kind_text() == self.kind_text(),
    ;

    /// The node's debug properties, as (name, value).
    fn debug_properties(&self) -> (r: Vec<(String, String)>)
        ensures
            r@.map_values(|p: (String, String)| (p.0@, p.1@)) == self.property_texts(),
    ;

    /// When the node was made.
    fn creation_time(&self) -> u64 {
        0
    }

    /// Whether the node may be used as an input of the given kind.
    fn is_allowed_usage_type(&self, input_info: &InputInfo) -> bool {
        true
    }

    /// The text of the node with the given verbosity: the node's type name,
    /// then `#id` (Id), nothing (Name), `@id` (Short, All), or `@id` and the
    /// debug properties as ` {` ` name=value`... ` }` (Long, where it has any).
    fn to_string_with_verbosity(&self, verbosity: Verbosity) -> (r: String)
        ensures
            r@ == node_text(self.kind_text(), self.node_id(), self.property_texts(), verbosity),
    {
        let name = self.kind_name();
        match verbosity {
            Verbosity::Id => labelled_id(name.as_str(), '#', self.id()),
            Verbosity::Name => name,
            Verbosity::Short => labelled_id(name.as_str(), '@', self.id()),
            Verbosity::Long => {
                let mut s = labelled_id(name.as_str(), '@', self.id());
                let props = self.debug_properties();
                let ghost head = s@;
                let ghost ps = props@.map_values(|p: (String, String)| (p.0@, p.1@));
                if props.len() > 0 {
                    push_char(&mut s, ' ');
                    push_char(&mut s, '{');
                    assert(ps.take(0) =~= Seq::<(Seq<char>, Seq<char>)>::empty());
                    let mut i: usize = 0;
                    while i < props.len()
                        invariant
                            i <= props@.len(),
                            ps == props@.map_values(|p: (String, String)| (p.0@, p.1@)),
                            s@ == head + seq![' ', '{'] + properties_text(ps.take(i as int)),
                        decreases props.len() - i,
                    {
                        push_char(&mut s, ' ');
                        push_text(&mut s, props[i].0.as_str());
                        push_char(&mut s, '=');
                        push_text(&mut s, props[i].1.as_str());
                        assert(ps.take(i + 1).drop_last() =~= ps.take(i as int));
                        assert(ps.take(i + 1).last() == ps[i as int]);
                        i = i + 1;
                    }
                    assert(ps.take(props@.len() as int) =~= ps);
                    push_char(&mut s, ' ');
                    push_char(&mut s, '}');
                }
                s
            },
            Verbosity::All => labelled_id(name.as_str(), '@', self.id()),
        }
    }

    /// The name of the node's type, as its text shows it.
    fn kind_name(&self) -> (r: String)
        ensures
            r@ == self.kind_text(),
    ;

    /// The node's debug form, as the graph's long text shows it.
    fn debug_text(&self) -> String;
}

/// The modification counts of a node's edges; they wrap around on overflow.
#[derive(Debug, Clone, Copy, PartialEq, Eq, Structural)]
pub struct ModCounts {
    /// Modifications of the inputs.
    pub inputs_mod_count: u32,
    /// Modifications of the successors.
    pub successors_mod_count: u32,
}

impl ModCounts {
    /// No modifications yet.
    pub fn new() -> (r: Self)
        ensures
            r == (ModCounts { inputs_mod_count: 0, successors_mod_count: 0 }),
    {
        ModCounts { inputs_mod_count: 0, successors_mod_count: 0 }
    }

    /// One more modification of the inputs.
    pub fn inc_input_mod_count(&mut self)
        ensures
            final(self).inputs_mod_count == old(self).inputs_mod_count.wrapping_add(1),
            final(self).successors_mod_count == old(self).successors_mod_count,
    {
        self.inputs_mod_count = self.inputs_mod_count.wrapping_add(1);
    }

    /// One more modification of the successors.
    pub fn inc_successor_mod_count(&mut self)
        ensures
            final(self).successors_mod_count == old(self).successors_mod_count.wrapping_add(1),
            final(self).inputs_mod_count == old(self).inputs_mod_count,
    {
        self.successors_mod_count = self.successors_mod_count.wrapping_add(1);
    }
}

impl Default for ModCounts {
    fn default() -> (r: Self)
        ensures
            r == (ModCounts { inputs_mod_count: 0, successors_mod_count: 0 }),
    {
        ModCounts::new()
    }
}

} // verus!
