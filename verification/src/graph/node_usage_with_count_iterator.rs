//! Walks over the usages of a node, each with its count.
use vstd::prelude::*;
use crate::graph::node::UsageRecord;

verus! {

/// A walk over the usages of a node, each with its count.
#[derive(Debug)]
pub struct NodeUsageWithCountIterator {
    entries: Vec<(UsageRecord, usize)>,
    position: usize,
    node_id: usize,
}

impl NodeUsageWithCountIterator {
    /// The entries walked over.
    pub closed spec fn items(&self) -> Seq<(UsageRecord, usize)> {
        self.entries@
    }

    /// How many entries were given out.
    pub closed spec fn done(&self) -> nat {
        self.position as nat
    }

    /// The node whose usages these are.
    pub closed spec fn owner(&self) -> usize {
        self.node_id
    }

    #[verifier::type_invariant]
    closed spec fn in_range(&self) -> bool {
        self.position <= self.entries@.len()
    }

    /// A walk from the first entry.
    pub fn new(entries: Vec<(UsageRecord, usize)>, node_id: usize) -> (r: Self)
        ensures
            r.items() == entries@,
            r.done() == 0,
            r.owner() == node_id,
    {
        NodeUsageWithCountIterator { entries, position: 0, node_id }
    }

    /// Whether an entry is left.
    pub fn has_next(&self) -> (r: bool)
        ensures
            r == (self.done() < self.items().len()),
    {
        self.position < self.entries.len()
    }

    /// The next entry, if any.
    pub fn next(&mut self) -> (r: Option<(UsageRecord, usize)>)
        ensures
            final(self).items() == old(self).items(),
            final(self).owner() == old(self).owner(),
            old(self).done() < old(self).items().len() ==> r == Some(old(self).items()[old(self).done() as int])
                && final(self).done() == old(self).done() + 1,
            old(self).done() >= old(self).items().len() ==> r is None && final(self).done() == old(self).done(),
    {
        proof {
            use_type_invariant(&*self);
        }
        if self.position < self.entries.len() {
            let entry = self.entries[self.position];
            self.position = self.position + 1;
            Some(entry)
        } else {
            None
        }
    }

    /// The node whose usages these are.
    pub fn node_id(&self) -> (r: usize)
        ensures
            r == self.owner(),
    {
        self.node_id
    }

    /// The number of entries left.
    pub fn remaining(&self) -> (r: usize)
        ensures
            r == self.items().len() - self.done(),
    {
        proof {
            use_type_invariant(self);
        }
        self.entries.len() - self.position
    }
}

} // verus!
