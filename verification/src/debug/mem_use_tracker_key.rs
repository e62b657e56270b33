//! Keys that name memory use trackers; two keys are equal when their names are.
use vstd::prelude::*;
use crate::debug::key_registry::{position_of, KeyRegistry};

verus! {

/// A key of a memory use tracker, registered under its name.
#[derive(Debug)]
pub struct MemUseTrackerKey {
    name: String,
    doc: String,
    index: usize,
}

impl Clone for MemUseTrackerKey {
    fn clone(&self) -> (r: Self)
        ensures
            r == *self,
    {
        MemUseTrackerKey { name: self.name.clone(), doc: self.doc.clone(), index: self.index }
    }
}

impl MemUseTrackerKey {
    /// The key's name.
    pub closed spec fn key_name(&self) -> Seq<char> {
        self.name@
    }

    /// The key's documentation.
    pub closed spec fn key_doc(&self) -> Seq<char> {
        self.doc@
    }

    /// The key's index in the registry.
    pub closed spec fn key_index(&self) -> usize {
        self.index
    }

    /// A key registered under its name in `registry`; it gets the index the
    /// registry gives the name.
    pub fn new(name: String, doc: String, registry: &mut KeyRegistry) -> (r: Self)
        ensures
            r.key_name() == name@,
            r.key_doc() == doc@,
            match position_of(old(registry).entries(), name@) {
                Some(i) => r.key_index() == i && final(registry).entries() == old(registry).entries(),
                None => {
                    &&& r.key_index() == old(registry).entries().len()
                    &&& final(registry).entries().len() == old(registry).entries().len() + 1
                    &&& final(registry).entries()[r.key_index() as int].name@ == name@
                },
            },
    {
        let index = registry.register(name.as_str(), doc.as_str());
        MemUseTrackerKey { name, doc, index }
    }

    /// The key's name.
    pub fn get_name(&self) -> (r: &str)
        ensures
            r@ == self.key_name(),
    {
        self.name.as_str()
    }

    /// The key's documentation.
    pub fn get_doc(&self) -> (r: &str)
        ensures
            r@ == self.key_doc(),
    {
        self.doc.as_str()
    }

    /// The key's index in the registry.
    pub fn get_index(&self) -> (r: usize)
        ensures
            r == self.key_index(),
    {
        self.index
    }
}

impl PartialEq for MemUseTrackerKey {
    fn eq(&self, other: &Self) -> (r: bool) {
        self.name == other.name
    }
}

impl vstd::std_specs::cmp::PartialEqSpecImpl for MemUseTrackerKey {
    open spec fn obeys_eq_spec() -> bool {
        true
    }

    open spec fn eq_spec(&self, other: &Self) -> bool {
        self.key_name() == other.key_name()
    }
}

impl Eq for MemUseTrackerKey {
}

} // verus!
