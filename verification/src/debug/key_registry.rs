//! The registry of debug keys: each name gets the next free index once.
use vstd::prelude::*;
use crate::text::{owned, text_eq};

verus! {

/// What the registry knows of a key.
#[derive(Debug)]
pub struct KeyInfo {
    /// The key's name.
    pub name: String,
    /// The key's documentation.
    pub doc: String,
    /// The key's index, in order of registration.
    pub index: usize,
}

impl Clone for KeyInfo {
    fn clone(&self) -> (r: Self)
        ensures
            r == *self,
    {
        KeyInfo { name: self.name.clone(), doc: self.doc.clone(), index: self.index }
    }
}

/// The registered keys, in order of registration: the key registered `i`-th
/// has index `i`, and no name is registered twice.
pub struct KeyRegistry {
    keys: Vec<KeyInfo>,
}

/// The position of the key with the given name among `keys`, if any.
pub open spec fn position_of(keys: Seq<KeyInfo>, name: Seq<char>) -> Option<int> {
    if exists|i: int| 0 <= i < keys.len() && #[trigger] keys[i].name@ == name {
        Some(choose|i: int| 0 <= i < keys.len() && #[trigger] keys[i].name@ == name)
    } else {
        None
    }
}

/// Whether each key's index is its position: the indices run 0, 1, 2, ...
/// in order of registration.
pub open spec fn in_order(keys: Seq<KeyInfo>) -> bool {
    forall|i: int| 0 <= i < keys.len() ==> (#[trigger] keys[i]).index == i
}

impl KeyRegistry {
    /// The registered keys, in order of registration.
    pub closed spec fn entries(&self) -> Seq<KeyInfo> {
        self.keys@
    }

    #[verifier::type_invariant]
    closed spec fn well_formed(&self) -> bool {
        &&& forall|i: int| 0 <= i < self.keys@.len() ==> (#[trigger] self.keys@[i]).index == i
        &&& forall|i: int, j: int|
            0 <= i < self.keys@.len() && 0 <= j < self.keys@.len() && i != j
                ==> (#[trigger] self.keys@[i]).name@ != (#[trigger] self.keys@[j]).name@
    }

    /// An empty registry.
    pub fn new() -> (r: Self)
        ensures
            r.entries().len() == 0,
            in_order(r.entries()),
    {
        KeyRegistry { keys: Vec::new() }
    }

    fn find(&self, name: &str) -> (r: Option<usize>)
        ensures
            match r {
                Some(i) => i < self.entries().len() && self.entries()[i as int].name@ == name@,
                None => forall|i: int| 0 <= i < self.entries().len() ==> (#[trigger] self.entries()[i]).name@ != name@,
            },
    {
        let mut i: usize = 0;
        while i < self.keys.len()
            invariant
                i <= self.keys@.len(),
                forall|k: int| 0 <= k < i ==> (#[trigger] self.keys@[k]).name@ != name@,
            decreases self.keys.len() - i,
        {
            if text_eq(self.keys[i].name.as_str(), name) {
                return Some(i);
            }
            i = i + 1;
        }
        None
    }

    /// Registers a key: a name already registered keeps its index and
    /// documentation; a new name gets the next index.
    pub fn register(&mut self, name: &str, doc: &str) -> (r: usize)
        ensures
            match position_of(old(self).entries(), name@) {
                Some(i) => r == i && final(self).entries() == old(self).entries(),
                None => {
                    &&& r == old(self).entries().len()
                    &&& final(self).entries().len() == old(self).entries().len() + 1
                    &&& final(self).entries().take(r as int) == old(self).entries()
                    &&& final(self).entries()[r as int].name@ == name@
                    &&& final(self).entries()[r as int].doc@ == doc@
                    &&& final(self).entries()[r as int].index == r
                },
            },
            in_order(final(self).entries()),
    {
        proof {
            use_type_invariant(&*self);
        }
        let r = match self.find(name) {
            Some(i) => {
                assert(self.keys@[i as int].name@ == name@);
                i
            },
            None => {
                let index = self.keys.len();
                let mut keys: Vec<KeyInfo> = Vec::new();
                std::mem::swap(&mut keys, &mut self.keys);
                keys.push(KeyInfo { name: owned(name), doc: owned(doc), index });
                self.keys = keys;
                assert(self.keys@.take(index as int) =~= old(self).keys@);
                index
            },
        };
        proof {
            use_type_invariant(&*self);
        }
        r
    }

    /// The number of registered keys.
    pub fn size(&self) -> (r: usize)
        ensures
            r == self.entries().len(),
            in_order(self.entries()),
    {
        proof {
            use_type_invariant(self);
        }
        self.keys.len()
    }

    /// The key with the given name, if registered.
    pub fn get(&self, name: &str) -> (r: Option<&KeyInfo>)
        ensures
            match position_of(self.entries(), name@) {
                Some(i) => r == Some(&self.entries()[i]),
                None => r is None,
            },
            r matches Some(k) ==> k.index < self.entries().len() && self.entries()[k.index as int] == *k,
    {
        proof {
            use_type_invariant(self);
        }
        match self.find(name) {
            Some(i) => {
                assert(self.keys@[i as int].name@ == name@);
                Some(&self.keys[i])
            },
            None => None,
        }
    }

    /// The key with the given index, if that many keys are registered.
    pub fn get_by_index(&self, index: usize) -> (r: Option<&KeyInfo>)
        ensures
            index < self.entries().len() ==> r == Some(&self.entries()[index as int]),
            index >= self.entries().len() ==> r is None,
            r matches Some(k) ==> k.index == index,
    {
        proof {
            use_type_invariant(self);
        }
        if index < self.keys.len() {
            Some(&self.keys[index])
        } else {
            None
        }
    }

    /// All keys, in order of their indices.
    pub fn all_keys(&self) -> (r: Vec<&KeyInfo>)
        ensures
            r@.len() == self.entries().len(),
            forall|i: int| 0 <= i < r@.len() ==> *r@[i] == self.entries()[i],
            forall|i: int| 0 <= i < r@.len() ==> (#[trigger] r@[i]).index == i,
    {
        proof {
            use_type_invariant(self);
        }
        let mut r: Vec<&KeyInfo> = Vec::new();
        let mut i: usize = 0;
        while i < self.keys.len()
            invariant
                i <= self.keys@.len(),
                r@.len() == i,
                forall|k: int| 0 <= k < i ==> *r@[k] == self.keys@[k],
            decreases self.keys.len() - i,
        {
            r.push(&self.keys[i]);
            i = i + 1;
        }
        r
    }

    /// Forgets all keys.
    pub fn clear(&mut self)
        ensures
            final(self).entries().len() == 0,
            in_order(final(self).entries()),
    {
        self.keys = Vec::new();
    }
}

impl Default for KeyRegistry {
    fn default() -> (r: Self)
        ensures
            r.entries().len() == 0,
            in_order(r.entries()),
    {
        KeyRegistry::new()
    }
}

} // verus!
