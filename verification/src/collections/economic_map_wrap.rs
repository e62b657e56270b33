//! An economic map view of an existing tree map.
use vstd::prelude::*;
use std::collections::BTreeMap;
use crate::collections::btree_economic_map::{sorted_keys_of, tree_keys, tree_lookup, tree_replace_all};
use crate::collections::economic_map::{lookup, opt_ref, EconomicMap, UnmodifiableEconomicMap};
use crate::collections::equivalence::Equivalence;
use crate::collections::map_cursor::UnmodifiableMapCursor;
use crate::collections::order::lawful_order;

verus! {

broadcast use vstd::std_specs::btree::group_btree_axioms;

/// An economic map that wraps a tree map holding optional values and
/// delegates every operation to it; keys compare by value.
pub struct EconomicMapWrap<K, V> where K: Ord {
    map: BTreeMap<K, Option<V>>,
}

impl<K: Ord, V> EconomicMapWrap<K, V> {
    /// The key type's ordering is a lawful total order.
    #[verifier::type_invariant]
    spec fn well_formed(self) -> bool {
        lawful_order::<K>()
    }

    /// The economic map over the entries of `map`.
    pub fn new(map: BTreeMap<K, Option<V>>) -> (r: Self)
        requires
            lawful_order::<K>(),
        ensures
            r.contents() == map@,
    {
        EconomicMapWrap { map }
    }

    /// A cursor over the entries, in increasing key order.
    pub fn get_entries<'a>(&'a self) -> (r: EconomicMapWrapCursor<'a, K, V>)
        ensures
            sorted_keys_of(r.entries().map_values(|e: (K, Option<V>)| e.0), self.contents()),
            forall|i: int|
                0 <= i < r.entries().len() ==> #[trigger] r.entries()[i].1 == self.contents()[r.entries()[i].0],
            r.position() == -1,
    {
        proof {
            use_type_invariant(self);
        }
        let keys = tree_keys(&self.map);
        proof {
            assert forall|i: int| 0 <= i < keys@.len() implies self.map@.contains_key(*keys@[i]) by {
                assert(keys@.unref().to_set().contains(keys@.unref()[i]));
            }
        }
        let r = EconomicMapWrapCursor { map: &self.map, keys, started: false, index: 0 };
        assert(r.entries().map_values(|e: (K, Option<V>)| e.0) =~= r.keys@.unref());
        r
    }
}

impl<K: Ord, V> UnmodifiableEconomicMap<K, V> for EconomicMapWrap<K, V> {
    closed spec fn contents(&self) -> Map<K, Option<V>> {
        self.map@
    }

    closed spec fn strategy(&self) -> Equivalence {
        Equivalence::Default
    }

    fn get(&self, key: &K) -> (r: Option<&V>) {
        proof {
            use_type_invariant(self);
        }
        tree_lookup(&self.map, key)
    }

    /// Present keys yield their value or nothing for a null value; absent
    /// keys yield `default_value`.
    fn get_or_default<'a>(&'a self, key: &K, default_value: &'a V) -> (r: Option<&'a V>)
        ensures
            self.contents().contains_key(*key) ==> r == opt_ref(self.contents()[*key]),
    {
        proof {
            use_type_invariant(self);
        }
        match self.map.get(key) {
            Some(Some(v)) => Some(v),
            Some(None) => None,
            None => Some(default_value),
        }
    }

    fn contains_key(&self, key: &K) -> (r: bool) {
        proof {
            use_type_invariant(self);
        }
        self.map.contains_key(key)
    }

    fn size(&self) -> (r: usize) {
        proof {
            use_type_invariant(self);
        }
        self.map.len()
    }

    /// The values come in increasing key order.
    fn get_values(&self) -> (r: Vec<Option<&V>>)
        ensures
            exists|ks: Seq<K>|
                #![trigger ks.to_set()]
                sorted_keys_of(ks, self.contents()) && ks.len() == r@.len() && forall|i: int|
                    0 <= i < r@.len() ==> r@[i] == opt_ref(lookup(self.contents(), #[trigger] ks[i])),
    {
        proof {
            use_type_invariant(self);
        }
        let keys = tree_keys(&self.map);
        let ghost ks = keys@.unref();
        let mut r: Vec<Option<&V>> = Vec::new();
        let mut i: usize = 0;
        while i < keys.len()
            invariant
                lawful_order::<K>(),
                ks == keys@.unref(),
                ks.len() == keys@.len(),
                i <= keys@.len(),
                r@.len() == i,
                forall|j: int| 0 <= j < i ==> r@[j] == opt_ref(lookup(self.contents(), #[trigger] ks[j])),
            decreases keys.len() - i,
        {
            r.push(tree_lookup(&self.map, keys[i]));
            i = i + 1;
        }
        assert(sorted_keys_of(ks, self.contents()));
        r
    }

    /// The keys come in increasing order.
    fn get_keys(&self) -> (r: Vec<&K>)
        ensures
            sorted_keys_of(r@.unref(), self.contents()),
    {
        proof {
            use_type_invariant(self);
        }
        tree_keys(&self.map)
    }

    fn get_equivalence_strategy(&self) -> (r: Equivalence) {
        Equivalence::DEFAULT
    }
}

impl<K: Ord, V> EconomicMap<K, V> for EconomicMapWrap<K, V> {
    open spec fn modifiable(&self) -> bool {
        true
    }

    fn put(&mut self, key: K, value: Option<V>) -> (r: Option<V>) {
        proof {
            use_type_invariant(&*self);
        }
        let mut m = BTreeMap::new();
        std::mem::swap(&mut m, &mut self.map);
        let r = match m.insert(key, value) {
            Some(Some(v)) => Some(v),
            _ => None,
        };
        self.map = m;
        r
    }

    fn clear(&mut self) {
        proof {
            use_type_invariant(&*self);
        }
        self.map = BTreeMap::new();
    }

    fn remove_key(&mut self, key: &K) -> (r: Option<V>) {
        proof {
            use_type_invariant(&*self);
        }
        let mut m = BTreeMap::new();
        std::mem::swap(&mut m, &mut self.map);
        let r = match m.remove(key) {
            Some(Some(v)) => Some(v),
            _ => None,
        };
        self.map = m;
        r
    }

    fn replace_all<F: Fn(&K, Option<&V>) -> Option<V>>(&mut self, function: &F) {
        proof {
            use_type_invariant(&*self);
        }
        let mut m = BTreeMap::new();
        std::mem::swap(&mut m, &mut self.map);
        tree_replace_all(&mut m, function);
        self.map = m;
    }
}

/// Cursor over the entries of a wrapped tree map, in increasing key
/// order. It reads the map and cannot change it.
pub struct EconomicMapWrapCursor<'a, K, V> where K: Ord {
    map: &'a BTreeMap<K, Option<V>>,
    keys: Vec<&'a K>,
    started: bool,
    index: usize,
}

impl<'a, K: Ord, V> EconomicMapWrapCursor<'a, K, V> {
    /// The key ordering is lawful and every key walked is in the map.
    #[verifier::type_invariant]
    spec fn well_formed(self) -> bool {
        &&& lawful_order::<K>()
        &&& forall|i: int| 0 <= i < self.keys@.len() ==> self.map@.contains_key(*#[trigger] self.keys@[i])
        &&& self.index <= self.keys@.len()
        &&& !self.started ==> self.index == 0
    }
}

impl<'a, K: Ord, V> UnmodifiableMapCursor<K, V> for EconomicMapWrapCursor<'a, K, V> {
    closed spec fn entries(&self) -> Seq<(K, Option<V>)> {
        self.keys@.map_values(|k: &K| (*k, self.map@[*k]))
    }

    closed spec fn position(&self) -> int {
        if self.started { self.index as int } else { -1 }
    }

    fn advance(&mut self) -> (r: bool) {
        proof {
            use_type_invariant(&*self);
        }
        if !self.started {
            self.started = true;
        } else if self.index < self.keys.len() {
            self.index = self.index + 1;
        }
        self.index < self.keys.len()
    }

    fn get_key(&self) -> (r: &K) {
        self.keys[self.index]
    }

    fn get_value(&self) -> (r: Option<&V>) {
        proof {
            use_type_invariant(self);
        }
        tree_lookup(self.map, self.keys[self.index])
    }
}

} // verus!
