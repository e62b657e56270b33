//! The interface of economic maps: maps whose values may be null.
use vstd::prelude::*;
use crate::collections::equivalence::Equivalence;

verus! {

/// The value a lookup of `k` in `m` yields: the stored value of a present
/// key, and nothing for an absent key or a key mapped to null.
pub open spec fn lookup<K, V>(m: Map<K, Option<V>>, k: K) -> Option<V> {
    if m.contains_key(k) {
        m[k]
    } else {
        None
    }
}

/// A reference to the content of an optional value.
pub open spec fn opt_ref<'a, V>(o: Option<V>) -> Option<&'a V> {
    match o {
        Some(v) => Some(&v),
        None => None,
    }
}

/// Whether every clone of a value of `T` is equal to the original.
pub open spec fn exact_clone<T: Clone>() -> bool {
    forall|a: T, b: T| #[trigger] cloned(a, b) ==> a == b
}

/// Whether `b` is a copy of the entry `a`: both null, or a clone of its value.
pub open spec fn copied_entry<V: Clone>(a: Option<V>, b: Option<V>) -> bool {
    match (a, b) {
        (Some(x), Some(y)) => cloned(x, y),
        (None, None) => true,
        _ => false,
    }
}

/// A map whose entries cannot be changed through this interface.
pub trait UnmodifiableEconomicMap<K, V> {
    /// The entries of the map; a value of `None` is an entry mapped to null.
    spec fn contents(&self) -> Map<K, Option<V>>;

    /// The strategy the map compares keys with.
    spec fn strategy(&self) -> Equivalence;

    /// The value `key` is mapped to; nothing when `key` is absent or mapped to null.
    fn get(&self, key: &K) -> (r: Option<&V>)
        ensures
            r == opt_ref(lookup(self.contents(), *key)),
    ;

    /// The value `key` is mapped to, or `default_value` when `key` is absent.
    fn get_or_default<'a>(&'a self, key: &K, default_value: &'a V) -> (r: Option<&'a V>)
        ensures
            !self.contents().contains_key(*key) ==> r == Some(default_value),
            lookup(self.contents(), *key) is Some ==> r == opt_ref(lookup(self.contents(), *key)),
    {
        match self.get(key) {
            Some(v) => Some(v),
            None => Some(default_value),
        }
    }

    /// Whether the map holds an entry for `key` (possibly mapped to null).
    fn contains_key(&self, key: &K) -> (r: bool)
        ensures
            r == self.contents().contains_key(*key),
    ;

    /// The number of entries.
    fn size(&self) -> (r: usize)
        ensures
            r == self.contents().len(),
            self.contents().dom().finite(),
    ;

    /// Whether the map has no entries.
    fn is_empty(&self) -> (r: bool)
        ensures
            r == (self.contents().len() == 0),
    {
        self.size() == 0
    }

    /// The values of the entries, one per key, in iteration order; nothing
    /// for a null value.
    fn get_values(&self) -> (r: Vec<Option<&V>>)
        ensures
            exists|ks: Seq<K>|
                #![trigger ks.to_set()]
                ks.no_duplicates() && ks.to_set() == self.contents().dom() && ks.len() == r@.len()
                    && forall|i: int|
                    0 <= i < r@.len() ==> r@[i] == opt_ref(lookup(self.contents(), #[trigger] ks[i])),
    ;

    /// The keys of the entries in iteration order; each key occurs once.
    fn get_keys(&self) -> (r: Vec<&K>)
        ensures
            r@.unref().no_duplicates(),
            r@.unref().to_set() == self.contents().dom(),
    ;

    /// The strategy the map compares keys with.
    fn get_equivalence_strategy(&self) -> (r: Equivalence)
        ensures
            r == self.strategy(),
    ;
}

/// A map whose entries can be changed.
pub trait EconomicMap<K, V>: UnmodifiableEconomicMap<K, V> {
    /// Whether the map accepts changes (the always-empty map does not).
    spec fn modifiable(&self) -> bool;

    /// Maps `key` to `value` (which may be null); returns the previous
    /// non-null value of `key`.
    fn put(&mut self, key: K, value: Option<V>) -> (r: Option<V>)
        requires
            old(self).modifiable(),
        ensures
            final(self).modifiable(),
            final(self).strategy() == old(self).strategy(),
            final(self).contents() == old(self).contents().insert(key, value),
            r == lookup(old(self).contents(), key),
    ;

    /// Maps `key` to `value` unless `key` has a non-null value; returns that
    /// value in the latter case and nothing otherwise.
    fn put_if_absent(&mut self, key: K, value: Option<V>) -> (r: Option<&V>)
        requires
            old(self).modifiable(),
        ensures
            final(self).modifiable(),
            final(self).strategy() == old(self).strategy(),
            lookup(old(self).contents(), key) is None ==> final(self).contents() == old(
                self,
            ).contents().insert(key, value) && r is None,
            lookup(old(self).contents(), key) is Some ==> final(self).contents() == old(
                self,
            ).contents() && r == opt_ref(lookup(old(self).contents(), key)),
    {
        if self.get(&key).is_none() {
            self.put(key, value);
            None
        } else {
            self.get(&key)
        }
    }

    /// Removes all entries.
    fn clear(&mut self)
        requires
            old(self).modifiable(),
        ensures
            final(self).modifiable(),
            final(self).strategy() == old(self).strategy(),
            final(self).contents() == Map::<K, Option<V>>::empty(),
    ;

    /// Removes the entry of `key`; returns its previous non-null value.
    fn remove_key(&mut self, key: &K) -> (r: Option<V>)
        requires
            old(self).modifiable(),
        ensures
            final(self).modifiable(),
            final(self).strategy() == old(self).strategy(),
            final(self).contents() == old(self).contents().remove(*key),
            r == lookup(old(self).contents(), *key),
    ;

    /// Replaces the value of every entry by what `function` computes from
    /// the entry's key and current value.
    fn replace_all<F: Fn(&K, Option<&V>) -> Option<V>>(&mut self, function: &F)
        requires
            old(self).modifiable(),
            forall|k: K| #[trigger] old(self).contents().contains_key(k) ==> call_requires(
                *function,
                (&k, opt_ref(old(self).contents()[k])),
            ),
        ensures
            final(self).modifiable(),
            final(self).strategy() == old(self).strategy(),
            final(self).contents().dom() == old(self).contents().dom(),
            forall|k: K|
                #![trigger final(self).contents()[k]]
                old(self).contents().contains_key(k) ==> call_ensures(
                    *function,
                    (&k, opt_ref(old(self).contents()[k])),
                    final(self).contents()[k],
                ),
    ;

    /// Releases spare storage; the entries do not change.
    fn trim_to_size(&mut self)
        ensures
            final(self).contents() == old(self).contents(),
            final(self).modifiable() == old(self).modifiable(),
    {
    }

    /// Copies every entry of `other` into this map, replacing the values of
    /// keys present in both.
    fn put_all<M: UnmodifiableEconomicMap<K, V>>(&mut self, other: &M) where K: Clone, V: Clone
        requires
            old(self).modifiable(),
        ensures
            final(self).modifiable(),
            final(self).strategy() == old(self).strategy(),
            exact_clone::<K>() && exact_clone::<V>() ==> final(self).contents() == old(
                self,
            ).contents().union_prefer_right(other.contents()),
            exact_clone::<K>() ==> final(self).contents().dom() == old(self).contents().dom().union(
                other.contents().dom(),
            ),
            exact_clone::<K>() ==> forall|k: K| other.contents().contains_key(k) ==> copied_entry(
                other.contents()[k],
                #[trigger] final(self).contents()[k],
            ),
            exact_clone::<K>() ==> forall|k: K| old(self).contents().contains_key(k) && !other.contents().contains_key(k)
                ==> #[trigger] final(self).contents()[k] == old(self).contents()[k],
    {
        let keys = other.get_keys();
        let ghost order = keys@.unref();
        let mut i: usize = 0;
        while i < keys.len()
            invariant
                self.modifiable(),
                self.strategy() == old(self).strategy(),
                order == keys@.unref(),
                order.len() == keys@.len(),
                order.no_duplicates(),
                order.to_set() == other.contents().dom(),
                0 <= i <= keys@.len(),
                exact_clone::<K>() && exact_clone::<V>() ==> self.contents() == old(
                    self,
                ).contents().union_prefer_right(
                    other.contents().restrict(order.take(i as int).to_set()),
                ),
                exact_clone::<K>() ==> self.contents().dom() == old(self).contents().dom().union(
                    order.take(i as int).to_set(),
                ),
                exact_clone::<K>() ==> forall|k: K| order.take(i as int).to_set().contains(k) ==> copied_entry(
                    other.contents()[k],
                    #[trigger] self.contents()[k],
                ),
                exact_clone::<K>() ==> forall|k: K| old(self).contents().contains_key(k) && !order.take(i as int).to_set().contains(k)
                    ==> #[trigger] self.contents()[k] == old(self).contents()[k],
            decreases keys.len() - i,
        {
            let key: &K = keys[i];
            let k = key.clone();
            let v = match other.get(key) {
                Some(x) => Some(x.clone()),
                None => None,
            };
            let ghost before = self.contents();
            self.put(k, v);
            proof {
                if exact_clone::<K>() {
                    assert(order[i as int] == *key);
                    assert(cloned(*key, k));
                    assert(other.contents().contains_key(*key)) by {
                        assert(order.to_set().contains(order[i as int]));
                    }
                    assert(copied_entry(other.contents()[*key], v)) by {
                        match other.contents()[*key] {
                            Some(x) => {
                                assert(cloned(x, v->0));
                            },
                            None => {},
                        }
                    }
                    assert(order.take(i + 1).to_set() == order.take(i as int).to_set().insert(*key)) by {
                        assert(order.take(i + 1) =~= order.take(i as int).push(*key));
                        order.take(i as int).lemma_push_to_set_commute(*key);
                    }
                    assert(self.contents().dom() =~= old(self).contents().dom().union(order.take(i + 1).to_set()));
                    if exact_clone::<V>() {
                        assert(v == other.contents()[*key]) by {
                            match other.contents()[*key] {
                                Some(x) => {
                                    assert(cloned(x, v->0));
                                },
                                None => {},
                            }
                        }
                        assert(self.contents() =~= old(self).contents().union_prefer_right(
                            other.contents().restrict(order.take(i + 1).to_set())));
                    }
                }
            }
            i = i + 1;
        }
        proof {
            assert(order.take(keys@.len() as int) =~= order);
            if exact_clone::<K>() && exact_clone::<V>() {
                assert(other.contents().restrict(order.to_set()) =~= other.contents());
            }
        }
    }

    /// Maps `key` to what `mapping_function` computes for it unless `key` has
    /// a non-null value; returns the value `key` ends up with.
    fn compute_if_absent<F: Fn(&K) -> Option<V>>(&mut self, key: K, mapping_function: &F) -> (r:
        Option<&V>) where K: Clone
        requires
            old(self).modifiable(),
            call_requires(*mapping_function, (&key,)),
        ensures
            final(self).modifiable(),
            final(self).strategy() == old(self).strategy(),
            lookup(old(self).contents(), key) is Some ==> final(self).contents() == old(
                self,
            ).contents() && r == opt_ref(lookup(old(self).contents(), key)),
            lookup(old(self).contents(), key) is None ==> exists|v: Option<V>|
                #[trigger] call_ensures(*mapping_function, (&key,), v) && final(self).contents()
                    == old(self).contents().insert(key, v) && (exact_clone::<K>() ==> r
                    == opt_ref(v)),
            lookup(old(self).contents(), key) is None ==> exists|k: K|
                #[trigger] cloned(key, k) && r == opt_ref(lookup(final(self).contents(), k)),
    {
        if self.get(&key).is_none() {
            let value = mapping_function(&key);
            let key_for_lookup = key.clone();
            self.put(key, value);
            let r = self.get(&key_for_lookup);
            proof {
                assert(cloned(key, key_for_lookup));
                if exact_clone::<K>() {
                    assert(cloned(key, key_for_lookup));
                }
            }
            r
        } else {
            self.get(&key)
        }
    }
}

} // verus!
