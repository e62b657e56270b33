//! An economic map backed by an ordered tree map.
use vstd::prelude::*;
use crate::collections::order::{lawful_order, lemma_unref_increasing};
use std::collections::BTreeMap;
use vstd::std_specs::iter::IteratorSpec;
use crate::collections::economic_map::{
    copied_entry, exact_clone, lookup, opt_ref, EconomicMap, UnmodifiableEconomicMap,
};
use crate::collections::economic_map_wrap::EconomicMapWrap;
use crate::collections::empty::{EmptyCursor, EmptyMap};
use crate::collections::equivalence::Equivalence;
use crate::collections::map_cursor::UnmodifiableMapCursor;

verus! {

broadcast use vstd::std_specs::btree::group_btree_axioms;

/// Whether `ks` lists the keys of `m` once each, in increasing order.
pub open spec fn sorted_keys_of<K, V>(ks: Seq<K>, m: Map<K, V>) -> bool {
    &&& ks.no_duplicates()
    &&& ks.to_set() == m.dom()
    &&& vstd::std_specs::btree::increasing_seq(ks)
}

/// The keys of a tree map, in increasing order, as references into the map.
pub fn tree_keys<'a, K: Ord, V>(m: &'a BTreeMap<K, V>) -> (r: Vec<&'a K>)
    requires
        lawful_order::<K>(),
    ensures
        sorted_keys_of(r@.unref(), m@),
        r@.len() == m@.len(),
{
    let mut r: Vec<&'a K> = Vec::new();
    let ghost order = vstd::std_specs::btree::spec_keys_iter(m).remaining();
    proof {
        vstd::std_specs::btree::axiom_spec_keys_iter(m);
    }
    for k in it: m.keys()
        invariant
            it.seq() == order,
            r@ == order.take(it.index() as int),
    {
        r.push(k);
    }
    proof {
        assert(r@ =~= order);
        assert(order.unref().len() == order.len());
        assert(order.unref().no_duplicates());
        assert(order.unref().to_set() == m@.dom());
        lemma_unref_increasing(order);
    }
    r
}

/// The value of `key` in a tree map holding optional values.
pub(crate) fn tree_lookup<'a, K: Ord, V>(m: &'a BTreeMap<K, Option<V>>, key: &K) -> (r: Option<&'a V>)
    requires
        lawful_order::<K>(),
    ensures
        r == opt_ref(lookup(m@, *key)),
{
    match m.get(key) {
        Some(Some(v)) => Some(v),
        _ => None,
    }
}

/// Removes and returns the entry with the smallest key (std `BTreeMap::pop_first`).
#[verifier::external_body]
pub(crate) fn tree_pop_first<K: Ord, V>(m: &mut BTreeMap<K, V>) -> (r: Option<(K, V)>)
    requires
        lawful_order::<K>(),
    ensures
        match r {
            Some((k, v)) => old(m)@.contains_key(k) && old(m)@[k] == v && final(m)@ == old(m)@.remove(k),
            None => old(m)@.is_empty() && final(m)@ == old(m)@,
        },
{
    m.pop_first()
}

/// Replaces every value of a tree map by what `function` computes from the
/// entry's key and current value.
pub(crate) fn tree_replace_all<K: Ord, V, F: Fn(&K, Option<&V>) -> Option<V>>(
    m: &mut BTreeMap<K, Option<V>>,
    function: &F,
)
    requires
        lawful_order::<K>(),
        forall|k: K| #[trigger] old(m)@.contains_key(k) ==> call_requires(*function, (&k, opt_ref(old(m)@[k]))),
    ensures
        final(m)@.dom() == old(m)@.dom(),
        forall|k: K|
            #![trigger final(m)@[k]]
            old(m)@.contains_key(k) ==> call_ensures(
                *function,
                (&k, opt_ref(old(m)@[k])),
                final(m)@[k],
            ),
{
    broadcast use vstd::seq_lib::group_seq_properties;
    let ghost orig = m@;
    let mut taken: Vec<(K, Option<V>)> = Vec::new();
    let ghost mut tk: Seq<K> = Seq::empty();
    loop
        invariant
            lawful_order::<K>(),
            m@.dom().finite(),
            tk.len() == taken@.len(),
            forall|j: int| 0 <= j < taken@.len() ==> #[trigger] tk[j] == taken@[j].0,
            forall|j: int| 0 <= j < tk.len() ==> orig.contains_key(#[trigger] tk[j])
                && orig[tk[j]] == taken@[j].1 && !m@.contains_key(tk[j]),
            forall|k: K| #[trigger] orig.contains_key(k) ==> m@.contains_key(k) || tk.contains(k),
            forall|k: K| #[trigger] m@.contains_key(k) ==> orig.contains_key(k) && m@[k] == orig[k],
        ensures
            tk.len() == taken@.len(),
            forall|j: int| 0 <= j < taken@.len() ==> #[trigger] tk[j] == taken@[j].0,
            forall|j: int| 0 <= j < tk.len() ==> orig.contains_key(#[trigger] tk[j])
                && orig[tk[j]] == taken@[j].1,
            forall|k: K| #[trigger] orig.contains_key(k) ==> tk.contains(k),
        decreases m@.dom().len(),
    {
        match tree_pop_first(m) {
            Some(entry) => {
                proof {
                    let old_tk = tk;
                    tk = tk.push(entry.0);
                    assert forall|k: K| #[trigger] orig.contains_key(k) implies m@.contains_key(k)
                        || tk.contains(k) by {
                        if old_tk.contains(k) {
                            let j = choose|j: int| 0 <= j < old_tk.len() && old_tk[j] == k;
                            assert(tk[j] == k);
                        } else if k == entry.0 {
                            assert(tk[tk.len() - 1] == k);
                        }
                    }
                }
                taken.push(entry);
            },
            None => {
                break;
            },
        }
    }
    let ghost all = taken@;
    let ghost n = tk.len();
    while taken.len() > 0
        invariant
            lawful_order::<K>(),
            forall|k: K| #[trigger] orig.contains_key(k) ==> call_requires(*function, (&k, opt_ref(orig[k]))),
            tk.len() == n,
            all.len() == n,
            taken@.len() <= n,
            forall|j: int| 0 <= j < taken@.len() ==> #[trigger] taken@[j] == all[j],
            forall|j: int| 0 <= j < n ==> #[trigger] tk[j] == all[j].0,
            forall|j: int| 0 <= j < n ==> orig.contains_key(#[trigger] tk[j]) && orig[tk[j]] == all[j].1,
            forall|k: K| #[trigger] orig.contains_key(k) ==> tk.contains(k),
            forall|k: K| #[trigger] m@.contains_key(k) ==> orig.contains_key(k) && call_ensures(
                *function, (&k, opt_ref(orig[k])), m@[k]),
            forall|k: K| #[trigger] orig.contains_key(k) ==> m@.contains_key(k) || tk.take(
                taken@.len() as int).contains(k),
        decreases taken.len(),
    {
        let ghost t = taken@.len() - 1;
        let (k, v) = taken.pop().unwrap();
        assert(all[t] == (k, v));
        assert(tk[t] == k);
        let vr = v.as_ref();
        assert(opt_ref(orig[k]) == vr);
        let nv = function(&k, vr);
        m.insert(k, nv);
        proof {
            assert(tk.take(t + 1) =~= tk.take(t).push(tk[t]));
        }
    }
    proof {
        assert(tk.take(0) =~= Seq::<K>::empty());
        assert(m@.dom() =~= orig.dom());
    }
}

/// An economic map whose entries are held in an ordered tree map; keys are
/// iterated in increasing order.
pub struct BTreeEconomicMap<K, V> where K: Ord {
    inner: BTreeMap<K, Option<V>>,
    strategy: Equivalence,
}

impl<K: Ord, V> BTreeEconomicMap<K, V> {
    /// The key type's ordering is a lawful total order.
    #[verifier::type_invariant]
    spec fn well_formed(self) -> bool {
        lawful_order::<K>()
    }

    /// A new empty map comparing keys by value.
    pub fn create() -> (m: Self)
        requires
            lawful_order::<K>(),
        ensures
            m.contents() == Map::<K, Option<V>>::empty(),
            m.strategy() == Equivalence::Default,
    {
        Self::create_with_strategy(Equivalence::DEFAULT)
    }

    /// A new empty map; the capacity hint is not needed by the tree.
    pub fn create_with_capacity(initial_capacity: usize) -> (m: Self)
        requires
            lawful_order::<K>(),
        ensures
            m.contents() == Map::<K, Option<V>>::empty(),
            m.strategy() == Equivalence::Default,
    {
        Self::create()
    }

    /// A new empty map recording the given comparison strategy.
    pub fn create_with_strategy(strategy: Equivalence) -> (m: Self)
        requires
            lawful_order::<K>(),
        ensures
            m.contents() == Map::<K, Option<V>>::empty(),
            m.strategy() == strategy,
    {
        BTreeEconomicMap { inner: BTreeMap::new(), strategy }
    }

    /// A new empty map with a strategy; the capacity hint is not needed.
    pub fn create_with_strategy_capacity(strategy: Equivalence, initial_capacity: usize) -> (m:
        Self)
        requires
            lawful_order::<K>(),
        ensures
            m.contents() == Map::<K, Option<V>>::empty(),
            m.strategy() == strategy,
    {
        Self::create_with_strategy(strategy)
    }

    /// A new map holding copies of the entries of `m`.
    pub fn create_from<M: UnmodifiableEconomicMap<K, V>>(m: &M) -> (r: Self) where
        K: Clone,
        V: Clone,
        requires
            lawful_order::<K>(),
        ensures
            r.strategy() == Equivalence::Default,
            exact_clone::<K>() && exact_clone::<V>() ==> r.contents() == m.contents(),
            exact_clone::<K>() ==> r.contents().dom() == m.contents().dom(),
            exact_clone::<K>() ==> forall|k: K| m.contents().contains_key(k) ==> copied_entry(
                m.contents()[k],
                #[trigger] r.contents()[k],
            ),
    {
        Self::create_with_strategy_from(Equivalence::DEFAULT, m)
    }

    /// A new map with a strategy holding copies of the entries of `m`.
    pub fn create_with_strategy_from<M: UnmodifiableEconomicMap<K, V>>(
        strategy: Equivalence,
        m: &M,
    ) -> (r: Self) where K: Clone, V: Clone
        requires
            lawful_order::<K>(),
        ensures
            r.strategy() == strategy,
            exact_clone::<K>() && exact_clone::<V>() ==> r.contents() == m.contents(),
            exact_clone::<K>() ==> r.contents().dom() == m.contents().dom(),
            exact_clone::<K>() ==> forall|k: K| m.contents().contains_key(k) ==> copied_entry(
                m.contents()[k],
                #[trigger] r.contents()[k],
            ),
    {
        let mut map = Self::create_with_strategy(strategy);
        map.put_all(m);
        proof {
            assert(Map::<K, Option<V>>::empty().union_prefer_right(m.contents()) =~= m.contents());
            assert(Set::<K>::empty().union(m.contents().dom()) =~= m.contents().dom());
        }
        map
    }

    /// A map whose entries are those of `map`, comparing keys by value.
    pub fn from_btree_map(map: BTreeMap<K, Option<V>>) -> (r: Self)
        requires
            lawful_order::<K>(),
        ensures
            r.contents() == map@,
            r.strategy() == Equivalence::Default,
    {
        BTreeEconomicMap { inner: map, strategy: Equivalence::DEFAULT }
    }

    /// The economic map that wraps `map`.
    pub fn wrap_map(map: BTreeMap<K, Option<V>>) -> (r: EconomicMapWrap<K, V>)
        requires
            lawful_order::<K>(),
        ensures
            r.contents() == map@,
    {
        EconomicMapWrap::new(map)
    }

    /// The always-empty, unmodifiable map.
    pub fn empty_map() -> (r: EmptyMap<K, V>)
        ensures
            r.contents() == Map::<K, Option<V>>::empty(),
            !r.modifiable(),
    {
        EmptyMap::new()
    }

    /// The cursor over no entries.
    pub fn empty_cursor() -> (r: EmptyCursor<K, V>)
        ensures
            r.entries() == Seq::<(K, Option<V>)>::empty(),
            r.position() == -1,
    {
        EmptyCursor::new()
    }

    /// The map with the single entry `key1 -> value1`.
    pub fn of(key1: K, value1: Option<V>) -> (r: Self)
        requires
            lawful_order::<K>(),
        ensures
            r.contents() == Map::<K, Option<V>>::empty().insert(key1, value1),
            r.strategy() == Equivalence::Default,
    {
        let mut map = Self::create_with_capacity(1);
        map.put(key1, value1);
        map
    }

    /// The map with the entries `key1 -> value1` and `key2 -> value2`
    /// (the second wins when the keys are equal).
    pub fn of2(key1: K, value1: Option<V>, key2: K, value2: Option<V>) -> (r: Self)
        requires
            lawful_order::<K>(),
        ensures
            r.contents() == Map::<K, Option<V>>::empty().insert(key1, value1).insert(key2, value2),
            r.strategy() == Equivalence::Default,
    {
        let mut map = Self::create_with_capacity(2);
        map.put(key1, value1);
        map.put(key2, value2);
        map
    }

    /// A cursor over the entries, in increasing key order.
    pub fn get_entries<'a>(&'a self) -> (r: BTreeEconomicMapCursor<'a, K, V>)
        ensures
            sorted_keys_of(r.entries().map_values(|e: (K, Option<V>)| e.0), self.contents()),
            forall|i: int|
                0 <= i < r.entries().len() ==> #[trigger] r.entries()[i].1 == self.contents()[r.entries()[i].0],
            r.position() == -1,
    {
        proof {
            use_type_invariant(self);
        }
        let keys = tree_keys(&self.inner);
        proof {
            assert forall|i: int| 0 <= i < keys@.len() implies self.inner@.contains_key(*keys@[i]) by {
                assert(keys@.unref().to_set().contains(keys@.unref()[i]));
            }
        }
        let r = BTreeEconomicMapCursor { map: &self.inner, keys, started: false, index: 0 };
        assert(r.entries().map_values(|e: (K, Option<V>)| e.0) =~= r.keys@.unref());
        r
    }
}

impl<K: Ord, V> UnmodifiableEconomicMap<K, V> for BTreeEconomicMap<K, V> {
    closed spec fn contents(&self) -> Map<K, Option<V>> {
        self.inner@
    }

    closed spec fn strategy(&self) -> Equivalence {
        self.strategy
    }

    fn get(&self, key: &K) -> (r: Option<&V>) {
        proof {
            use_type_invariant(self);
        }
        tree_lookup(&self.inner, key)
    }

    /// Present keys yield their value or nothing for a null value; absent
    /// keys yield `default_value`.
    fn get_or_default<'a>(&'a self, key: &K, default_value: &'a V) -> (r: Option<&'a V>)
        ensures
            self.contents().contains_key(*key) ==> r == opt_ref(self.contents()[*key]),
    {
        proof {
            use_type_invariant(self);
        }
        match self.inner.get(key) {
            Some(Some(v)) => Some(v),
            Some(None) => None,
            None => Some(default_value),
        }
    }

    fn contains_key(&self, key: &K) -> (r: bool) {
        proof {
            use_type_invariant(self);
        }
        self.inner.contains_key(key)
    }

    fn size(&self) -> (r: usize) {
        proof {
            use_type_invariant(self);
        }
        self.inner.len()
    }

    /// The values come in increasing key order.
    fn get_values(&self) -> (r: Vec<Option<&V>>)
        ensures
            exists|ks: Seq<K>|
                #![trigger ks.to_set()]
                sorted_keys_of(ks, self.contents()) && ks.len() == r@.len() && forall|i: int|
                    0 <= i < r@.len() ==> r@[i] == opt_ref(lookup(self.contents(), #[trigger] ks[i])),
    {
        proof {
            use_type_invariant(self);
        }
        let keys = tree_keys(&self.inner);
        let ghost ks = keys@.unref();
        let mut r: Vec<Option<&V>> = Vec::new();
        let mut i: usize = 0;
        while i < keys.len()
            invariant
                lawful_order::<K>(),
                ks == keys@.unref(),
                ks.len() == keys@.len(),
                i <= keys@.len(),
                r@.len() == i,
                forall|j: int| 0 <= j < i ==> r@[j] == opt_ref(lookup(self.contents(), #[trigger] ks[j])),
            decreases keys.len() - i,
        {
            r.push(tree_lookup(&self.inner, keys[i]));
            i = i + 1;
        }
        assert(sorted_keys_of(ks, self.contents()));
        r
    }

    /// The keys come in increasing order.
    fn get_keys(&self) -> (r: Vec<&K>)
        ensures
            sorted_keys_of(r@.unref(), self.contents()),
    {
        proof {
            use_type_invariant(self);
        }
        tree_keys(&self.inner)
    }

    fn get_equivalence_strategy(&self) -> (r: Equivalence) {
        self.strategy
    }
}

impl<K: Ord, V> EconomicMap<K, V> for BTreeEconomicMap<K, V> {
    open spec fn modifiable(&self) -> bool {
        true
    }

    fn put(&mut self, key: K, value: Option<V>) -> (r: Option<V>) {
        proof {
            use_type_invariant(&*self);
        }
        let mut m = BTreeMap::new();
        std::mem::swap(&mut m, &mut self.inner);
        let r = match m.insert(key, value) {
            Some(Some(v)) => Some(v),
            _ => None,
        };
        self.inner = m;
        r
    }

    fn clear(&mut self) {
        proof {
            use_type_invariant(&*self);
        }
        self.inner = BTreeMap::new();
    }

    fn remove_key(&mut self, key: &K) -> (r: Option<V>) {
        proof {
            use_type_invariant(&*self);
        }
        let mut m = BTreeMap::new();
        std::mem::swap(&mut m, &mut self.inner);
        let r = match m.remove(key) {
            Some(Some(v)) => Some(v),
            _ => None,
        };
        self.inner = m;
        r
    }

    fn replace_all<F: Fn(&K, Option<&V>) -> Option<V>>(&mut self, function: &F) {
        proof {
            use_type_invariant(&*self);
        }
        let mut m = BTreeMap::new();
        std::mem::swap(&mut m, &mut self.inner);
        tree_replace_all(&mut m, function);
        self.inner = m;
    }
}

/// Cursor over the entries of a tree-backed economic map, in increasing key
/// order. It reads the map and cannot change it.
pub struct BTreeEconomicMapCursor<'a, K, V> where K: Ord {
    map: &'a BTreeMap<K, Option<V>>,
    keys: Vec<&'a K>,
    started: bool,
    index: usize,
}

impl<'a, K: Ord, V> BTreeEconomicMapCursor<'a, K, V> {
    /// The key ordering is lawful and every key walked is in the map.
    #[verifier::type_invariant]
    spec fn well_formed(self) -> bool {
        &&& lawful_order::<K>()
        &&& forall|i: int| 0 <= i < self.keys@.len() ==> self.map@.contains_key(*#[trigger] self.keys@[i])
        &&& self.index <= self.keys@.len()
        &&& !self.started ==> self.index == 0
    }
}

impl<'a, K: Ord, V> UnmodifiableMapCursor<K, V> for BTreeEconomicMapCursor<'a, K, V> {
    closed spec fn entries(&self) -> Seq<(K, Option<V>)> {
        self.keys@.map_values(|k: &K| (*k, self.map@[*k]))
    }

    closed spec fn position(&self) -> int {
        if self.started { self.index as int } else { -1 }
    }

    fn advance(&mut self) -> (r: bool) {
        proof {
            use_type_invariant(&*self);
        }
        if !self.started {
            self.started = true;
        } else if self.index < self.keys.len() {
            self.index = self.index + 1;
        }
        self.index < self.keys.len()
    }

    fn get_key(&self) -> (r: &K) {
        self.keys[self.index]
    }

    fn get_value(&self) -> (r: Option<&V>) {
        proof {
            use_type_invariant(self);
        }
        tree_lookup(self.map, self.keys[self.index])
    }
}

} // verus!
