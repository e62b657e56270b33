//! Named metrics of one compiled method, kept in order of their names.
use vstd::prelude::*;
use crate::text::{
    decimal, lemma_text_lt_irreflexive, lemma_text_lt_total, lemma_text_lt_transitive, owned, push_char,
    push_signed_decimal, push_text, signed_decimal, text_eq, text_less, text_lt,
};

verus! {

/// The metrics of one compiled method: a value per metric name.
#[derive(Debug)]
pub struct DebugMethodMetrics {
    method_name: String,
    compilation_id: String,
    metrics: Vec<(String, i64)>,
    enabled: bool,
}

/// The value of a metric among the entries (0 where it has none).
pub open spec fn metric_in(entries: Seq<(Seq<char>, i64)>, name: Seq<char>) -> int {
    if exists|i: int| 0 <= i < entries.len() && #[trigger] entries[i].0 == name {
        entries[metric_index(entries, name)].1 as int
    } else {
        0
    }
}

/// A position of the entry with the given name, where there is one.
pub open spec fn metric_index(entries: Seq<(Seq<char>, i64)>, name: Seq<char>) -> int {
    choose|i: int| 0 <= i < entries.len() && #[trigger] entries[i].0 == name
}

/// Whether the entries have a metric of the given name.
pub open spec fn has_metric(entries: Seq<(Seq<char>, i64)>, name: Seq<char>) -> bool {
    exists|i: int| 0 <= i < entries.len() && #[trigger] entries[i].0 == name
}

/// Whether the entries are in strictly ascending order of their names.
pub open spec fn names_ascending(entries: Seq<(Seq<char>, i64)>) -> bool {
    forall|i: int, j: int| 0 <= i < j < entries.len() ==> text_lt(#[trigger] entries[i].0, #[trigger] entries[j].0)
}

/// The CSV line of the metrics: method and compilation, then each value in
/// order of the names, all separated by `;`.
pub open spec fn metrics_csv(method: Seq<char>, id: Seq<char>, entries: Seq<(Seq<char>, i64)>) -> Seq<char>
    decreases entries.len(),
{
    if entries.len() == 0 {
        method + seq![';'] + id
    } else {
        metrics_csv(method, id, entries.drop_last()) + seq![';'] + signed_decimal(entries.last().1 as int)
    }
}

proof fn lemma_unique_position(entries: Seq<(Seq<char>, i64)>, i: int, name: Seq<char>)
    requires
        names_ascending(entries),
        0 <= i < entries.len(),
        entries[i].0 == name,
    ensures
        metric_in(entries, name) == entries[i].1,
{
    assert(0 <= i < entries.len() && entries[i].0 == name);
    let j = metric_index(entries, name);
    if j < i {
        assert(text_lt(entries[j].0, entries[i].0));
        lemma_text_lt_irreflexive(name);
    } else if i < j {
        assert(text_lt(entries[i].0, entries[j].0));
        lemma_text_lt_irreflexive(name);
    }
}

impl DebugMethodMetrics {
    /// The metric entries, in ascending order of names.
    pub closed spec fn entries(&self) -> Seq<(Seq<char>, i64)> {
        self.metrics@.map_values(|e: (String, i64)| (e.0@, e.1))
    }

    /// The value of the named metric (0 where it has none).
    pub open spec fn metric(&self, name: Seq<char>) -> int {
        metric_in(self.entries(), name)
    }

    /// The method's name.
    pub closed spec fn method(&self) -> Seq<char> {
        self.method_name@
    }

    /// The compilation's identifier.
    pub closed spec fn compilation(&self) -> Seq<char> {
        self.compilation_id@
    }

    /// Whether metrics are recorded.
    pub closed spec fn recording(&self) -> bool {
        self.enabled
    }

    #[verifier::type_invariant]
    closed spec fn ascending(&self) -> bool {
        names_ascending(self.entries())
    }

    /// The entries are in ascending order of names.
    pub fn entries_ascending(&self)
        ensures
            names_ascending(self.entries()),
    {
        proof {
            use_type_invariant(self);
        }
    }

    /// Recording metrics for the method and compilation, with no metric yet.
    pub fn new(method_name: String, compilation_id: String) -> (r: Self)
        ensures
            r.method() == method_name@,
            r.compilation() == compilation_id@,
            r.entries().len() == 0,
            r.recording(),
    {
        let r = DebugMethodMetrics { method_name, compilation_id, metrics: Vec::new(), enabled: true };
        assert(r.entries() =~= Seq::<(Seq<char>, i64)>::empty());
        r
    }

    /// The method's name.
    pub fn get_method(&self) -> (r: &str)
        ensures
            r@ == self.method(),
    {
        self.method_name.as_str()
    }

    /// The compilation's identifier.
    pub fn get_compilation_id(&self) -> (r: &str)
        ensures
            r@ == self.compilation(),
    {
        self.compilation_id.as_str()
    }

    /// The position of the first entry whose name is not before `name`.
    fn position(&self, name: &str) -> (r: usize)
        ensures
            r <= self.entries().len(),
            forall|i: int| 0 <= i < r ==> text_lt(#[trigger] self.entries()[i].0, name@),
            r < self.entries().len() ==> !text_lt(self.entries()[r as int].0, name@),
    {
        let mut i: usize = 0;
        while i < self.metrics.len()
            invariant
                i <= self.metrics@.len(),
                forall|k: int| 0 <= k < i ==> text_lt(#[trigger] self.entries()[k].0, name@),
            decreases self.metrics.len() - i,
        {
            if !text_less(self.metrics[i].0.as_str(), name) {
                return i;
            }
            i = i + 1;
        }
        i
    }

    /// Sets the named metric to `value`, keeping the names in order.
    fn put(&mut self, name: &str, value: i64)
        ensures
            final(self).method() == old(self).method(),
            final(self).compilation() == old(self).compilation(),
            final(self).recording() == old(self).recording(),
            final(self).metric(name@) == value,
            forall|n: Seq<char>| n != name@ ==> final(self).metric(n) == old(self).metric(n),
            forall|n: Seq<char>| #[trigger] has_metric(final(self).entries(), n)
                <==> (n == name@ || has_metric(old(self).entries(), n)),
    {
        proof {
            use_type_invariant(&*self);
        }
        let p = self.position(name);
        let ghost old_entries = self.entries();
        let mut metrics: Vec<(String, i64)> = Vec::new();
        std::mem::swap(&mut metrics, &mut self.metrics);
        if p < metrics.len() && text_eq(metrics[p].0.as_str(), name) {
            let (n, _) = metrics.remove(p);
            metrics.insert(p, (n, value));
        } else {
            metrics.insert(p, (owned(name), value));
        }
        proof {
            let e = metrics@.map_values(|e: (String, i64)| (e.0@, e.1));
            if p < old_entries.len() && old_entries[p as int].0 == name@ {
                assert(e =~= old_entries.update(p as int, (name@, value)));
                assert forall|i: int, j: int| 0 <= i < j < e.len() implies text_lt(#[trigger] e[i].0, #[trigger] e[j].0) by {
                    assert(text_lt(old_entries[i].0, old_entries[j].0));
                }
            } else {
                assert(e =~= old_entries.insert(p as int, (name@, value)));
                if p < old_entries.len() {
                    lemma_text_lt_total(old_entries[p as int].0, name@);
                }
                assert forall|i: int, j: int| 0 <= i < j < e.len() implies text_lt(#[trigger] e[i].0, #[trigger] e[j].0) by {
                    if i < p && j < p {
                        assert(text_lt(old_entries[i].0, old_entries[j].0));
                    } else if i < p && j == p {
                    } else if i < p && j > p {
                        assert(text_lt(old_entries[i].0, name@));
                        if j - 1 > p {
                            assert(text_lt(old_entries[p as int].0, old_entries[j - 1].0));
                            lemma_text_lt_transitive(name@, old_entries[p as int].0, old_entries[j - 1].0);
                        }
                        lemma_text_lt_transitive(old_entries[i].0, name@, old_entries[j - 1].0);
                    } else if i == p {
                        if j - 1 > p {
                            assert(text_lt(old_entries[p as int].0, old_entries[j - 1].0));
                            lemma_text_lt_transitive(name@, old_entries[p as int].0, old_entries[j - 1].0);
                        }
                    } else {
                        assert(text_lt(old_entries[i - 1].0, old_entries[j - 1].0));
                    }
                }
            }
            assert(names_ascending(e));
            let q = p as int;
            assert(e[q].0 == name@);
            lemma_unique_position(e, q, name@);
            assert forall|n: Seq<char>| n != name@ implies #[trigger] metric_in(e, n) == metric_in(old_entries, n) by {
                if exists|i: int| 0 <= i < old_entries.len() && #[trigger] old_entries[i].0 == n {
                    let i = choose|i: int| 0 <= i < old_entries.len() && #[trigger] old_entries[i].0 == n;
                    lemma_unique_position(old_entries, i, n);
                    let k = if i < q || (q < old_entries.len() && old_entries[q].0 == name@) { i } else { i + 1 };
                    assert(e[k].0 == n);
                    lemma_unique_position(e, k, n);
                } else {
                    if exists|k: int| 0 <= k < e.len() && #[trigger] e[k].0 == n {
                        let k = choose|k: int| 0 <= k < e.len() && #[trigger] e[k].0 == n;
                        let i = if k < q || (q < old_entries.len() && old_entries[q].0 == name@) { k } else { k - 1 };
                        assert(old_entries[i].0 == n);
                    }
                }
            }
            assert forall|n: Seq<char>|
                (n == name@ || has_metric(old_entries, n)) implies #[trigger] has_metric(e, n) by {
                if n == name@ {
                    assert(e[q].0 == n);
                }
                if n != name@ && exists|i: int| 0 <= i < old_entries.len() && #[trigger] old_entries[i].0 == n {
                    let i = choose|i: int| 0 <= i < old_entries.len() && #[trigger] old_entries[i].0 == n;
                    let k = if i < q || (q < old_entries.len() && old_entries[q].0 == name@) { i } else { i + 1 };
                    assert(e[k].0 == n);
                }
            }
            assert forall|n: Seq<char>| #[trigger] has_metric(e, n)
                implies (n == name@ || has_metric(old_entries, n)) by {
                if n != name@ && exists|k: int| 0 <= k < e.len() && #[trigger] e[k].0 == n {
                    let k = choose|k: int| 0 <= k < e.len() && #[trigger] e[k].0 == n;
                    let i = if k < q || (q < old_entries.len() && old_entries[q].0 == name@) { k } else { k - 1 };
                    assert(old_entries[i].0 == n);
                }
            }
        }
        self.metrics = metrics;
    }

    /// Adds `value` to the named metric (from 0 where it has none), where
    /// metrics are recorded.
    pub fn add_to_metric(&mut self, name: &str, value: i64)
        requires
            old(self).recording() ==> i64::MIN <= old(self).metric(name@) + value <= i64::MAX,
        ensures
            final(self).method() == old(self).method(),
            final(self).compilation() == old(self).compilation(),
            final(self).recording() == old(self).recording(),
            !old(self).recording() ==> final(self).entries() == old(self).entries(),
            old(self).recording() ==> final(self).metric(name@) == old(self).metric(name@) + value,
            forall|n: Seq<char>| n != name@ ==> final(self).metric(n) == old(self).metric(n),
    {
        if !self.enabled {
            return;
        }
        let current = self.get_metric(name);
        self.put(name, current + value);
    }

    /// Adds one to the named metric, where metrics are recorded.
    pub fn increment_metric(&mut self, name: &str)
        requires
            old(self).recording() ==> old(self).metric(name@) + 1 <= i64::MAX,
        ensures
            final(self).method() == old(self).method(),
            final(self).compilation() == old(self).compilation(),
            final(self).recording() == old(self).recording(),
            !old(self).recording() ==> final(self).entries() == old(self).entries(),
            old(self).recording() ==> final(self).metric(name@) == old(self).metric(name@) + 1,
            forall|n: Seq<char>| n != name@ ==> final(self).metric(n) == old(self).metric(n),
    {
        self.add_to_metric(name, 1);
    }

    /// Sets the named metric, where metrics are recorded.
    pub fn set_metric(&mut self, name: &str, value: i64)
        ensures
            final(self).method() == old(self).method(),
            final(self).compilation() == old(self).compilation(),
            final(self).recording() == old(self).recording(),
            !old(self).recording() ==> final(self).entries() == old(self).entries(),
            old(self).recording() ==> final(self).metric(name@) == value,
            forall|n: Seq<char>| n != name@ ==> final(self).metric(n) == old(self).metric(n),
    {
        if !self.enabled {
            return;
        }
        self.put(name, value);
    }

    /// The value of the named metric (0 where it has none).
    pub fn get_metric(&self, name: &str) -> (r: i64)
        ensures
            r == self.metric(name@),
    {
        proof {
            use_type_invariant(self);
        }
        let p = self.position(name);
        if p < self.metrics.len() && text_eq(self.metrics[p].0.as_str(), name) {
            proof {
                lemma_unique_position(self.entries(), p as int, name@);
            }
            self.metrics[p].1
        } else {
            proof {
                if exists|i: int| 0 <= i < self.entries().len() && #[trigger] self.entries()[i].0 == name@ {
                    let i = choose|i: int| 0 <= i < self.entries().len() && #[trigger] self.entries()[i].0 == name@;
                    if i < p {
                        lemma_text_lt_irreflexive(name@);
                    } else if i > p {
                        assert(text_lt(self.entries()[p as int].0, self.entries()[i].0));
                    }
                }
            }
            0
        }
    }

    /// The names of the metrics, in ascending order.
    pub fn get_metric_names(&self) -> (r: Vec<&str>)
        ensures
            r@.len() == self.entries().len(),
            forall|i: int| 0 <= i < r@.len() ==> (#[trigger] r@[i])@ == self.entries()[i].0,
    {
        let mut r: Vec<&str> = Vec::new();
        let mut i: usize = 0;
        while i < self.metrics.len()
            invariant
                i <= self.metrics@.len(),
                r@.len() == i,
                forall|k: int| 0 <= k < i ==> (#[trigger] r@[k])@ == self.entries()[k].0,
            decreases self.metrics.len() - i,
        {
            r.push(self.metrics[i].0.as_str());
            i = i + 1;
        }
        r
    }

    /// Whether metrics are recorded.
    pub fn is_enabled(&self) -> (r: bool)
        ensures
            r == self.recording(),
    {
        self.enabled
    }

    /// Turns recording on or off.
    pub fn set_enabled(&mut self, enabled: bool)
        ensures
            final(self).recording() == enabled,
            final(self).entries() == old(self).entries(),
            final(self).method() == old(self).method(),
            final(self).compilation() == old(self).compilation(),
    {
        proof {
            use_type_invariant(&*self);
        }
        self.enabled = enabled;
    }

    /// Forgets all metrics.
    pub fn clear(&mut self)
        ensures
            final(self).entries().len() == 0,
            final(self).recording() == old(self).recording(),
            final(self).method() == old(self).method(),
            final(self).compilation() == old(self).compilation(),
    {
        self.metrics = Vec::new();
        assert(self.entries() =~= Seq::<(Seq<char>, i64)>::empty());
    }

    /// The metrics as one CSV line: method, compilation, then the values in
    /// ascending order of names.
    pub fn to_csv(&self) -> (r: String)
        ensures
            r@ == metrics_csv(self.method(), self.compilation(), self.entries()),
    {
        let mut csv = self.method_name.clone();
        push_char(&mut csv, ';');
        push_text(&mut csv, self.compilation_id.as_str());
        let mut i: usize = 0;
        while i < self.metrics.len()
            invariant
                i <= self.metrics@.len(),
                csv@ == metrics_csv(self.method(), self.compilation(), self.entries().take(i as int)),
            decreases self.metrics.len() - i,
        {
            push_char(&mut csv, ';');
            push_signed_decimal(&mut csv, self.metrics[i].1);
            assert(self.entries().take(i + 1).drop_last() =~= self.entries().take(i as int));
            i = i + 1;
        }
        assert(self.entries().take(self.metrics@.len() as int) =~= self.entries());
        csv
    }
}

impl Clone for DebugMethodMetrics {
    fn clone(&self) -> (r: Self)
        ensures
            r.entries() == self.entries(),
            r.method() == self.method(),
            r.compilation() == self.compilation(),
            r.recording() == self.recording(),
    {
        proof {
            use_type_invariant(self);
        }
        let mut metrics: Vec<(String, i64)> = Vec::new();
        let mut i: usize = 0;
        while i < self.metrics.len()
            invariant
                i <= self.metrics@.len(),
                metrics@.len() == i,
                forall|k: int| 0 <= k < i ==> (#[trigger] metrics@[k]) == self.metrics@[k],
            decreases self.metrics.len() - i,
        {
            metrics.push((self.metrics[i].0.clone(), self.metrics[i].1));
            i = i + 1;
        }
        assert(metrics@ =~= self.metrics@);
        DebugMethodMetrics {
            method_name: self.method_name.clone(),
            compilation_id: self.compilation_id.clone(),
            metrics,
            enabled: self.enabled,
        }
    }
}

} // verus!
