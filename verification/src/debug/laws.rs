//! Laws of the debugging helpers: registering keys, indentation, and
//! metrics.
use vstd::prelude::*;
use crate::debug::debug_context::{counted, first_named, lemma_first_named_found, lemma_first_named_push, property_of, property_set, signed_lines, timer_started, timer_stopped_after, unsigned_lines, values_csv, DebugContext};
use crate::text::signed_decimal;
use crate::debug::debug_method_metrics::metric_in;
use crate::debug::key_registry::{position_of, KeyInfo};
use crate::text::{fill_placeholders, find_from, lemma_find_from_some, occurs_at, replace_first};

verus! {

/// Registering a name a second time gives the index of the first time and
/// changes nothing.
pub proof fn law_register_idempotent(
    start: Seq<KeyInfo>,
    once: Seq<KeyInfo>,
    twice: Seq<KeyInfo>,
    name: Seq<char>,
    first: usize,
    second: usize,
)
    requires
        forall|i: int| 0 <= i < start.len() ==> (#[trigger] start[i]).index == i,
        forall|i: int, j: int| 0 <= i < start.len() && 0 <= j < start.len() && i != j
            ==> (#[trigger] start[i]).name@ != (#[trigger] start[j]).name@,
        match position_of(start, name) {
            Some(i) => first == i && once == start,
            None => first == start.len() && once.len() == start.len() + 1 && once.take(first as int) == start
                && once[first as int].name@ == name && once[first as int].index == first,
        },
        match position_of(once, name) {
            Some(i) => second == i && twice == once,
            None => second == once.len() && twice.len() == once.len() + 1,
        },
    ensures
        second == first,
        twice == once,
{
    match position_of(start, name) {
        Some(i) => {},
        None => {
            assert(once[first as int].name@ == name);
            match position_of(once, name) {
                Some(j) => {
                    assert(0 <= j < once.len() && once[j].name@ == name);
                    if j < first {
                        assert(once.take(first as int)[j] == start[j]);
                        assert(start[j].name@ == name);
                    }
                },
                None => {},
            }
        },
    }
}

/// Filling a text with no arguments leaves it as it is.
pub proof fn law_fill_without_arguments(s: Seq<char>)
    ensures
        fill_placeholders(s, Seq::empty()) == s,
{
}

/// A text without placeholders is left as it is, whatever the arguments.
pub proof fn law_fill_without_placeholders(s: Seq<char>, args: Seq<Seq<char>>)
    requires
        forall|i: int| !occurs_at(s, "{}"@, i),
    ensures
        fill_placeholders(s, args) == s,
    decreases args.len(),
{
    if args.len() > 0 {
        lemma_find_from_some(s, "{}"@, 0);
        assert(replace_first(s, "{}"@, args[0]) == s);
        law_fill_without_placeholders(s, args.skip(1));
    }
}

/// A metric that was never set reads zero.
pub proof fn law_missing_metric_is_zero(entries: Seq<(Seq<char>, i64)>, name: Seq<char>)
    requires
        forall|i: int| 0 <= i < entries.len() ==> (#[trigger] entries[i]).0 != name,
    ensures
        metric_in(entries, name) == 0,
{
}

/// A global property reads back the value it was last set to, and setting
/// one key leaves the value of every other key as it was.
pub proof fn law_property_read_after_write(
    ps: Seq<(Seq<char>, Seq<char>)>,
    key: Seq<char>,
    value: Seq<char>,
    other: Seq<char>,
)
    ensures
        property_of(property_set(ps, key, value), key) == Some(value),
        other != key ==> property_of(property_set(ps, key, value), other) == property_of(ps, other),
{
    let keys = ps.map_values(|p: (Seq<char>, Seq<char>)| p.0);
    let after = property_set(ps, key, value);
    lemma_first_named_found(keys, key);
    lemma_first_named_found(keys, other);
    match first_named(keys, key) {
        Some(i) => {
            assert(after.map_values(|p: (Seq<char>, Seq<char>)| p.0) =~= keys);
        },
        None => {
            assert(after.map_values(|p: (Seq<char>, Seq<char>)| p.0) =~= keys.push(key));
            lemma_first_named_push(keys, key, key);
            lemma_first_named_push(keys, key, other);
        },
    }
}

/// Whether `b` can follow `a` through a metric call (counting, timing or
/// memory tracking): the handler is kept, and a view whose switch is off is
/// kept, as `increment`, `add_to_counter`, `start_timer`, `stop_timer`,
/// `start_mem_use_tracker` and `stop_mem_use_tracker` state.
pub open spec fn metric_step(a: DebugContext, b: DebugContext) -> bool {
    &&& b.handler_view() == a.handler_view()
    &&& !a.handler_view().counting() ==> b.counters_view() == a.counters_view()
    &&& !a.handler_view().timing() ==> b.timers_view() == a.timers_view()
    &&& !a.handler_view().tracking() ==> b.trackers_view() == a.trackers_view()
}

/// Along metric calls on a context with counting, timing and memory
/// tracking off, the handler and the empty views stay as they were.
proof fn lemma_quiet_views(states: Seq<DebugContext>, k: int)
    requires
        states.len() > 0,
        states[0].counters_view().len() == 0,
        states[0].timers_view().len() == 0,
        states[0].trackers_view().len() == 0,
        !states[0].handler_view().counting(),
        !states[0].handler_view().timing(),
        !states[0].handler_view().tracking(),
        forall|i: int| 0 < i < states.len() ==> metric_step(states[i - 1], #[trigger] states[i]),
        0 <= k < states.len(),
    ensures
        states[k].handler_view() == states[0].handler_view(),
        states[k].counters_view().len() == 0,
        states[k].timers_view().len() == 0,
        states[k].trackers_view().len() == 0,
    decreases k,
{
    if k > 0 {
        lemma_quiet_views(states, k - 1);
        assert(metric_step(states[k - 1], states[k]));
    }
}

/// A context with counting, timing and memory tracking off (such as a
/// disabled one) records nothing however many metric calls it gets: its CSV
/// stays the bare header.
pub proof fn law_quiet_context_csv(states: Seq<DebugContext>, k: int, tv: Seq<u64>)
    requires
        states.len() > 0,
        states[0].counters_view().len() == 0,
        states[0].timers_view().len() == 0,
        states[0].trackers_view().len() == 0,
        !states[0].handler_view().counting(),
        !states[0].handler_view().timing(),
        !states[0].handler_view().tracking(),
        forall|i: int| 0 < i < states.len() ==> metric_step(states[i - 1], #[trigger] states[i]),
        0 <= k < states.len(),
        states[k].timer_readings(tv),
    ensures
        states[k].counters_view().len() == 0,
        states[k].timers_view().len() == 0,
        states[k].trackers_view().len() == 0,
        states[k].csv_with(tv) == "name;value"@,
{
    lemma_quiet_views(states, k);
    let c = states[k];
    let cs = c.counters_view().map_values(|x: (Seq<char>, i64, bool)| (x.0, x.1));
    let ts = Seq::new(tv.len(), |i: int| (c.timers_view()[i].0, tv[i]));
    let ms = c.trackers_view().map_values(|x: (Seq<char>, i64, i64, bool, bool)| (x.0, x.1));
    assert(cs =~= Seq::<(Seq<char>, i64)>::empty());
    assert(ts =~= Seq::<(Seq<char>, u64)>::empty());
    assert(ms =~= Seq::<(Seq<char>, i64)>::empty());
    assert(signed_lines(cs) == Seq::<char>::empty());
    assert(unsigned_lines(ts) == Seq::<char>::empty());
    assert(signed_lines(ms) == Seq::<char>::empty());
    assert(c.csv_with(tv) =~= "name;value"@);
}

/// The counters after `n` increments of one counter, starting from none.
pub open spec fn incremented(name: Seq<char>, n: nat) -> Seq<(Seq<char>, i64, bool)>
    decreases n,
{
    if n == 0 {
        Seq::empty()
    } else {
        counted(incremented(name, (n - 1) as nat), name, 1)
    }
}

/// Incrementing one counter `n` times and then adding `d` to it, on a
/// counting context with no counters, leaves that one counter holding
/// `n + d` (where that fits), and the CSV lists just it.
pub proof fn law_counts_sum(name: Seq<char>, n: nat, d: i64)
    requires
        1 <= n,
        n + d <= i64::MAX,
        n <= i64::MAX,
        i64::MIN <= n + d,
    ensures
        counted(incremented(name, n), name, d) == seq![(name, (n + d) as i64, true)],
        values_csv(seq![(name, (n + d) as i64)], Seq::empty(), Seq::empty())
            == "name;value"@ + seq!['\n'] + name + seq![';'] + signed_decimal(n + d),
{
    lemma_incremented(name, n);
    let one = seq![name];
    assert(first_named(one, name) == Some(0int));
    assert(incremented(name, n).map_values(|c: (Seq<char>, i64, bool)| c.0) =~= one);
    let e: Seq<(Seq<char>, i64)> = seq![(name, (n + d) as i64)];
    assert(e.drop_last() =~= Seq::<(Seq<char>, i64)>::empty());
    assert(signed_lines(e) == signed_lines(e.drop_last()) + seq!['\n'] + name + seq![';'] + signed_decimal(n + d));
    assert(unsigned_lines(Seq::<(Seq<char>, u64)>::empty()) == Seq::<char>::empty());
    assert(signed_lines(Seq::<(Seq<char>, i64)>::empty()) == Seq::<char>::empty());
    assert(values_csv(e, Seq::empty(), Seq::empty()) =~= "name;value"@ + seq!['\n'] + name + seq![';'] + signed_decimal(n + d));
}

/// After `n >= 1` increments from none there is one counter, enabled, holding `n`.
proof fn lemma_incremented(name: Seq<char>, n: nat)
    requires
        1 <= n <= i64::MAX,
    ensures
        incremented(name, n) == seq![(name, n as i64, true)],
    decreases n,
{
    let one = seq![name];
    assert(first_named(one, name) == Some(0int));
    if n == 1 {
        let empty = Seq::<(Seq<char>, i64, bool)>::empty();
        assert(empty.map_values(|c: (Seq<char>, i64, bool)| c.0) =~= Seq::<Seq<char>>::empty());
        assert(first_named(Seq::<Seq<char>>::empty(), name) is None);
        assert(incremented(name, 0) == empty);
        assert(counted(empty, name, 1) =~= seq![(name, 1i64, true)]);
    } else {
        lemma_incremented(name, (n - 1) as nat);
        assert(incremented(name, (n - 1) as nat).map_values(|c: (Seq<char>, i64, bool)| c.0) =~= one);
        assert(incremented(name, n) =~= seq![(name, n as i64, true)]);
    }
}

/// What one call of `DebugContext::increment` (with `delta` 1) or
/// `DebugContext::add_to_counter` does to a context, as they state it.
pub open spec fn count_step(a: DebugContext, b: DebugContext, name: Seq<char>, delta: i64) -> bool {
    &&& b.counters_view() == if a.handler_view().counting() {
        counted(a.counters_view(), name, delta)
    } else {
        a.counters_view()
    }
    &&& b.timers_view() == a.timers_view()
    &&& b.trackers_view() == a.trackers_view()
    &&& b.handler_view() == a.handler_view()
}

/// After `k` increments of one counter on a counting context with no
/// metrics, that counter alone holds `k`, and nothing else has changed.
proof fn lemma_increments(states: Seq<DebugContext>, name: Seq<char>, k: nat)
    requires
        states.len() > k,
        states[0].counters_view().len() == 0,
        states[0].handler_view().counting(),
        forall|j: int| 0 <= j < k ==> count_step(#[trigger] states[j], states[j + 1], name, 1),
    ensures
        states[k as int].counters_view() == incremented(name, k),
        states[k as int].timers_view() == states[0].timers_view(),
        states[k as int].trackers_view() == states[0].trackers_view(),
        states[k as int].handler_view() == states[0].handler_view(),
    decreases k,
{
    if k == 0 {
        assert(states[0].counters_view() =~= Seq::<(Seq<char>, i64, bool)>::empty());
    } else {
        lemma_increments(states, name, (k - 1) as nat);
        assert(count_step(states[k - 1], states[k as int], name, 1));
    }
}

/// A counting context with no metrics that gets `n >= 1` increments of one
/// counter and then one addition of `d` to it lists in its CSV just that
/// counter, holding `n + d` (where that fits).
pub proof fn law_counting_context_csv(states: Seq<DebugContext>, name: Seq<char>, n: nat, d: i64, tv: Seq<u64>)
    requires
        1 <= n,
        n <= i64::MAX,
        i64::MIN <= n + d <= i64::MAX,
        states.len() == n + 2,
        states[0].counters_view().len() == 0,
        states[0].timers_view().len() == 0,
        states[0].trackers_view().len() == 0,
        states[0].handler_view().counting(),
        forall|j: int| 0 <= j < n ==> count_step(#[trigger] states[j], states[j + 1], name, 1),
        count_step(states[n as int], states[n + 1int], name, d),
        states[n + 1int].timer_readings(tv),
    ensures
        states[n + 1int].counters_view() == seq![(name, (n + d) as i64, true)],
        states[n + 1int].csv_with(tv) == "name;value"@ + seq!['\n'] + name + seq![';'] + signed_decimal(n + d),
{
    lemma_increments(states, name, n);
    law_counts_sum(name, n, d);
    let c = states[n + 1int];
    assert(c.counters_view() == counted(incremented(name, n), name, d));
    assert(c.counters_view().map_values(|x: (Seq<char>, i64, bool)| (x.0, x.1)) =~= seq![(name, (n + d) as i64)]);
    assert(Seq::new(tv.len(), |i: int| (c.timers_view()[i].0, tv[i])) =~= Seq::<(Seq<char>, u64)>::empty());
    assert(c.trackers_view().map_values(|x: (Seq<char>, i64, i64, bool, bool)| (x.0, x.1)) =~= Seq::<(Seq<char>, i64)>::empty());
}

/// The time of the first timer named `name`, or 0 where there is none.
pub open spec fn time_of(ts: Seq<(Seq<char>, u64, bool, bool)>, name: Seq<char>) -> u64 {
    match first_named(ts.map_values(|t: (Seq<char>, u64, bool, bool)| t.0), name) {
        Some(i) => ts[i].1,
        None => 0,
    }
}

/// Timing twice adds up: starting a timer that is missing, or enabled and
/// stopped, stopping it after `d1`, starting it again and stopping it after
/// `d2` leaves it stopped with `d1 + d2` more time (wrapping past `u64::MAX`).
pub proof fn law_timer_intervals_add(ts: Seq<(Seq<char>, u64, bool, bool)>, name: Seq<char>, d1: u64, d2: u64)
    requires
        match first_named(ts.map_values(|t: (Seq<char>, u64, bool, bool)| t.0), name) {
            Some(i) => ts[i].2 && !ts[i].3,
            None => true,
        },
    ensures
        ({
            let t4 = timer_stopped_after(timer_started(timer_stopped_after(timer_started(ts, name), name, d1), name), name, d2);
            &&& time_of(t4, name) == time_of(ts, name).wrapping_add(d1).wrapping_add(d2)
            &&& first_named(t4.map_values(|t: (Seq<char>, u64, bool, bool)| t.0), name) matches Some(i) && !t4[i].3
        }),
{
    let f = |t: (Seq<char>, u64, bool, bool)| t.0;
    let names = ts.map_values(f);
    let t1 = timer_started(ts, name);
    let t2 = timer_stopped_after(t1, name, d1);
    let t3 = timer_started(t2, name);
    let t4 = timer_stopped_after(t3, name, d2);
    lemma_first_named_found(names, name);
    let i: int = match first_named(names, name) {
        Some(i) => {
            assert(t1.map_values(f) =~= names);
            i
        },
        None => {
            assert(t1.map_values(f) =~= names.push(name));
            lemma_first_named_push(names, name, name);
            names.len() as int
        },
    };
    let n1 = t1.map_values(f);
    assert(first_named(n1, name) == Some(i));
    assert(t1[i].2 && t1[i].3 && t1[i].1 == time_of(ts, name));
    assert(t2.map_values(f) =~= n1);
    assert(t2[i].1 == time_of(ts, name).wrapping_add(d1) && t2[i].2 && !t2[i].3);
    assert(t3.map_values(f) =~= n1);
    assert(t3[i].1 == t2[i].1 && t3[i].3);
    assert(t4.map_values(f) =~= n1);
    assert(t4[i].1 == t2[i].1.wrapping_add(d2) && !t4[i].3);
}

} // verus!
