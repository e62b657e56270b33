//! The debug context of a compilation: its configuration, scopes, counters,
//! timers, memory trackers and method metrics.
use vstd::prelude::*;
use crate::debug::counter_key::{CounterKey, TimerKey};
use crate::debug::debug_config::{DebugConfig, DebugFilterTrait};
use crate::debug::debug_counter::DebugCounter;
use crate::debug::debug_dump_handler::{first_error, DebugDumpHandler, DebugVerifyHandler};
use crate::debug::debug_handler::DebugHandler;
use crate::debug::indent::repeat;
use crate::debug::debug_mem_use_tracker::DebugMemUseTracker;
use crate::debug::debug_method_metrics::DebugMethodMetrics;
use crate::debug::debug_timer::DebugTimer;
use crate::debug::java_method_context::JavaMethodContext;
use crate::debug::mem_use_tracker_key::MemUseTrackerKey;
use crate::debug::scope::Scope;
use crate::text::{decimal, fill_placeholders, fill_placeholders_exec, owned, push_char, push_decimal,
    push_signed_decimal, push_text, signed_decimal, text_eq};

verus! {

/// Builds a debug context.
pub struct DebugContextBuilder {
    config: Option<Box<dyn DebugConfig>>,
    switches: (bool, bool, bool, bool, bool, bool),
    description: Option<String>,
    method_context: Option<Box<dyn JavaMethodContext>>,
}

impl DebugContextBuilder {
    /// Whether a configuration was given.
    pub closed spec fn has_config(&self) -> bool {
        self.config is Some
    }

    /// The description given, if any.
    pub closed spec fn described(&self) -> Option<Seq<char>> {
        match self.description {
            Some(d) => Some(d@),
            None => None,
        }
    }

    /// Whether a method context was given.
    pub closed spec fn has_method_context(&self) -> bool {
        self.method_context is Some
    }

    /// The switches (dumping, logging, counting, timing, memory use
    /// tracking, verification) of the configuration given; all off where
    /// none was given.
    pub closed spec fn switches(&self) -> (bool, bool, bool, bool, bool, bool) {
        self.switches
    }

    /// A builder with nothing given yet.
    pub fn new() -> (r: Self)
        ensures
            !r.has_config(),
            r.described() is None,
            !r.has_method_context(),
            r.switches() == (false, false, false, false, false, false),
    {
        DebugContextBuilder { config: None, switches: (false, false, false, false, false, false), description: None, method_context: None }
    }

    /// Gives the configuration.
    pub fn config(self, config: Box<dyn DebugConfig>) -> (r: Self)
        ensures
            r.has_config(),
            r.described() == self.described(),
            r.has_method_context() == self.has_method_context(),
            r.switches() == (config.dump_on(), config.log_on(), config.count_on(), config.time_on(), config.tracking_on(), config.verify_on()),
    {
        let switches = (
            config.is_dump_enabled(),
            config.is_log_enabled(),
            config.is_count_enabled(),
            config.is_time_enabled(),
            config.is_mem_use_tracking_enabled(),
            config.is_verify_enabled(),
        );
        DebugContextBuilder { config: Some(config), switches, description: self.description, method_context: self.method_context }
    }

    /// Gives the description.
    pub fn description(self, description: String) -> (r: Self)
        ensures
            r.has_config() == self.has_config(),
            r.described() == Some(description@),
            r.has_method_context() == self.has_method_context(),
            r.switches() == self.switches(),
    {
        DebugContextBuilder { config: self.config, switches: self.switches, description: Some(description), method_context: self.method_context }
    }

    /// Gives the method context.
    pub fn method_context(self, context: Box<dyn JavaMethodContext>) -> (r: Self)
        ensures
            r.has_config() == self.has_config(),
            r.described() == self.described(),
            r.has_method_context(),
            r.switches() == self.switches(),
    {
        DebugContextBuilder { config: self.config, switches: self.switches, description: self.description, method_context: Some(context) }
    }

    /// The context: with the given configuration (else one with everything
    /// off), description and method context, no scope, and no counters,
    /// timers, trackers, metrics, handlers or properties.
    pub fn build(self) -> (r: DebugContext)
        ensures
            r.described() == self.described(),
            r.has_method_context() == self.has_method_context(),
            r.current_scope() is None,
            r.counters_view().len() == 0,
            r.timers_view().len() == 0,
            r.trackers_view().len() == 0,
            r.metrics() is None,
            r.properties().len() == 0,
            r.handler_view().level() == 0,
            r.handler_view().stream().written() == Seq::<char>::empty(),
            r.handler_view().switches() == self.switches(),
    {
        let config: Box<dyn DebugConfig> = match self.config {
            Some(c) => c,
            None => Box::new(DisabledDebugConfig),
        };
        let r = DebugContext {
            handler: DebugHandler::with_switches(config, self.switches),
            scope: None,
            description: self.description,
            method_context: self.method_context,
            counters: Vec::new(),
            timers: Vec::new(),
            mem_use_trackers: Vec::new(),
            method_metrics: None,
            dump_handlers: Vec::new(),
            verify_handlers: Vec::new(),
            global_properties: Vec::new(),
        };
        assert(r.counters_view() =~= Seq::<(Seq<char>, i64, bool)>::empty());
        assert(r.timers_view() =~= Seq::<(Seq<char>, u64, bool, bool)>::empty());
        assert(r.trackers_view() =~= Seq::<(Seq<char>, i64, i64, bool, bool)>::empty());
        assert(r.properties() =~= Seq::<(Seq<char>, Seq<char>)>::empty());
        r
    }
}

impl Default for DebugContextBuilder {
    fn default() -> (r: Self)
        ensures
            !r.has_config(),
            r.described() is None,
            !r.has_method_context(),
            r.switches() == (false, false, false, false, false, false),
    {
        DebugContextBuilder::new()
    }
}

/// The configuration with every debugging facility off.
struct DisabledDebugConfig;

impl DebugConfig for DisabledDebugConfig {
    open spec fn verifiers(&self) -> Seq<Box<dyn DebugVerifyHandler>> {
        Seq::empty()
    }

    open spec fn dump_on(&self) -> bool {
        false
    }

    open spec fn log_on(&self) -> bool {
        false
    }

    open spec fn count_on(&self) -> bool {
        false
    }

    open spec fn time_on(&self) -> bool {
        false
    }

    open spec fn tracking_on(&self) -> bool {
        false
    }

    open spec fn verify_on(&self) -> bool {
        false
    }

    fn get_debug_filter(&self) -> Option<&dyn DebugFilterTrait> {
        None
    }

    fn dump_handlers(&self) -> &[Box<dyn DebugDumpHandler>] {
        &[]
    }

    fn verify_handlers(&self) -> &[Box<dyn DebugVerifyHandler>] {
        &[]
    }

    fn get_diagnostics_output_directory(&self) -> Option<String> {
        None
    }

    fn is_dump_enabled(&self) -> bool {
        false
    }

    fn is_log_enabled(&self) -> bool {
        false
    }

    fn is_count_enabled(&self) -> bool {
        false
    }

    fn is_time_enabled(&self) -> bool {
        false
    }

    fn is_mem_use_tracking_enabled(&self) -> bool {
        false
    }

    fn is_verify_enabled(&self) -> bool {
        false
    }

    fn is_method_meter_enabled(&self) -> bool {
        false
    }
}

/// The debug context of a compilation.
pub struct DebugContext {
    handler: DebugHandler,
    scope: Option<Scope>,
    description: Option<String>,
    method_context: Option<Box<dyn JavaMethodContext>>,
    counters: Vec<DebugCounter>,
    timers: Vec<DebugTimer>,
    mem_use_trackers: Vec<DebugMemUseTracker>,
    method_metrics: Option<DebugMethodMetrics>,
    dump_handlers: Vec<Box<dyn DebugDumpHandler>>,
    verify_handlers: Vec<Box<dyn DebugVerifyHandler>>,
    global_properties: Vec<(String, String)>,
}

/// The first position of an entry with the given name, if any.
pub open spec fn first_named<T>(names: Seq<T>, name: T) -> Option<int>
    decreases names.len(),
{
    if names.len() == 0 {
        None
    } else if names[0] == name {
        Some(0)
    } else {
        match first_named(names.skip(1), name) {
            Some(i) => Some(i + 1),
            None => None,
        }
    }
}

/// Timers (name, time, enabled, running) after the named one is started: an
/// existing timer starts where enabled (a running one keeps running); a
/// missing one is made, enabled and running, with no time.
pub open spec fn timer_started(ts: Seq<(Seq<char>, u64, bool, bool)>, name: Seq<char>) -> Seq<(Seq<char>, u64, bool, bool)> {
    match first_named(ts.map_values(|t: (Seq<char>, u64, bool, bool)| t.0), name) {
        Some(i) => ts.update(i, (ts[i].0, ts[i].1, ts[i].2, ts[i].3 || ts[i].2)),
        None => ts.push((name, 0, true, true)),
    }
}

/// Starting a timer leaves one of that name, and the first of that name
/// runs wherever it is enabled, whether it ran before or not; an existing
/// timer keeps its time and whether it is enabled, and a disabled one is not
/// set running; a new one has no time.
pub proof fn law_started_timer_runs(ts: Seq<(Seq<char>, u64, bool, bool)>, name: Seq<char>)
    ensures
        match first_named(timer_started(ts, name).map_values(|t: (Seq<char>, u64, bool, bool)| t.0), name) {
            Some(i) => timer_started(ts, name)[i].2 ==> timer_started(ts, name)[i].3,
            None => false,
        },
        match first_named(ts.map_values(|t: (Seq<char>, u64, bool, bool)| t.0), name) {
            Some(i) => {
                &&& timer_started(ts, name)[i].1 == ts[i].1
                &&& timer_started(ts, name)[i].2 == ts[i].2
                &&& !ts[i].2 ==> timer_started(ts, name)[i].3 == ts[i].3
            },
            None => timer_started(ts, name).last() == (name, 0u64, true, true),
        },
{
    let names = ts.map_values(|t: (Seq<char>, u64, bool, bool)| t.0);
    let after = timer_started(ts, name);
    lemma_first_named_found(names, name);
    match first_named(names, name) {
        Some(i) => {
            assert(after.map_values(|t: (Seq<char>, u64, bool, bool)| t.0) =~= names);
        },
        None => {
            assert(after.map_values(|t: (Seq<char>, u64, bool, bool)| t.0) =~= names.push(name));
            lemma_first_named_push(names, name, name);
        },
    }
}

/// Whether `after` is `before` with the named timer stopped: it no longer
/// runs, a timer that was not running keeps its time, and every other timer
/// is as it was; without such a timer nothing changes. (The time a running
/// timer gains comes from the clock.)
pub open spec fn timer_stopped(
    before: Seq<(Seq<char>, u64, bool, bool)>,
    after: Seq<(Seq<char>, u64, bool, bool)>,
    name: Seq<char>,
) -> bool {
    match first_named(before.map_values(|t: (Seq<char>, u64, bool, bool)| t.0), name) {
        Some(i) => {
            &&& after.len() == before.len()
            &&& forall|j: int| 0 <= j < before.len() && j != i ==> after[j] == before[j]
            &&& after[i].0 == before[i].0
            &&& after[i].2 == before[i].2
            &&& !after[i].3
            &&& !before[i].3 ==> after[i].1 == before[i].1
        },
        None => after == before,
    }
}

/// Timers after the named one is stopped when its running interval has
/// lasted `elapsed` nanoseconds: a running timer adds them to its time
/// (wrapping around) and stops; without such a timer nothing changes.
pub open spec fn timer_stopped_after(
    ts: Seq<(Seq<char>, u64, bool, bool)>,
    name: Seq<char>,
    elapsed: u64,
) -> Seq<(Seq<char>, u64, bool, bool)> {
    match first_named(ts.map_values(|t: (Seq<char>, u64, bool, bool)| t.0), name) {
        Some(i) => ts.update(
            i,
            (ts[i].0, if ts[i].3 { ts[i].1.wrapping_add(elapsed) } else { ts[i].1 }, ts[i].2, false),
        ),
        None => ts,
    }
}

/// Memory trackers (name, value, start, tracking, enabled) after the named
/// one is started at `current`: an enabled tracker that is not tracking
/// starts there; a missing one is made, enabled and tracking from there.
pub open spec fn tracker_started(
    ts: Seq<(Seq<char>, i64, i64, bool, bool)>,
    name: Seq<char>,
    current: i64,
) -> Seq<(Seq<char>, i64, i64, bool, bool)> {
    match first_named(ts.map_values(|t: (Seq<char>, i64, i64, bool, bool)| t.0), name) {
        Some(i) => ts.update(i, if ts[i].4 && !ts[i].3 { (ts[i].0, ts[i].1, current, true, ts[i].4) } else { ts[i] }),
        None => ts.push((name, 0, current, true, true)),
    }
}

/// Memory trackers after the named one is stopped at `current`: a tracking
/// tracker adds the memory used since its start and stops tracking.
pub open spec fn tracker_stopped(
    ts: Seq<(Seq<char>, i64, i64, bool, bool)>,
    name: Seq<char>,
    current: i64,
) -> Seq<(Seq<char>, i64, i64, bool, bool)> {
    match first_named(ts.map_values(|t: (Seq<char>, i64, i64, bool, bool)| t.0), name) {
        Some(i) => ts.update(
            i,
            if ts[i].3 { (ts[i].0, (ts[i].1 + (current - ts[i].2)) as i64, ts[i].2, false, ts[i].4) } else { ts[i] },
        ),
        None => ts,
    }
}

/// Counters (name, value, enabled) after `delta` is counted under `name`: an
/// existing counter adds it where enabled; a missing one is made, enabled,
/// holding `delta`.
pub open spec fn counted(cs: Seq<(Seq<char>, i64, bool)>, name: Seq<char>, delta: i64) -> Seq<(Seq<char>, i64, bool)> {
    match first_named(cs.map_values(|c: (Seq<char>, i64, bool)| c.0), name) {
        Some(i) => cs.update(i, (cs[i].0, if cs[i].2 { cs[i].1.wrapping_add(delta) } else { cs[i].1 }, cs[i].2)),
        None => cs.push((name, delta, true)),
    }
}

/// Global properties (key, value) after `key` is set to `value`: the
/// entry of that key takes the value, or a new entry is added at the end.
pub open spec fn property_set(ps: Seq<(Seq<char>, Seq<char>)>, key: Seq<char>, value: Seq<char>) -> Seq<(Seq<char>, Seq<char>)> {
    match first_named(ps.map_values(|p: (Seq<char>, Seq<char>)| p.0), key) {
        Some(i) => ps.update(i, (key, value)),
        None => ps.push((key, value)),
    }
}

/// The value of `key` among the global properties, if it is set.
pub open spec fn property_of(ps: Seq<(Seq<char>, Seq<char>)>, key: Seq<char>) -> Option<Seq<char>> {
    match first_named(ps.map_values(|p: (Seq<char>, Seq<char>)| p.0), key) {
        Some(i) => Some(ps[i].1),
        None => None,
    }
}

/// Where `first_named` finds a name, the entry there has it; where it finds
/// none, no entry has it.
pub proof fn lemma_first_named_found<T>(names: Seq<T>, name: T)
    ensures
        match first_named(names, name) {
            Some(j) => 0 <= j < names.len() && names[j] == name,
            None => forall|q: int| 0 <= q < names.len() ==> names[q] != name,
        },
    decreases names.len(),
{
    if names.len() > 0 {
        lemma_first_named_found(names.skip(1), name);
        if names[0] != name {
            match first_named(names.skip(1), name) {
                Some(j) => {},
                None => {
                    assert forall|q: int| 0 <= q < names.len() implies names[q] != name by {
                        if q > 0 {
                            assert(names.skip(1)[q - 1] == names[q]);
                        }
                    }
                },
            }
        }
    }
}

/// Pushing a name keeps an earlier find, and is found itself otherwise.
pub proof fn lemma_first_named_push<T>(names: Seq<T>, x: T, name: T)
    ensures
        first_named(names.push(x), name) == match first_named(names, name) {
            Some(j) => Some(j),
            None => if x == name { Some(names.len() as int) } else { None },
        },
    decreases names.len(),
{
    if names.len() == 0 {
        assert(names.push(x).skip(1) =~= Seq::<T>::empty());
        assert(first_named(Seq::<T>::empty(), name) is None);
        assert(names.push(x)[0] == x);
    } else {
        assert(names.push(x)[0] == names[0]);
        assert(names.push(x).skip(1) =~= names.skip(1).push(x));
        lemma_first_named_push(names.skip(1), x, name);
    }
}

fn find_property(ps: &Vec<(String, String)>, name: &str) -> (r: Option<usize>)
    ensures
        match (r, first_named(ps@.map_values(|p: (String, String)| p.0@), name@)) {
            (Some(a), Some(b)) => a == b,
            (None, None) => true,
            _ => false,
        },
        r matches Some(i) ==> i < ps@.len(),
{
    let ghost names = ps@.map_values(|p: (String, String)| p.0@);
    assert(names.skip(0) =~= names);
    let mut i: usize = 0;
    while i < ps.len()
        invariant
            i <= ps@.len(),
            names == ps@.map_values(|p: (String, String)| p.0@),
            first_named(names, name@) == match first_named(names.skip(i as int), name@) {
                Some(k) => Some(k + i),
                None => None,
            },
        decreases ps.len() - i,
    {
        assert(names.skip(i as int)[0] == ps@[i as int].0@);
        assert(names.skip(i as int).skip(1) =~= names.skip(i + 1));
        if text_eq(ps[i].0.as_str(), name) {
            return Some(i);
        }
        i = i + 1;
    }
    assert(names.skip(i as int).len() == 0);
    None
}

/// The CSV text of the values: a header line, then one `name;value` line per
/// counter, timer and tracker, in that order.
pub open spec fn values_csv(counters: Seq<(Seq<char>, i64)>, timers: Seq<(Seq<char>, u64)>, trackers: Seq<(Seq<char>, i64)>) -> Seq<char> {
    "name;value"@ + signed_lines(counters) + unsigned_lines(timers) + signed_lines(trackers)
}

/// One `\nname;value` line per entry.
pub open spec fn signed_lines(es: Seq<(Seq<char>, i64)>) -> Seq<char>
    decreases es.len(),
{
    if es.len() == 0 {
        Seq::empty()
    } else {
        signed_lines(es.drop_last()) + seq!['\n'] + es.last().0 + seq![';'] + signed_decimal(es.last().1 as int)
    }
}

/// One `\nname;value` line per entry.
pub open spec fn unsigned_lines(es: Seq<(Seq<char>, u64)>) -> Seq<char>
    decreases es.len(),
{
    if es.len() == 0 {
        Seq::empty()
    } else {
        unsigned_lines(es.drop_last()) + seq!['\n'] + es.last().0 + seq![';'] + decimal(es.last().1 as nat)
    }
}

fn find_counter(cs: &Vec<DebugCounter>, name: &str) -> (r: Option<usize>)
    ensures
        match (r, first_named(cs@.map_values(|c: DebugCounter| c.name@), name@)) {
            (Some(a), Some(b)) => a == b,
            (None, None) => true,
            _ => false,
        },
        r matches Some(i) ==> i < cs@.len(),
{
    let ghost names = cs@.map_values(|c: DebugCounter| c.name@);
    assert(names.skip(0) =~= names);
    let mut i: usize = 0;
    while i < cs.len()
        invariant
            i <= cs@.len(),
            names == cs@.map_values(|c: DebugCounter| c.name@),
            first_named(names, name@) == match first_named(names.skip(i as int), name@) {
                Some(k) => Some(k + i),
                None => None,
            },
        decreases cs.len() - i,
    {
        assert(names.skip(i as int)[0] == cs@[i as int].name@);
        assert(names.skip(i as int).skip(1) =~= names.skip(i + 1));
        if text_eq(cs[i].name.as_str(), name) {
            return Some(i);
        }
        i = i + 1;
    }
    assert(names.skip(i as int).len() == 0);
    None
}

fn find_timer(ts: &Vec<DebugTimer>, name: &str) -> (r: Option<usize>)
    ensures
        match (r, first_named(ts@.map_values(|t: DebugTimer| t.name@), name@)) {
            (Some(a), Some(b)) => a == b,
            (None, None) => true,
            _ => false,
        },
        r matches Some(i) ==> i < ts@.len(),
{
    let ghost names = ts@.map_values(|t: DebugTimer| t.name@);
    assert(names.skip(0) =~= names);
    let mut i: usize = 0;
    while i < ts.len()
        invariant
            i <= ts@.len(),
            names == ts@.map_values(|t: DebugTimer| t.name@),
            first_named(names, name@) == match first_named(names.skip(i as int), name@) {
                Some(k) => Some(k + i),
                None => None,
            },
        decreases ts.len() - i,
    {
        assert(names.skip(i as int)[0] == ts@[i as int].name@);
        assert(names.skip(i as int).skip(1) =~= names.skip(i + 1));
        if text_eq(ts[i].name.as_str(), name) {
            return Some(i);
        }
        i = i + 1;
    }
    assert(names.skip(i as int).len() == 0);
    None
}

fn find_tracker(ts: &Vec<DebugMemUseTracker>, name: &str) -> (r: Option<usize>)
    ensures
        match (r, first_named(ts@.map_values(|t: DebugMemUseTracker| t.name@), name@)) {
            (Some(a), Some(b)) => a == b,
            (None, None) => true,
            _ => false,
        },
        r matches Some(i) ==> i < ts@.len(),
{
    let ghost names = ts@.map_values(|t: DebugMemUseTracker| t.name@);
    assert(names.skip(0) =~= names);
    let mut i: usize = 0;
    while i < ts.len()
        invariant
            i <= ts@.len(),
            names == ts@.map_values(|t: DebugMemUseTracker| t.name@),
            first_named(names, name@) == match first_named(names.skip(i as int), name@) {
                Some(k) => Some(k + i),
                None => None,
            },
        decreases ts.len() - i,
    {
        assert(names.skip(i as int)[0] == ts@[i as int].name@);
        assert(names.skip(i as int).skip(1) =~= names.skip(i + 1));
        if text_eq(ts[i].name.as_str(), name) {
            return Some(i);
        }
        i = i + 1;
    }
    assert(names.skip(i as int).len() == 0);
    None
}

impl DebugContext {
    /// The description, if any.
    pub closed spec fn described(&self) -> Option<Seq<char>> {
        match self.description {
            Some(d) => Some(d@),
            None => None,
        }
    }

    /// Whether there is a method context.
    pub closed spec fn has_method_context(&self) -> bool {
        self.method_context is Some
    }

    /// The current scope, if any.
    pub closed spec fn current_scope(&self) -> Option<Scope> {
        self.scope
    }

    /// The counters: name, value and whether enabled.
    pub closed spec fn counters_view(&self) -> Seq<(Seq<char>, i64, bool)> {
        self.counters@.map_values(|c: DebugCounter| (c.name@, c.value, c.enabled))
    }

    /// The timers: name, accumulated time, whether enabled, whether running.
    pub closed spec fn timers_view(&self) -> Seq<(Seq<char>, u64, bool, bool)> {
        self.timers@.map_values(|t: DebugTimer| (t.name@, t.time, t.enabled, t.start is Some))
    }

    /// The memory trackers: name, value, start, whether tracking, whether enabled.
    pub closed spec fn trackers_view(&self) -> Seq<(Seq<char>, i64, i64, bool, bool)> {
        self.mem_use_trackers@.map_values(|t: DebugMemUseTracker| (t.name@, t.value, t.start, t.tracking, t.enabled))
    }

    /// The method metrics, if set.
    pub closed spec fn metrics(&self) -> Option<DebugMethodMetrics> {
        self.method_metrics
    }

    /// The global properties, as (key, value) in order of setting.
    pub closed spec fn properties(&self) -> Seq<(Seq<char>, Seq<char>)> {
        self.global_properties@.map_values(|p: (String, String)| (p.0@, p.1@))
    }

    /// The handler.
    pub closed spec fn handler_view(&self) -> DebugHandler {
        self.handler
    }

    /// Whether `tv` can be the timers' values: one per timer, equal to the
    /// accumulated time of each timer that is not running.
    pub open spec fn timer_readings(&self, tv: Seq<u64>) -> bool {
        &&& tv.len() == self.timers_view().len()
        &&& forall|i: int| 0 <= i < tv.len() && !self.timers_view()[i].3 ==> tv[i] == self.timers_view()[i].1
    }

    /// The CSV text of the context with the timers reading `tv`.
    pub open spec fn csv_with(&self, tv: Seq<u64>) -> Seq<char> {
        values_csv(
            self.counters_view().map_values(|c: (Seq<char>, i64, bool)| (c.0, c.1)),
            Seq::new(tv.len(), |i: int| (self.timers_view()[i].0, tv[i])),
            self.trackers_view().map_values(|t: (Seq<char>, i64, i64, bool, bool)| (t.0, t.1)),
        )
    }

    /// A builder for a context.
    pub fn builder() -> (r: DebugContextBuilder)
        ensures
            !r.has_config(),
            r.described() is None,
            !r.has_method_context(),
            r.switches() == (false, false, false, false, false, false),
    {
        DebugContextBuilder::new()
    }

    /// A context with every debugging facility off.
    pub fn disabled() -> (r: Self)
        ensures
            r.described() is None,
            !r.has_method_context(),
            r.current_scope() is None,
            r.counters_view().len() == 0,
            r.timers_view().len() == 0,
            r.trackers_view().len() == 0,
            r.metrics() is None,
            r.properties().len() == 0,
            r.handler_view().switches() == (false, false, false, false, false, false),
            r.handler_view().level() == 0,
    {
        DebugContextBuilder::new().config(Box::new(DisabledDebugConfig)).build()
    }

    /// The description, if any.
    pub fn get_description(&self) -> (r: Option<&str>)
        ensures
            match (r, self.described()) {
                (Some(a), Some(b)) => a@ == b,
                (None, None) => true,
                _ => false,
            },
    {
        match &self.description {
            Some(d) => Some(d.as_str()),
            None => None,
        }
    }

    /// The method context, if any.
    pub fn get_method_context(&self) -> (r: Option<&dyn JavaMethodContext>)
        ensures
            r is Some <==> self.has_method_context(),
    {
        match &self.method_context {
            Some(c) => Some(&**c),
            None => None,
        }
    }

    /// Whether the configuration has logging on.
    pub fn is_log_enabled(&self) -> (r: bool)
        ensures
            r == self.handler_view().logging(),
    {
        self.handler.is_log_enabled()
    }

    /// Whether the configuration has dumping on.
    pub fn is_dump_enabled(&self) -> (r: bool)
        ensures
            r == self.handler_view().dumping(),
    {
        self.handler.is_dump_enabled()
    }

    /// Whether the configuration has counting on.
    pub fn is_count_enabled(&self) -> (r: bool)
        ensures
            r == self.handler_view().counting(),
    {
        self.handler.is_count_enabled()
    }

    /// Whether the configuration has timing on.
    pub fn is_time_enabled(&self) -> (r: bool)
        ensures
            r == self.handler_view().timing(),
    {
        self.handler.is_time_enabled()
    }

    /// Whether the configuration has memory use tracking on.
    pub fn is_mem_use_tracking_enabled(&self) -> (r: bool)
        ensures
            r == self.handler_view().tracking(),
    {
        self.handler.is_mem_use_tracking_enabled()
    }

    /// Whether the configuration has verification on.
    pub fn is_verify_enabled(&self) -> (r: bool)
        ensures
            r == self.handler_view().verifying(),
    {
        self.handler.is_verify_enabled()
    }

    /// A fresh top-level scope named like the current scope, if there is one.
    pub fn get_current_scope(&self) -> (r: Option<Scope>)
        ensures
            match (r, self.current_scope()) {
                (Some(a), Some(b)) => a.name@ == b.name@ && a.parent is None && a.indent is None && !a.closed,
                (None, None) => true,
                _ => false,
            },
    {
        match &self.scope {
            Some(s) => Some(Scope::new(owned(s.get_name()))),
            None => None,
        }
    }

    /// The dump level.
    pub fn get_dump_level(&self) -> (r: usize)
        ensures
            r == self.handler_view().level(),
    {
        self.handler.get_dump_level()
    }

    /// The handler.
    pub fn handler(&self) -> (r: &DebugHandler)
        ensures
            *r == self.handler_view(),
    {
        &self.handler
    }

    /// The handler, for changing it.
    pub fn handler_mut(&mut self) -> (r: &mut DebugHandler)
        ensures
            *r == old(self).handler_view(),
            final(self).handler_view() == *final(r),
            final(self).counters_view() == old(self).counters_view(),
            final(self).timers_view() == old(self).timers_view(),
            final(self).trackers_view() == old(self).trackers_view(),
            final(self).current_scope() == old(self).current_scope(),
            final(self).metrics() == old(self).metrics(),
            final(self).properties() == old(self).properties(),
    {
        &mut self.handler
    }

    /// Opens a scope named `name` inside the current scope (at top level
    /// where there is none) and gives it back; the current scope becomes a
    /// fresh top-level scope of that name.
    pub fn scope(&mut self, name: &str) -> (r: Scope)
        ensures
            r.name@ == name@,
            r.indent is None,
            !r.closed,
            match old(self).current_scope() {
                Some(p) => r.parent == Some(Box::new(p)),
                None => r.parent is None,
            },
            final(self).current_scope() matches Some(s) && s.name@ == name@ && s.parent is None
                && s.indent is None && !s.closed,
            final(self).counters_view() == old(self).counters_view(),
            final(self).timers_view() == old(self).timers_view(),
            final(self).trackers_view() == old(self).trackers_view(),
            final(self).metrics() == old(self).metrics(),
            final(self).properties() == old(self).properties(),
            final(self).handler_view() == old(self).handler_view(),
    {
        let parent = self.scope.take();
        let new_scope = match parent {
            Some(p) => Scope::child(owned(name), p),
            None => Scope::new(owned(name)),
        };
        self.scope = Some(Scope::new(owned(name)));
        new_scope
    }

    /// Opens a scope named by `format` filled with `args` (see `scope`).
    pub fn scopev(&mut self, format: &str, args: &[&str]) -> (r: Scope)
        ensures
            r.name@ == fill_placeholders(format@, args@.map_values(|a: &str| a@)),
            match old(self).current_scope() {
                Some(p) => r.parent == Some(Box::new(p)),
                None => r.parent is None,
            },
            final(self).current_scope() matches Some(s)
                && s.name@ == fill_placeholders(format@, args@.map_values(|a: &str| a@)),
            final(self).counters_view() == old(self).counters_view(),
            final(self).handler_view() == old(self).handler_view(),
    {
        let name = fill_placeholders_exec(format, args);
        self.scope(name.as_str())
    }

    /// Logs a message, where logging is on.
    pub fn log(&mut self, msg: &str)
        ensures
            final(self).handler_view().stream().written() == if old(self).handler_view().logging() {
                old(self).handler_view().stream().written() + repeat(
                    old(self).handler_view().stream().unit(),
                    old(self).handler_view().stream().level() as nat,
                ) + msg@ + seq!['\n']
            } else {
                old(self).handler_view().stream().written()
            },
            final(self).handler_view().stream().level() == old(self).handler_view().stream().level(),
            final(self).handler_view().logging() == old(self).handler_view().logging(),
            final(self).counters_view() == old(self).counters_view(),
            final(self).handler_view().level() == old(self).handler_view().level(),
    {
        if self.is_log_enabled() {
            self.handler.log(msg);
        }
    }

    /// Logs `format` filled with `args`, where logging is on.
    pub fn logv(&mut self, format: &str, args: &[&str])
        ensures
            final(self).handler_view().stream().written() == if old(self).handler_view().logging() {
                old(self).handler_view().stream().written() + repeat(
                    old(self).handler_view().stream().unit(),
                    old(self).handler_view().stream().level() as nat,
                ) + fill_placeholders(format@, args@.map_values(|a: &str| a@)) + seq!['\n']
            } else {
                old(self).handler_view().stream().written()
            },
            final(self).handler_view().stream().level() == old(self).handler_view().stream().level(),
            final(self).handler_view().logging() == old(self).handler_view().logging(),
            final(self).counters_view() == old(self).counters_view(),
            final(self).handler_view().level() == old(self).handler_view().level(),
    {
        if self.is_log_enabled() {
            self.handler.logv(format, args);
        }
    }

    /// Dumps an object under a name, where dumping is on.
    pub fn dump(&self, object: &str, name: &str) {
        if self.is_dump_enabled() {
            self.handler.dump(self, object, name);
        }
    }

    /// Dumps an object under the name `format` filled with `args`.
    pub fn dumpv(&self, object: &str, format: &str, args: &[&str]) {
        let name = fill_placeholders_exec(format, args);
        self.dump(object, name.as_str());
    }

    /// Verifies an object, where verification is on; gives the first error found.
    pub fn verify(&self, object: &str, name: &str) -> (r: Option<String>)
        ensures
            match (r, if self.handler_view().verifying() {
                first_error(self.handler_view().checkers(), object@, name@)
            } else {
                None
            }) {
                (Some(e), Some(f)) => e@ == f,
                (None, None) => true,
                _ => false,
            },
    {
        if self.is_verify_enabled() {
            self.handler.verify(self, object, name)
        } else {
            None
        }
    }

    /// Verifies an object under the name `format` filled with `args`.
    pub fn verifyv(&self, object: &str, format: &str, args: &[&str]) -> (r: Option<String>)
        ensures
            match (r, if self.handler_view().verifying() {
                first_error(
                    self.handler_view().checkers(),
                    object@,
                    fill_placeholders(format@, args@.map_values(|a: &str| a@)),
                )
            } else {
                None
            }) {
                (Some(e), Some(f)) => e@ == f,
                (None, None) => true,
                _ => false,
            },
    {
        let name = fill_placeholders_exec(format, args);
        self.verify(object, name.as_str())
    }

    /// Counts `delta` under `name`, making the counter (enabled) where missing.
    pub fn count(&mut self, name: &str, delta: i64)
        ensures
            final(self).counters_view() == counted(old(self).counters_view(), name@, delta),
            final(self).timers_view() == old(self).timers_view(),
            final(self).trackers_view() == old(self).trackers_view(),
            final(self).handler_view() == old(self).handler_view(),
            final(self).current_scope() == old(self).current_scope(),
            final(self).metrics() == old(self).metrics(),
            final(self).properties() == old(self).properties(),
    {
        let ghost names = self.counters@.map_values(|c: DebugCounter| c.name@);
        assert(self.counters_view().map_values(|c: (Seq<char>, i64, bool)| c.0) =~= names);
        match find_counter(&self.counters, name) {
            Some(i) => {
                let mut counters: Vec<DebugCounter> = Vec::new();
                std::mem::swap(&mut counters, &mut self.counters);
                let mut c = counters.remove(i);
                c.add(delta);
                counters.insert(i, c);
                self.counters = counters;
                assert(self.counters_view() =~= counted(old(self).counters_view(), name@, delta));
            },
            None => {
                let mut c = DebugCounter::new(owned(name));
                c.set_enabled(true);
                c.add(delta);
                self.counters.push(c);
                assert(0i64.wrapping_add(delta) == delta);
                assert(self.counters_view() =~= counted(old(self).counters_view(), name@, delta));
            },
        }
    }

    /// Adds one to the key's counter, where counting is on.
    pub fn increment(&mut self, key: &CounterKey)
        ensures
            final(self).counters_view() == if old(self).handler_view().counting() {
                counted(old(self).counters_view(), key.name@, 1)
            } else {
                old(self).counters_view()
            },
            final(self).timers_view() == old(self).timers_view(),
            final(self).trackers_view() == old(self).trackers_view(),
            final(self).handler_view() == old(self).handler_view(),
    {
        if self.is_count_enabled() {
            self.count(key.get_name(), 1);
        }
    }

    /// Adds `delta` to the key's counter, where counting is on.
    pub fn add_to_counter(&mut self, key: &CounterKey, delta: i64)
        ensures
            final(self).counters_view() == if old(self).handler_view().counting() {
                counted(old(self).counters_view(), key.name@, delta)
            } else {
                old(self).counters_view()
            },
            final(self).timers_view() == old(self).timers_view(),
            final(self).trackers_view() == old(self).trackers_view(),
            final(self).handler_view() == old(self).handler_view(),
    {
        if self.is_count_enabled() {
            self.count(key.get_name(), delta);
        }
    }

    /// Starts the named timer (made, enabled, where missing).
    pub fn start_named_timer(&mut self, name: &str)
        ensures
            final(self).timers_view() == timer_started(old(self).timers_view(), name@),
            match first_named(final(self).timers_view().map_values(|t: (Seq<char>, u64, bool, bool)| t.0), name@) {
                Some(i) => final(self).timers_view()[i].2 ==> final(self).timers_view()[i].3,
                None => false,
            },
            final(self).counters_view() == old(self).counters_view(),
            final(self).trackers_view() == old(self).trackers_view(),
            final(self).handler_view() == old(self).handler_view(),
    {
        let ghost names = self.timers@.map_values(|t: DebugTimer| t.name@);
        assert(self.timers_view().map_values(|t: (Seq<char>, u64, bool, bool)| t.0) =~= names);
        match find_timer(&self.timers, name) {
            Some(i) => {
                let mut timers: Vec<DebugTimer> = Vec::new();
                std::mem::swap(&mut timers, &mut self.timers);
                let mut t = timers.remove(i);
                t.start();
                timers.insert(i, t);
                self.timers = timers;
                assert(self.timers_view() =~= timer_started(old(self).timers_view(), name@));
            },
            None => {
                let mut t = DebugTimer::new(owned(name));
                t.set_enabled(true);
                t.start();
                self.timers.push(t);
                assert(self.timers_view() =~= timer_started(old(self).timers_view(), name@));
            },
        }
        proof {
            law_started_timer_runs(old(self).timers_view(), name@);
        }
    }

    /// Starts the key's timer, where timing is on.
    pub fn start_timer(&mut self, key: &TimerKey)
        ensures
            final(self).timers_view() == if old(self).handler_view().timing() {
                timer_started(old(self).timers_view(), key.name@)
            } else {
                old(self).timers_view()
            },
            final(self).counters_view() == old(self).counters_view(),
            final(self).trackers_view() == old(self).trackers_view(),
            final(self).handler_view() == old(self).handler_view(),
    {
        if self.is_time_enabled() {
            self.start_named_timer(key.get_name());
        }
    }

    /// Stops the key's timer, where timing is on and the timer exists; the
    /// length of its running interval is read from the clock (see
    /// `stop_timer_after`).
    pub fn stop_timer(&mut self, key: &TimerKey)
        ensures
            old(self).handler_view().timing() ==> exists|e: u64|
                final(self).timers_view() == #[trigger] timer_stopped_after(old(self).timers_view(), key.name@, e),
            old(self).handler_view().timing() ==> timer_stopped(old(self).timers_view(), final(self).timers_view(), key.name@),
            !old(self).handler_view().timing() ==> final(self).timers_view() == old(self).timers_view(),
            final(self).counters_view() == old(self).counters_view(),
            final(self).trackers_view() == old(self).trackers_view(),
            final(self).handler_view() == old(self).handler_view(),
    {
        let elapsed: u64 = match find_timer(&self.timers, key.get_name()) {
            Some(i) => self.timers[i].running_nanos(),
            None => 0,
        };
        self.stop_timer_after(key, elapsed);
        proof {
            if old(self).handler_view().timing() {
                let ts = old(self).timers_view();
                assert(final(self).timers_view() == timer_stopped_after(ts, key.name@, elapsed));
                lemma_first_named_found(ts.map_values(|t: (Seq<char>, u64, bool, bool)| t.0), key.name@);
            }
        }
    }

    /// Stops the key's timer, where timing is on and the timer exists, when
    /// its running interval has lasted `elapsed` nanoseconds.
    pub fn stop_timer_after(&mut self, key: &TimerKey, elapsed: u64)
        ensures
            final(self).timers_view() == if old(self).handler_view().timing() {
                timer_stopped_after(old(self).timers_view(), key.name@, elapsed)
            } else {
                old(self).timers_view()
            },
            final(self).counters_view() == old(self).counters_view(),
            final(self).trackers_view() == old(self).trackers_view(),
            final(self).handler_view() == old(self).handler_view(),
    {
        if self.is_time_enabled() {
            let ghost names = self.timers@.map_values(|t: DebugTimer| t.name@);
            assert(self.timers_view().map_values(|t: (Seq<char>, u64, bool, bool)| t.0) =~= names);
            match find_timer(&self.timers, key.get_name()) {
                Some(i) => {
                    let mut timers: Vec<DebugTimer> = Vec::new();
                    std::mem::swap(&mut timers, &mut self.timers);
                    let mut t = timers.remove(i);
                    t.stop_after(elapsed);
                    timers.insert(i, t);
                    self.timers = timers;
                    assert(self.timers_view() =~= timer_stopped_after(old(self).timers_view(), key.name@, elapsed));
                },
                None => {},
            }
        }
    }

    /// Starts the named tracker at the given memory use (made, enabled, where missing).
    pub fn start_named_tracker(&mut self, name: &str, current_mem_used: i64)
        ensures
            final(self).trackers_view() == tracker_started(old(self).trackers_view(), name@, current_mem_used),
            final(self).counters_view() == old(self).counters_view(),
            final(self).timers_view() == old(self).timers_view(),
            final(self).handler_view() == old(self).handler_view(),
    {
        let ghost names = self.mem_use_trackers@.map_values(|t: DebugMemUseTracker| t.name@);
        assert(self.trackers_view().map_values(|t: (Seq<char>, i64, i64, bool, bool)| t.0) =~= names);
        match find_tracker(&self.mem_use_trackers, name) {
            Some(i) => {
                let mut trackers: Vec<DebugMemUseTracker> = Vec::new();
                std::mem::swap(&mut trackers, &mut self.mem_use_trackers);
                let mut t = trackers.remove(i);
                t.start(current_mem_used);
                trackers.insert(i, t);
                self.mem_use_trackers = trackers;
                assert(self.trackers_view() =~= tracker_started(old(self).trackers_view(), name@, current_mem_used));
            },
            None => {
                let mut t = DebugMemUseTracker::new(owned(name));
                t.set_enabled(true);
                t.start(current_mem_used);
                self.mem_use_trackers.push(t);
                assert(self.trackers_view() =~= tracker_started(old(self).trackers_view(), name@, current_mem_used));
            },
        }
    }

    /// Starts the key's memory tracker, where memory use tracking is on.
    pub fn start_mem_use_tracker(&mut self, key: &MemUseTrackerKey, current_mem_used: i64)
        ensures
            final(self).trackers_view() == if old(self).handler_view().tracking() {
                tracker_started(old(self).trackers_view(), key.key_name(), current_mem_used)
            } else {
                old(self).trackers_view()
            },
            final(self).counters_view() == old(self).counters_view(),
            final(self).timers_view() == old(self).timers_view(),
            final(self).handler_view() == old(self).handler_view(),
    {
        if self.is_mem_use_tracking_enabled() {
            self.start_named_tracker(key.get_name(), current_mem_used);
        }
    }

    /// Stops the key's memory tracker at the given memory use, where memory
    /// use tracking is on and the tracker exists.
    pub fn stop_mem_use_tracker(&mut self, key: &MemUseTrackerKey, current_mem_used: i64)
        requires
            forall|i: int| 0 <= i < old(self).trackers_view().len() && (#[trigger] old(self).trackers_view()[i]).3 ==> {
                &&& i64::MIN <= current_mem_used - old(self).trackers_view()[i].2 <= i64::MAX
                &&& i64::MIN <= old(self).trackers_view()[i].1 + (current_mem_used - old(self).trackers_view()[i].2) <= i64::MAX
            },
        ensures
            final(self).trackers_view() == if old(self).handler_view().tracking() {
                tracker_stopped(old(self).trackers_view(), key.key_name(), current_mem_used)
            } else {
                old(self).trackers_view()
            },
            final(self).counters_view() == old(self).counters_view(),
            final(self).timers_view() == old(self).timers_view(),
            final(self).handler_view() == old(self).handler_view(),
    {
        if self.is_mem_use_tracking_enabled() {
            let ghost names = self.mem_use_trackers@.map_values(|t: DebugMemUseTracker| t.name@);
            assert(self.trackers_view().map_values(|t: (Seq<char>, i64, i64, bool, bool)| t.0) =~= names);
            match find_tracker(&self.mem_use_trackers, key.get_name()) {
                Some(i) => {
                    let mut trackers: Vec<DebugMemUseTracker> = Vec::new();
                    std::mem::swap(&mut trackers, &mut self.mem_use_trackers);
                    let mut t = trackers.remove(i);
                    assert(old(self).trackers_view()[i as int].3 == t.tracking);
                    t.stop(current_mem_used);
                    trackers.insert(i, t);
                    self.mem_use_trackers = trackers;
                    assert(self.trackers_view() =~= tracker_stopped(old(self).trackers_view(), key.key_name(), current_mem_used));
                },
                None => {},
            }
        }
    }

    /// The method metrics, if set.
    pub fn get_method_metrics(&self) -> (r: Option<&DebugMethodMetrics>)
        ensures
            match self.metrics() {
                Some(m) => r == Some(&m),
                None => r is None,
            },
    {
        match &self.method_metrics {
            Some(m) => Some(m),
            None => None,
        }
    }

    /// Sets the method metrics.
    pub fn set_method_metrics(&mut self, metrics: DebugMethodMetrics)
        ensures
            final(self).metrics() == Some(metrics),
            final(self).counters_view() == old(self).counters_view(),
            final(self).handler_view() == old(self).handler_view(),
    {
        self.method_metrics = Some(metrics);
    }

    /// Sets a global property: a key set before takes the new value in its
    /// place; a new key is added at the end.
    pub fn set_global_property(&mut self, key: &str, value: String)
        ensures
            final(self).properties() == property_set(old(self).properties(), key@, value@),
            final(self).counters_view() == old(self).counters_view(),
            final(self).timers_view() == old(self).timers_view(),
            final(self).trackers_view() == old(self).trackers_view(),
            final(self).handler_view() == old(self).handler_view(),
    {
        let ghost old_props = self.properties();
        let ghost keys = old_props.map_values(|p: (Seq<char>, Seq<char>)| p.0);
        assert(keys =~= self.global_properties@.map_values(|p: (String, String)| p.0@));
        match find_property(&self.global_properties, key) {
            Some(i) => {
                let mut props: Vec<(String, String)> = Vec::new();
                std::mem::swap(&mut props, &mut self.global_properties);
                props.set(i, (owned(key), value));
                self.global_properties = props;
                assert(self.properties() =~= old_props.update(i as int, (key@, value@)));
            },
            None => {
                self.global_properties.push((owned(key), value));
                assert(self.properties() =~= old_props.push((key@, value@)));
            },
        }
    }

    /// The value of a global property, if its key was set.
    pub fn get_global_property(&self, key: &str) -> (r: Option<&str>)
        ensures
            match (r, property_of(self.properties(), key@)) {
                (Some(v), Some(w)) => v@ == w,
                (None, None) => true,
                _ => false,
            },
    {
        let ghost keys = self.properties().map_values(|p: (Seq<char>, Seq<char>)| p.0);
        assert(keys =~= self.global_properties@.map_values(|p: (String, String)| p.0@));
        match find_property(&self.global_properties, key) {
            Some(i) => Some(self.global_properties[i].1.as_str()),
            None => None,
        }
    }

    /// Adds `value` to the named method metric, where metrics are set.
    pub fn add_to_method_metric(&mut self, name: &str, value: i64)
        requires
            old(self).metrics() matches Some(m) ==> (m.recording() ==> i64::MIN <= m.metric(name@) + value <= i64::MAX),
        ensures
            match (old(self).metrics(), final(self).metrics()) {
                (Some(a), Some(b)) => (a.recording() ==> b.metric(name@) == a.metric(name@) + value)
                    && (!a.recording() ==> b.entries() == a.entries())
                    && forall|n: Seq<char>| n != name@ ==> b.metric(n) == a.metric(n),
                (None, None) => true,
                _ => false,
            },
            final(self).counters_view() == old(self).counters_view(),
            final(self).handler_view() == old(self).handler_view(),
    {
        match self.method_metrics.take() {
            Some(mut m) => {
                m.add_to_metric(name, value);
                self.method_metrics = Some(m);
            },
            None => {},
        }
    }

    /// Adds one to the named method metric, where metrics are set.
    pub fn increment_method_metric(&mut self, name: &str)
        requires
            old(self).metrics() matches Some(m) ==> (m.recording() ==> m.metric(name@) + 1 <= i64::MAX),
        ensures
            match (old(self).metrics(), final(self).metrics()) {
                (Some(a), Some(b)) => (a.recording() ==> b.metric(name@) == a.metric(name@) + 1)
                    && forall|n: Seq<char>| n != name@ ==> b.metric(n) == a.metric(n),
                (None, None) => true,
                _ => false,
            },
    {
        self.add_to_method_metric(name, 1);
    }

    /// The handler, which holds the configuration.
    pub fn get_config(&self) -> (r: &DebugHandler)
        ensures
            *r == self.handler_view(),
    {
        &self.handler
    }

    /// The values as CSV: a `name;value` header, then one line per counter,
    /// timer (its time so far) and memory tracker, in that order.
    pub fn to_csv(&self) -> (r: String)
        ensures
            exists|tv: Seq<u64>| #[trigger] self.timer_readings(tv) && r@ == self.csv_with(tv),
    {
        let mut csv = owned("name;value");
        let ghost cs = self.counters_view().map_values(|c: (Seq<char>, i64, bool)| (c.0, c.1));
        let mut i: usize = 0;
        while i < self.counters.len()
            invariant
                i <= self.counters@.len(),
                cs == self.counters_view().map_values(|c: (Seq<char>, i64, bool)| (c.0, c.1)),
                csv@ == "name;value"@ + signed_lines(cs.take(i as int)),
            decreases self.counters.len() - i,
        {
            push_char(&mut csv, '\n');
            push_text(&mut csv, self.counters[i].name.as_str());
            push_char(&mut csv, ';');
            push_signed_decimal(&mut csv, self.counters[i].get_current_value());
            assert(cs.take(i + 1).drop_last() =~= cs.take(i as int));
            i = i + 1;
        }
        assert(cs.take(self.counters@.len() as int) =~= cs);
        let ghost head = csv@;
        let ghost mut tv: Seq<u64> = Seq::empty();
        let mut j: usize = 0;
        while j < self.timers.len()
            invariant
                j <= self.timers@.len(),
                tv.len() == j,
                forall|k: int| 0 <= k < j && !self.timers_view()[k].3 ==> tv[k] == self.timers_view()[k].1,
                csv@ == head + unsigned_lines(Seq::new(tv.len(), |k: int| (self.timers_view()[k].0, tv[k]))),
            decreases self.timers.len() - j,
        {
            let v = self.timers[j].get_current_value();
            push_char(&mut csv, '\n');
            push_text(&mut csv, self.timers[j].name.as_str());
            push_char(&mut csv, ';');
            push_decimal(&mut csv, v);
            proof {
                let old_tv = tv;
                tv = tv.push(v);
                assert(Seq::new(tv.len(), |k: int| (self.timers_view()[k].0, tv[k])).drop_last()
                    =~= Seq::new(old_tv.len(), |k: int| (self.timers_view()[k].0, old_tv[k])));
            }
            j = j + 1;
        }
        let ghost middle = csv@;
        let ghost ts = self.trackers_view().map_values(|t: (Seq<char>, i64, i64, bool, bool)| (t.0, t.1));
        let mut k: usize = 0;
        while k < self.mem_use_trackers.len()
            invariant
                k <= self.mem_use_trackers@.len(),
                ts == self.trackers_view().map_values(|t: (Seq<char>, i64, i64, bool, bool)| (t.0, t.1)),
                csv@ == middle + signed_lines(ts.take(k as int)),
            decreases self.mem_use_trackers.len() - k,
        {
            push_char(&mut csv, '\n');
            push_text(&mut csv, self.mem_use_trackers[k].name.as_str());
            push_char(&mut csv, ';');
            push_signed_decimal(&mut csv, self.mem_use_trackers[k].get_current_value());
            assert(ts.take(k + 1).drop_last() =~= ts.take(k as int));
            k = k + 1;
        }
        assert(ts.take(self.mem_use_trackers@.len() as int) =~= ts);
        assert(self.timer_readings(tv));
        csv
    }
}

} // verus!
