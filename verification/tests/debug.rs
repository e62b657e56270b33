use rustci::debug::assertions::{AssertionError, Assertions};
use rustci::debug::counter_key::{CounterKey, TimerKey};
use rustci::debug::csv_util::CsvUtil;
use rustci::debug::debug_closeable::{DebugCloseable, DebugCloseableGuard, NoopCloseable};
use rustci::debug::debug_context::DebugContext;
use rustci::debug::debug_counter::DebugCounter;
use rustci::debug::debug_filter::DebugFilter;
use rustci::debug::debug_mem_use_tracker::DebugMemUseTracker;
use rustci::debug::debug_method_metrics::DebugMethodMetrics;
use rustci::debug::debug_options::{parse_i64, DebugOptions};
use rustci::debug::debug_timer::DebugTimer;
use rustci::debug::diagnostics_output_directory::DiagnosticsOutputDirectory;
use rustci::debug::graal_error::GraalError;
use rustci::debug::indent::{indent_format, Indent};
use rustci::debug::key_registry::KeyRegistry;
use rustci::debug::log_stream::{LogStream, LogTarget};
use rustci::debug::mem_use_tracker_key::MemUseTrackerKey;
use rustci::debug::scope::Scope;
use rustci::debug::debug_config::{DebugConfig, DebugFilterTrait};
use rustci::debug::debug_dump_handler::{DebugDumpHandler, DebugVerifyHandler};
use rustci::text::fill_placeholders_exec;
use vstd::seq::Seq;

#[test]
fn csv_escape_cases() {
    assert_eq!(CsvUtil::escape(""), "\"\"");
    assert_eq!(CsvUtil::escape("plain"), "plain");
    assert_eq!(CsvUtil::escape("a;b"), "\"a;b\"");
    assert_eq!(CsvUtil::escape("x\"y"), "\"x\\\"y\"");
    assert_eq!(CsvUtil::escape("l1\nl2\\"), "\"l1\nl2\\\\\"");
    assert_eq!(CsvUtil::escape("back\\slash"), "back\\slash");
}

#[test]
fn csv_format_and_build() {
    assert_eq!(CsvUtil::format(&["a", "b;c", ""]), "a;\"b;c\";\"\"");
    assert_eq!(CsvUtil::format(&[]), "");
    assert_eq!(CsvUtil::build_format_string("{}-{}", &["x", "y;z"]), "x-\"y;z\"");
    assert_eq!(CsvUtil::build_format_string("only {}", &["a", "b"]), "only a");
    assert_eq!(CsvUtil::build_format_string("none", &["a"]), "none");
}

#[test]
fn placeholders_fill_in_turn() {
    assert_eq!(fill_placeholders_exec("{} and {}", &["a", "b"]), "a and b");
    assert_eq!(fill_placeholders_exec("{}", &["{}x", "y"]), "yx");
    assert_eq!(fill_placeholders_exec("no holes", &["a"]), "no holes");
}

#[test]
fn assertion_messages() {
    assert_eq!(Assertions::error_message("m"), "m");
    assert_eq!(Assertions::error_message_context("p", "m"), "p: m");
    Assertions::assert_true(true, "fine");
    Assertions::assert_false(false, "fine");
    let x = 3;
    Assertions::assert_not_null(Some(&x), "present");
    Assertions::assert_null::<i32>(None, "absent");
    assert_eq!(AssertionError::new("boom".to_string()).message(), "boom");
}

#[test]
fn counter_counts_only_when_enabled() {
    let mut c = DebugCounter::new("c".to_string());
    c.increment();
    assert_eq!(c.get_current_value(), 0);
    c.set_enabled(true);
    c.increment();
    c.add(5);
    c.decrement();
    assert_eq!(c.get_current_value(), 5);
    c.set(i64::MAX);
    c.increment();
    assert_eq!(c.get_current_value(), i64::MIN);
    c.reset();
    assert_eq!(c.get_current_value(), 0);
    assert_eq!(c.get_name(), "c");
}

#[test]
fn timer_measures_when_enabled() {
    let mut t = DebugTimer::new("t".to_string());
    t.start();
    assert!(t.start.is_none());
    t.set_enabled(true);
    t.start();
    assert!(t.start.is_some());
    t.stop();
    assert!(t.start.is_none());
    let v = t.get_current_value();
    assert_eq!(v, t.time);
    t.reset();
    assert_eq!(t.get_current_value(), 0);
}

#[test]
fn mem_tracker_adds_interval() {
    let mut m = DebugMemUseTracker::new("m".to_string());
    m.start(100);
    m.stop(250);
    assert_eq!(m.get_current_value(), 0);
    m.set_enabled(true);
    m.start(100);
    m.stop(250);
    m.start(10);
    m.stop(15);
    assert_eq!(m.get_current_value(), 155);
    m.reset();
    assert_eq!(m.get_current_value(), 0);
}

#[test]
fn registry_gives_indices_once() {
    let mut r = KeyRegistry::new();
    assert_eq!(r.register("a", "doc a"), 0);
    assert_eq!(r.register("b", "doc b"), 1);
    assert_eq!(r.register("a", "other"), 0);
    assert_eq!(r.size(), 2);
    assert_eq!(r.get("a").unwrap().doc, "doc a");
    assert_eq!(r.get_by_index(1).unwrap().name, "b");
    assert!(r.get_by_index(2).is_none());
    let names: Vec<&str> = r.all_keys().iter().map(|k| k.name.as_str()).collect();
    assert_eq!(names, vec!["a", "b"]);
    let key = MemUseTrackerKey::new("c".to_string(), "doc c".to_string(), &mut r);
    assert_eq!(key.get_index(), 2);
    let same = MemUseTrackerKey::new("c".to_string(), "again".to_string(), &mut r);
    assert_eq!(same.get_index(), 2);
    assert!(key == same);
    r.clear();
    assert_eq!(r.size(), 0);
}

#[test]
fn option_parsing() {
    assert_eq!(parse_i64("+42"), Some(42));
    assert_eq!(parse_i64("-9223372036854775808"), Some(i64::MIN));
    assert_eq!(parse_i64("9223372036854775807"), Some(i64::MAX));
    assert_eq!(parse_i64("9223372036854775808"), None);
    assert_eq!(parse_i64(""), None);
    assert_eq!(parse_i64("-"), None);
    assert_eq!(parse_i64("12a"), None);
    assert_eq!(parse_i64("007"), Some(7));
    assert_eq!(DebugOptions::int_value_of(Some("x"), 9), 9);
    assert_eq!(DebugOptions::int_value_of(None, 9), 9);
    assert!(DebugOptions::bool_value_of(Some("True"), false));
    assert!(!DebugOptions::bool_value_of(Some("yes"), true));
    assert!(DebugOptions::bool_value_of(None, true));
    assert_eq!(DebugOptions::string_value_of(None, "d"), "d");
    assert_eq!(DebugOptions::LOG, "Log");
}

#[test]
fn filter_patterns() {
    let f = DebugFilter::new("~foo*bar".to_string());
    assert!(f.is_exclude());
    assert_eq!(f.get_filter(), "foo*bar");
    assert!(f.matches_pattern("xxfooyybarzz"));
    assert!(!f.matches_pattern("barfoo"));
    assert!(!f.selects_name(Some("fooXbar")));
    assert!(f.selects_name(Some("nothing")));
    assert!(!f.selects_name(None));
    let all = DebugFilter::default();
    assert!(all.matches_pattern("anything"));
    let trailing = DebugFilter::new("a*".to_string());
    assert!(trailing.matches_pattern("ba"));
    assert!(!trailing.matches_pattern("bc"));
    let plain = DebugFilter::new("Str".to_string());
    assert!(plain.selects_name(Some("java.lang.String")));
    assert!(DebugFilter::new(String::new()).matches_pattern("x"));
}

#[test]
fn indentation_texts() {
    let mut i = Indent::new();
    assert_eq!(i.to_string(), "");
    assert_eq!(i.indent(), 0);
    assert_eq!(i.to_string(), "  ");
    assert_eq!(indent_format(&i, "a\nb"), "  a\n  b");
    assert_eq!(indent_format(&i, "a\r\nb\n"), "  a\n  b");
    assert_eq!(indent_format(&i, ""), "");
    let g = i.scoped_indent();
    assert_eq!(i.get_level(), 2);
    g.close(&mut i);
    assert_eq!(i.get_level(), 1);
    i.outdent();
    i.outdent();
    assert_eq!(i.get_level(), 0);
    let plain = Indent::default();
    assert_eq!(indent_format(&plain, "\nx"), "x");
    let mut dashes = Indent::with_indent_str("-".to_string());
    dashes.indent();
    dashes.indent();
    assert_eq!(dashes.to_string(), "--");
    dashes.reset();
    assert_eq!(dashes.get_level(), 0);
}

#[test]
fn scope_names_nest() {
    let s = Scope::child("c".to_string(), Scope::child("b".to_string(), Scope::new("a".to_string())));
    assert_eq!(s.get_qualified_name(), "a.b.c");
    assert_eq!(s.get_parent().unwrap().get_name(), "b");
    let mut with = Scope::with_indent("w".to_string(), Indent::new());
    with.indent();
    assert_eq!(with.get_indent().unwrap().get_level(), 1);
    with.close();
    assert!(with.is_closed());
    assert_eq!(with.get_indent().unwrap().get_level(), 0);
}

#[test]
fn graal_error_texts() {
    assert_eq!(GraalError::should_not_reach_here().message(), "should not reach here");
    assert_eq!(GraalError::should_not_reach_here_msg("x").message(), "should not reach here: x");
    assert_eq!(GraalError::unimplemented_msg("y").message(), "unimplemented: y");
    assert_eq!(GraalError::unimplemented_override().message(), "unimplemented override");
    assert!(GraalError::guarantee(true, "ok").is_ok());
    assert_eq!(GraalError::guarantee(false, "x").unwrap_err().message(), "guarantee failed: x");
    let e = GraalError::with_cause("m".to_string(), "c".to_string());
    assert_eq!(e.to_string(), "m\nCaused by: c");
    assert_eq!(e.cause(), Some("c"));
    let mut n = GraalError::unimplemented();
    assert!(n.should_print_stack_trace());
    n.set_print_stack_trace(false);
    assert!(!n.should_print_stack_trace());
    assert_eq!(GraalError::should_not_reach_here_cause("z".to_string()).cause(), Some("z"));
}

#[test]
fn output_paths() {
    let d = DiagnosticsOutputDirectory::new("/tmp".to_string());
    assert_eq!(d.resolve("f"), "/tmp/f");
    assert_eq!(d.resolve("/abs"), "/abs");
    assert_eq!(d.create_dump_file("1", "g", "bgv"), "/tmp/1_g.bgv");
    assert_eq!(DiagnosticsOutputDirectory::new("/tmp/".to_string()).resolve("f"), "/tmp/f");
    assert_eq!(DiagnosticsOutputDirectory::new(String::new()).resolve("f"), "f");
    assert_eq!(d.to_string(), "/tmp");
    assert_eq!(d.get_output_directory(), "/tmp");
}

#[test]
fn metrics_in_name_order() {
    let mut m = DebugMethodMetrics::new("m".to_string(), "7".to_string());
    m.add_to_metric("b", 2);
    m.add_to_metric("a", 1);
    m.increment_metric("b");
    assert_eq!(m.get_metric_names(), vec!["a", "b"]);
    assert_eq!(m.get_metric("b"), 3);
    assert_eq!(m.get_metric("zz"), 0);
    assert_eq!(m.to_csv(), "m;7;1;3");
    m.set_metric("a", -4);
    assert_eq!(m.to_csv(), "m;7;-4;3");
    m.set_enabled(false);
    m.add_to_metric("c", 1);
    assert_eq!(m.get_metric("c"), 0);
    let copy = m.clone();
    assert_eq!(copy.to_csv(), "m;7;-4;3");
    m.clear();
    assert_eq!(m.to_csv(), "m;7");
}

#[test]
fn log_stream_indents() {
    let mut s = LogStream::sys_out();
    s.indent();
    s.println_indented("x");
    s.printf("{}={}", &["k", "v"]);
    s.println_empty();
    s.unindent();
    s.unindent();
    s.print_indented("y");
    assert_eq!(s.take_output(), "  x\nk=v\ny");
    assert_eq!(s.take_output(), "");
}

#[test]
fn debug_context_scopes_and_counters() {
    let mut ctx = DebugContext::disabled();
    assert!(!ctx.is_log_enabled());
    assert!(ctx.get_description().is_none());
    let first = ctx.scope("a");
    assert!(first.get_parent().is_none());
    let second = ctx.scope("b");
    assert_eq!(second.get_qualified_name(), "a.b");
    assert_eq!(ctx.get_current_scope().unwrap().get_name(), "b");
    ctx.increment(&CounterKey::new("ignored".to_string()));
    ctx.count("c", 3);
    ctx.count("c", 2);
    ctx.count("d", 1);
    ctx.start_timer(&TimerKey::new("t".to_string()));
    assert_eq!(ctx.to_csv(), "name;value\nc;5\nd;1");
    ctx.log("nothing");
    assert_eq!(ctx.get_dump_level(), 0);
    assert!(ctx.verify("obj", "n").is_none());
    let scoped = ctx.scopev("s{}", &["1"]);
    assert_eq!(scoped.get_name(), "s1");
    ctx.set_method_metrics(DebugMethodMetrics::new("m".to_string(), "1".to_string()));
    ctx.increment_method_metric("x");
    assert_eq!(ctx.get_method_metrics().unwrap().get_metric("x"), 1);
}

#[test]
fn closeables() {
    let mut n = NoopCloseable;
    n.close();
    let g = DebugCloseableGuard::new(NoopCloseable);
    g.close();
}

#[test]
fn context_builder_keeps_description() {
    let ctx = DebugContext::builder().description("desc".to_string()).build();
    assert_eq!(ctx.get_description(), Some("desc"));
    assert!(ctx.get_method_context().is_none());
}

#[test]
fn global_property_reads_back_last_value() {
    let mut ctx = DebugContext::disabled();
    assert_eq!(ctx.get_global_property("phase"), None);
    ctx.set_global_property("phase", "parse".to_string());
    ctx.set_global_property("tier", "1".to_string());
    assert_eq!(ctx.get_global_property("phase"), Some("parse"));
    ctx.set_global_property("phase", "lower".to_string());
    assert_eq!(ctx.get_global_property("phase"), Some("lower"));
    assert_eq!(ctx.get_global_property("tier"), Some("1"));
    assert_eq!(ctx.get_global_property("missing"), None);
}

#[test]
fn log_stream_reports_its_target() {
    let mut stream = LogStream::new(LogTarget::Buffer);
    assert_eq!(stream.target(), LogTarget::Buffer);
    assert!(!stream.is_auto_flush());
    stream.set_auto_flush(true);
    assert!(stream.is_auto_flush());
    assert_eq!(LogStream::sys_err().target(), LogTarget::StdErr);
}

#[test]
fn timer_stop_after_adds_the_interval() {
    let mut t = DebugTimer::new("t".to_string());
    t.set_enabled(true);
    t.start();
    assert_eq!(t.current_value_after(250), 250);
    t.stop_after(250);
    assert_eq!(t.get_current_value(), 250);
    t.stop_after(1000);
    assert_eq!(t.get_current_value(), 250);
    t.time = u64::MAX;
    t.start();
    t.stop_after(2);
    assert_eq!(t.get_current_value(), 1);
}

#[test]
fn disabled_context_records_no_metrics() {
    let mut ctx = DebugContext::disabled();
    assert!(!ctx.is_count_enabled());
    assert!(!ctx.is_time_enabled());
    assert!(!ctx.is_mem_use_tracking_enabled());
    assert!(!ctx.is_log_enabled());
    assert!(!ctx.is_dump_enabled());
    assert!(!ctx.is_verify_enabled());
    let k = CounterKey::new("c".to_string());
    ctx.increment(&k);
    ctx.add_to_counter(&k, 5);
    let t = TimerKey::new("t".to_string());
    ctx.start_timer(&t);
    ctx.stop_timer_after(&t, 10);
    assert_eq!(ctx.to_csv(), "name;value");
}

#[test]
fn built_context_without_config_has_everything_off() {
    let ctx = DebugContext::builder().description("d".to_string()).build();
    assert!(!ctx.is_count_enabled() && !ctx.is_log_enabled() && !ctx.is_verify_enabled());
    assert_eq!(ctx.get_description(), Some("d"));
    assert_eq!(ctx.to_csv(), "name;value");
}

struct CountingConfig;

impl DebugConfig for CountingConfig {
    // Specification functions: they describe the configuration to the
    // verifier and are never called when the program runs.
    fn verifiers(&self) -> Seq<Box<dyn DebugVerifyHandler>> {
        unreachable!()
    }
    fn dump_on(&self) -> bool {
        false
    }
    fn log_on(&self) -> bool {
        false
    }
    fn count_on(&self) -> bool {
        true
    }
    fn time_on(&self) -> bool {
        false
    }
    fn tracking_on(&self) -> bool {
        false
    }
    fn verify_on(&self) -> bool {
        false
    }

    fn get_debug_filter(&self) -> Option<&dyn DebugFilterTrait> {
        None
    }
    fn dump_handlers(&self) -> &[Box<dyn DebugDumpHandler>] {
        &[]
    }
    fn verify_handlers(&self) -> &[Box<dyn DebugVerifyHandler>] {
        &[]
    }
    fn get_diagnostics_output_directory(&self) -> Option<String> {
        None
    }
    fn is_dump_enabled(&self) -> bool {
        false
    }
    fn is_log_enabled(&self) -> bool {
        false
    }
    fn is_count_enabled(&self) -> bool {
        true
    }
    fn is_time_enabled(&self) -> bool {
        false
    }
    fn is_mem_use_tracking_enabled(&self) -> bool {
        false
    }
    fn is_verify_enabled(&self) -> bool {
        false
    }
    fn is_method_meter_enabled(&self) -> bool {
        false
    }
}

#[test]
fn counting_context_sums_increments_and_adds() {
    let mut ctx = DebugContext::builder().config(Box::new(CountingConfig)).build();
    assert!(ctx.is_count_enabled());
    assert!(!ctx.is_time_enabled());
    let k = CounterKey::new("hits".to_string());
    ctx.increment(&k);
    ctx.increment(&k);
    ctx.increment(&k);
    ctx.add_to_counter(&k, 4);
    assert_eq!(ctx.to_csv(), "name;value\nhits;7");
}

#[test]
fn registry_indices_follow_registration() {
    let mut r = KeyRegistry::new();
    assert_eq!(r.register("a", "1"), 0);
    assert_eq!(r.register("b", "2"), 1);
    assert_eq!(r.register("a", "3"), 0);
    assert_eq!(r.register("c", "4"), 2);
    let indices: Vec<usize> = r.all_keys().iter().map(|k| k.index).collect();
    assert_eq!(indices, vec![0, 1, 2]);
}

#[test]
fn builder_without_description_has_everything_off() {
    let ctx = DebugContext::builder().build();
    assert!(!ctx.is_log_enabled());
    assert!(!ctx.is_dump_enabled());
    assert!(!ctx.is_count_enabled());
    assert!(!ctx.is_time_enabled());
    assert!(!ctx.is_mem_use_tracking_enabled());
    assert!(!ctx.is_verify_enabled());
    assert_eq!(ctx.get_description(), None);
    assert_eq!(ctx.get_dump_level(), 0);
    assert!(ctx.get_current_scope().is_none());
    assert_eq!(ctx.to_csv(), "name;value");
}

struct Method(Option<String>);

impl rustci::debug::java_method_context::JavaMethodContext for Method {
    // Specification function: it describes the method to the verifier and is
    // never called when the program runs.
    fn method_name(&self) -> Option<Seq<char>> {
        unreachable!()
    }
    fn as_java_method(&self) -> Option<&str> {
        self.0.as_deref()
    }
}

#[test]
fn negated_filter_selects_the_rejected_methods() {
    let plain = DebugFilter::new("foo*".to_string());
    let negated = DebugFilter::new("~foo*".to_string());
    let hit = Method(Some("foobar".to_string()));
    let miss = Method(Some("bar".to_string()));
    let none = Method(None);
    assert!(plain.match_context(&hit));
    assert!(!negated.match_context(&hit));
    assert!(!plain.match_context(&miss));
    assert!(negated.match_context(&miss));
    assert!(!plain.match_context(&none));
    assert!(!negated.match_context(&none));
    assert!(negated.match_method(&miss));
    assert!(!negated.match_method(&hit));
}
