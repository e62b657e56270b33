use rustci::compiler_core::compilation_printer::{CompilationPrinter, CompilationSource, CsvState};
use rustci::compiler_core::compilation_watch_dog::{
    CompilationIdentifier, CompilationWatchDog, DefaultEventHandler, STUCK_COMPILATION_EXIT_CODE,
};
use rustci::compiler_core::compilation_wrapper::{
    CompilationFailure, CompilationWrapper, CompilationWrapperCallback, ExceptionAction,
};
use rustci::compiler_core::compiler_thread::CompilerThread;
use rustci::compiler_core::compiler_thread_factory::{CompilerThreadFactory, ThreadFactory};
use rustci::compiler_core::graal_compiler::{
    CompilationRequest, CompilationResult, DefaultCrashHandler, GraalCompiler, RequestedCrashHandler,
};
use rustci::compiler_core::graal_compiler_options::GraalCompilerOptions;
use rustci::compiler_core::lir_generation_phase::{LIRGenerationContext, LIRGenerationPhase};
use vstd::seq::Seq;
use rustci::compiler_core::phases::{
    CEOptimization, CommunityCompilerConfiguration, CompilerConfiguration, EconomyCompilerConfiguration,
    EconomyMarkFixReadsPhase, HighTier, HighTierContext, LowTier, MidTier, Phase, PhaseSuite,
};

struct TestCallback;

impl CompilationWrapperCallback<String> for TestCallback {
    // Specification functions: they describe the callback to the verifier
    // and are never called when the program runs.
    fn compilation(&self) -> Result<String, Seq<char>> {
        unreachable!()
    }

    fn handled(&self, _cause: Seq<char>) -> String {
        unreachable!()
    }

    fn perform_compilation(&self) -> Result<String, String> {
        Ok("success".to_string())
    }

    fn to_string(&self) -> String {
        "TestCallback".to_string()
    }

    fn handle_exception(&self, cause: &str) -> String {
        format!("handled: {}", cause)
    }
}

struct FailingCallback;

impl CompilationWrapperCallback<String> for FailingCallback {
    // Specification functions: they describe the callback to the verifier
    // and are never called when the program runs.
    fn compilation(&self) -> Result<String, Seq<char>> {
        unreachable!()
    }

    fn handled(&self, _cause: Seq<char>) -> String {
        unreachable!()
    }

    fn perform_compilation(&self) -> Result<String, String> {
        Err("boom".to_string())
    }

    fn to_string(&self) -> String {
        "FailingCallback".to_string()
    }

    fn handle_exception(&self, cause: &str) -> String {
        format!("handled: {}", cause)
    }
}

struct RefusingHandler;

impl RequestedCrashHandler for RefusingHandler {
    fn notify_crash(&self, _crash_message: &str) -> bool {
        false
    }
}

#[test]
fn test_disabled_printer() {
    let printer = CompilationPrinter::disabled();
    assert!(printer.is_disabled());
}

#[test]
fn test_begin_disabled() {
    let id = CompilationIdentifier::new("test");
    let source = CompilationSource::java_method("Test", "foo", "()V");
    let printer = CompilationPrinter::begin(id, source, 0, false, false);
    assert!(printer.is_none());
}

#[test]
fn test_begin_enabled() {
    let id = CompilationIdentifier::new("test");
    let source = CompilationSource::java_method("Test", "foo", "()V");
    let printer = CompilationPrinter::begin(id, source, 0, true, false);
    assert!(printer.is_some());
}

#[test]
fn test_method_description() {
    let id = CompilationIdentifier::new("42");
    let source = CompilationSource::java_method("java/lang/String", "hashCode", "()I");
    let printer = CompilationPrinter {
        id,
        source,
        entry_bci: CompilationPrinter::INVOCATION_ENTRY_BCI,
        print_tty: true,
        begin_wall_time: 0,
        begin_thread_time: None,
        begin_allocated_bytes: None,
        sentinel: false,
    };
    let desc = printer.get_method_description();
    assert!(desc.contains("hashCode"));
    assert!(desc.contains("java/lang/String"));
}

#[test]
fn test_finish_does_not_panic() {
    let id = CompilationIdentifier::new("test");
    let source = CompilationSource::java_method("Test", "foo", "()V");
    let printer = CompilationPrinter::begin(id, source, 0, true, false).unwrap();
    printer.finish(100, 50, 0x1000, 100, 20);
}

#[test]
fn test_printing_to_csv() {
    assert!(!CompilationPrinter::printing_to_csv());
}

#[test]
fn test_watch_dog_disabled() {
    let id = CompilationIdentifier::new("test");
    let wd = CompilationWatchDog::watch(id, 0, 0);
    assert!(wd.is_none());
}

#[test]
fn test_watch_dog_enabled() {
    let id = CompilationIdentifier::new("test");
    let wd = CompilationWatchDog::watch(id, 10, 5);
    assert!(wd.is_some());
    let wd = wd.unwrap();
    assert_eq!(wd.start_delay_secs, 10);
    assert_eq!(wd.vm_exit_delay_secs, 5);
}

#[test]
fn test_watch_dog_full() {
    let id = CompilationIdentifier::new("test");
    let wd = CompilationWatchDog::watch_full(id, 10, 5, true);
    assert!(wd.is_some());
    let wd = wd.unwrap();
    assert!(wd.debug);
    assert_eq!(wd.vm_exit_delay_ns, 5_000_000_000);
}

#[test]
fn test_watch_dog_to_string() {
    let id = CompilationIdentifier::new("test");
    let mut wd = CompilationWatchDog::watch(id, 10, 5).unwrap();
    wd.watched_thread_name = Some("compiler-1".to_string());
    assert_eq!(wd.to_string(), "WatchDog[compiler-1]");
}

#[test]
fn test_watch_dog_run_and_close() {
    let id = CompilationIdentifier::new("test");
    let mut wd = CompilationWatchDog::watch(id, 10, 5).unwrap();
    let handler = DefaultEventHandler;
    wd.run(&handler);
    assert!(!wd.running); // After one iteration, it breaks
    wd.close();
    assert!(!wd.running);
}

#[test]
fn test_compilation_identifier() {
    let id = CompilationIdentifier::new("my_compilation");
    assert_eq!(id.id, "my_compilation");
}

#[test]
fn test_exception_action_quieter() {
    assert_eq!(ExceptionAction::Silent.quieter(), ExceptionAction::Silent);
    assert_eq!(ExceptionAction::Print.quieter(), ExceptionAction::Silent);
    assert_eq!(ExceptionAction::Diagnose.quieter(), ExceptionAction::Print);
    assert_eq!(ExceptionAction::ExitVM.quieter(), ExceptionAction::Diagnose);
}

#[test]
fn test_exception_action_ordering() {
    assert!(ExceptionAction::Silent < ExceptionAction::Print);
    assert!(ExceptionAction::Print < ExceptionAction::Diagnose);
    assert!(ExceptionAction::Diagnose < ExceptionAction::ExitVM);
}

#[test]
fn test_compilation_wrapper_run_success() {
    let cb = TestCallback;
    let wrapper = CompilationWrapper::new("/tmp/dumps".to_string(), cb);
    let result = wrapper.run();
    assert!(result.is_ok());
    assert_eq!(result.unwrap(), "success");
}

#[test]
fn test_compilation_failure_new() {
    let failure = CompilationFailure::new("test error".to_string(), true);
    assert_eq!(failure.cause, "test error");
    assert!(failure.debug);
    let result = failure.handle(false);
    assert!(result.contains("test error"));
}

#[test]
fn test_compilation_failure_silent() {
    let failure = CompilationFailure::new("test error".to_string(), true);
    let result = failure.handle(true);
    assert!(result.contains("Silent"));
}

#[test]
fn test_lookup_action() {
    let cb = TestCallback;
    let wrapper = CompilationWrapper::new("/tmp/dumps".to_string(), cb);
    let action = wrapper.lookup_action("test error");
    assert_eq!(action, ExceptionAction::Print);
}

#[test]
fn test_compiler_thread_new() {
    let thread = CompilerThread::new("CompilerThread");
    assert_eq!(thread.name_prefix, "CompilerThread");
    assert!(thread.is_daemon);
    assert_eq!(thread.priority, CompilerThread::MAX_PRIORITY);
}

#[test]
fn test_compiler_thread_with_runnable() {
    let thread = CompilerThread::with_runnable("CompilerThread", 42);
    assert_eq!(thread.thread_name, "CompilerThread-42");
    assert_eq!(thread.thread_id, 42);
}

#[test]
fn test_compiler_thread_run() {
    let mut thread = CompilerThread::new("CompilerThread");
    assert!(!thread.is_running());
    thread.run();
    assert!(thread.is_running());
}

#[test]
fn test_compiler_thread_factory_new() {
    let factory = CompilerThreadFactory::new("GraalCompiler");
    assert_eq!(factory.thread_name_prefix, "GraalCompiler");
}

#[test]
fn test_thread_factory_trait() {
    let factory = CompilerThreadFactory::new("GraalCompiler");
    let thread = factory.new_thread();
    assert_eq!(thread.name_prefix, "GraalCompiler");
}

#[test]
fn test_new_thread_with_id() {
    let mut factory = CompilerThreadFactory::new("GraalCompiler");
    let thread1 = factory.new_thread_with_id();
    assert_eq!(thread1.thread_id, 0);
    let thread2 = factory.new_thread_with_id();
    assert_eq!(thread2.thread_id, 1);
}

#[test]
fn test_compile() {
    let id = CompilationIdentifier::new("1");
    let source = CompilationSource::java_method("Test", "foo", "()V");
    let request = CompilationRequest::new(id, source, -1, false);
    let result = request.execute();
    assert_eq!(
        result.get_target_code_size(),
        CompilationResult::UNKNOWN_TARGET_CODE_SIZE
    );
}

#[test]
fn test_compile_with_tiers() {
    let id = CompilationIdentifier::new("2");
    let source = CompilationSource::java_method("Test", "bar", "(I)I");
    let request = CompilationRequest::with_tiers(
        id,
        source,
        -1,
        false,
        HighTier::new(),
        MidTier::new(),
        LowTier::new(),
        false,
    );
    let result = request.execute();
    assert_eq!(result.bytecode_size, 0);
}

#[test]
fn test_crash_at_no_match() {
    let result = GraalCompiler::check_for_requested_crash(Some("Foo.bar"), "Test.foo", None);
    assert!(result.is_ok());
}

#[test]
fn test_crash_at_match() {
    let result = GraalCompiler::check_for_requested_crash(Some("Test.foo"), "Test.foo", None);
    assert!(result.is_err());
}

#[test]
fn test_crash_at_bailout() {
    let result =
        GraalCompiler::check_for_requested_crash(Some("Test.foo:Bailout"), "Test.foo", None);
    assert!(result.is_err());
    let err = result.unwrap_err();
    assert!(err.contains("RetryableBailout"));
}

#[test]
fn test_crash_at_permanent_bailout() {
    let result = GraalCompiler::check_for_requested_crash(
        Some("Test.foo:PermanentBailout"),
        "Test.foo",
        None,
    );
    assert!(result.is_err());
    let err = result.unwrap_err();
    assert!(err.contains("PermanentBailout"));
}

#[test]
fn test_crash_at_none() {
    let result = GraalCompiler::check_for_requested_crash(None, "Test.foo", None);
    assert!(result.is_ok());
}

#[test]
fn test_compilation_result() {
    let id = CompilationIdentifier::new("42");
    let source = CompilationSource::java_method("Test", "bar", "(I)I");
    let result = CompilationResult::new(id, source);
    assert_eq!(result.target_code_size, -1);
    assert_eq!(result.bytecode_size, 0);
}

#[test]
fn test_lir_generation_phase() {
    let ctx = LIRGenerationContext::new("test_graph", 42);
    let mut phase = LIRGenerationPhase::new();
    phase.run(&ctx, 10);
    assert_eq!(phase.instruction_count, 10);
    assert_eq!(phase.final_node_count, 42);
}

#[test]
fn test_lir_generation_context() {
    let ctx = LIRGenerationContext::new("my_graph", 100);
    assert_eq!(ctx.graph_name, "my_graph");
    assert_eq!(ctx.node_count, 100);
}

#[test]
fn test_phase_suite_empty() {
    let suite: PhaseSuite<HighTierContext> = PhaseSuite::new();
    assert_eq!(suite.get_phases().len(), 0);
}

#[test]
fn test_phase_suite_append() {
    let mut suite: PhaseSuite<HighTierContext> = PhaseSuite::new();
    suite.append_phase(Box::new(EconomyMarkFixReadsPhase));
    assert_eq!(suite.get_phases().len(), 1);
}

#[test]
fn test_ce_optimization_names() {
    assert_eq!(CEOptimization::Canonicalization.name(), "Canonicalization");
    assert_eq!(CEOptimization::Inlining.name(), "Inlining");
    assert_eq!(
        CEOptimization::PartialEscapeAnalysis.name(),
        "PartialEscapeAnalysis"
    );
}

#[test]
fn test_community_compiler_configuration() {
    let config = CommunityCompilerConfiguration;
    let _high = config.create_high_tier();
    let _mid = config.create_mid_tier();
    let _low = config.create_low_tier();
}

#[test]
fn test_economy_compiler_configuration() {
    let config = EconomyCompilerConfiguration;
    let _high = config.create_high_tier();
    let _mid = config.create_mid_tier();
    let _low = config.create_low_tier();
}

#[test]
fn test_economy_mark_fix_reads_singleton() {
    let phase = EconomyMarkFixReadsPhase::SINGLETON;
    phase.apply(&HighTierContext);
}

#[test]
fn test_tier_new() {
    let high = HighTier::new();
    let mid = MidTier::new();
    let low = LowTier::new();
    assert_eq!(high.base.get_phases().len(), 0);
    assert_eq!(mid.base.get_phases().len(), 0);
    assert_eq!(low.base.get_phases().len(), 0);
}

#[test]
fn watch_dog_without_thread_name_is_unknown() {
    let wd = CompilationWatchDog::watch(CompilationIdentifier::new("x"), 1, 0).unwrap();
    assert_eq!(wd.to_string(), "WatchDog[unknown]");
    assert_eq!(STUCK_COMPILATION_EXIT_CODE, 84);
}

#[test]
fn watch_dog_negative_start_delay_is_disabled() {
    assert!(CompilationWatchDog::watch_full(CompilationIdentifier::new("x"), -3, -1, false).is_none());
}

#[test]
fn compilation_identifier_clone_keeps_text() {
    let id = CompilationIdentifier::new("abc");
    assert_eq!(id.clone(), id);
}

#[test]
fn method_description_exact_columns() {
    let printer = CompilationPrinter::begin(
        CompilationIdentifier::new("7"),
        CompilationSource::java_method("C", "m", "()V"),
        5,
        true,
        false,
    )
    .unwrap();
    let expected = format!("{:30} {:70} {:45} {:50} {}", "7", "C", "m", "()V", "(OSR@5) ");
    assert_eq!(printer.get_method_description(), expected);
}

#[test]
fn method_description_of_stub() {
    let printer = CompilationPrinter::begin(
        CompilationIdentifier::new("9"),
        CompilationSource::foreign_call("stubName", "(J)V"),
        -1,
        false,
        true,
    )
    .unwrap();
    let expected = format!("{:30} {:70} {:45} {:50} {}", "9", "<stub>", "stubName", "(J)V", "");
    assert_eq!(printer.get_method_description(), expected);
    assert!(!printer.is_disabled());
}

#[test]
fn csv_state_starts_closed() {
    let s = CsvState::new();
    assert!(!s.is_open);
    assert!(s.filename.is_none());
    let d = CsvState::default();
    assert!(!d.is_open);
}

#[test]
fn wrapper_failure_is_handled_by_callback() {
    let wrapper = CompilationWrapper::new("/tmp/dumps".to_string(), FailingCallback);
    assert_eq!(wrapper.run(), Ok("handled: boom".to_string()));
    assert_eq!(wrapper.get_output_directory(), "/tmp/dumps");
    assert!(wrapper.get_problems_handled_per_action().is_empty());
    assert!(!wrapper.is_non_failure_bailout("x"));
}

#[test]
fn adjust_action_steps_down_used_up_actions() {
    let mut wrapper = CompilationWrapper::new("/tmp".to_string(), TestCallback);
    assert_eq!(wrapper.adjust_action(ExceptionAction::Diagnose, "c"), ExceptionAction::Diagnose);
    wrapper.problems_handled_per_action.insert(ExceptionAction::Diagnose.rank(), 5);
    wrapper.problems_handled_per_action.insert(ExceptionAction::Print.rank(), 7);
    assert_eq!(wrapper.adjust_action(ExceptionAction::Diagnose, "c"), ExceptionAction::Silent);
    assert_eq!(wrapper.adjust_action(ExceptionAction::ExitVM, "c"), ExceptionAction::ExitVM);
    wrapper.problems_handled_per_action.insert(ExceptionAction::Print.rank(), 4);
    assert_eq!(wrapper.adjust_action(ExceptionAction::Diagnose, "c"), ExceptionAction::Print);
    assert_eq!(wrapper.handle_failure("oops"), "handled: oops");
}

#[test]
fn failure_messages_are_exact() {
    let failure = CompilationFailure::new("e".to_string(), false);
    assert_eq!(failure.handle(true), "Silent failure: e");
    assert_eq!(failure.handle(false), "Compilation failure: e");
}

#[test]
fn thread_names_are_numbered() {
    let mut factory = CompilerThreadFactory::new("C");
    factory.thread_counter = 41;
    let t = factory.new_thread_with_id();
    assert_eq!(t.get_name(), "C-41");
    assert_eq!(factory.thread_counter, 42);
    assert_eq!(t.get_priority(), 10);
    assert!(t.is_daemon());
}

#[test]
fn crash_at_messages_are_exact() {
    assert_eq!(
        GraalCompiler::check_for_requested_crash(Some("foo"), "Test.foo", None),
        Err("RuntimeException: Forced crash after compiling Test.foo".to_string())
    );
    assert_eq!(
        GraalCompiler::check_for_requested_crash(Some("Test:PermanentBailout"), "Test.foo", None),
        Err("PermanentBailout: Forced crash after compiling Test.foo".to_string())
    );
    assert_eq!(
        GraalCompiler::check_for_requested_crash(Some(":Bailout"), "Test.foo", None),
        Err("RetryableBailout: Forced crash after compiling Test.foo".to_string())
    );
}

#[test]
fn crash_handler_can_refuse() {
    let refusing = RefusingHandler;
    assert!(GraalCompiler::check_for_requested_crash(Some("Test"), "Test.foo", Some(&refusing)).is_ok());
    let agreeing = DefaultCrashHandler;
    assert!(GraalCompiler::check_for_requested_crash(Some("Test"), "Test.foo", Some(&agreeing)).is_err());
    assert_eq!(GraalCompiler::requested_crash_outcome("Test", "Test.foo", false), Ok(()));
    assert!(GraalCompiler::requested_crash_outcome("Other", "Test.foo", true).is_ok());
}

#[test]
fn compile_keeps_request_identity() {
    let request = CompilationRequest::new(
        CompilationIdentifier::new("5"),
        CompilationSource::java_method("A", "b", "()V"),
        -1,
        true,
    );
    let result = GraalCompiler::compile(&request);
    assert_eq!(result.id.id, "5");
    assert_eq!(result.get_bytecode_size(), 0);
    assert_eq!(result.start_address, 0);
    assert_eq!(CompilationResult::UNKNOWN_TARGET_CODE_SIZE, -1);
}

#[test]
fn compiler_option_defaults() {
    assert_eq!(GraalCompilerOptions::COMPILATION_FAILURE_ACTION_DEFAULT, ExceptionAction::Silent);
    assert_eq!(GraalCompilerOptions::MAX_COMPILATION_PROBLEMS_PER_ACTION_DEFAULT, 2);
    assert!(GraalCompilerOptions::CRASH_AT_DEFAULT.is_none());
    assert_eq!(GraalCompilerOptions::DUMP_HEAP_AFTER_DEFAULT, "<compilation>");
}

#[test]
fn ce_optimization_options_and_phases() {
    assert_eq!(CEOptimization::Inlining.get_option(), Some("Inline"));
    assert_eq!(CEOptimization::Canonicalization.get_option(), None);
    assert_eq!(CEOptimization::LoopUnswitching.get_option(), Some("LoopUnswitch"));
    assert_eq!(CEOptimization::SafepointElimination.get_phase_type(), "LoopSafepointEliminationPhase");
    assert_eq!(CEOptimization::ConstantBlinding.get_phase_type(), "ConstantBlindingPhase");
}

#[test]
fn tier_phase_names() {
    let high = HighTier::phase_names();
    assert_eq!(high.len(), 16);
    assert_eq!(high[0], "CanonicalizerPhase");
    assert_eq!(high[15], "HighTierLoweringPhase");
    assert!(!MidTier::phase_names().is_empty());
    assert!(!LowTier::phase_names().is_empty());
}

#[test]
fn phase_suite_apply_runs_all_phases() {
    let mut suite: PhaseSuite<HighTierContext> = PhaseSuite::default();
    suite.append_phase(Box::new(EconomyMarkFixReadsPhase));
    suite.append_phase(Box::new(EconomyMarkFixReadsPhase::SINGLETON));
    suite.apply(&HighTierContext);
    assert_eq!(suite.clone().get_phases().len(), 0);
    assert_eq!(suite.get_phases().len(), 2);
}

#[test]
fn lir_phase_with_no_blocks() {
    let mut phase = LIRGenerationPhase::default();
    phase.run(&LIRGenerationContext::new("g", 3), 0);
    assert_eq!(phase.instruction_count, 0);
    assert_eq!(phase.final_node_count, 3);
}

#[test]
fn compiler_thread_clone_is_equal() {
    let t = CompilerThread::with_runnable("P", 3);
    let c = t.clone();
    assert_eq!(c.thread_name, "P-3");
    let f = CompilerThreadFactory::new("Q");
    assert_eq!(f.new_thread().get_name(), "Q");
}

#[test]
fn run_outcome_passes_result_or_handles_cause() {
    let wrapper = CompilationWrapper::new("/tmp/dumps".to_string(), TestCallback);
    assert_eq!(wrapper.run_outcome(Ok("code".to_string())), Ok("code".to_string()));
    assert_eq!(
        wrapper.run_outcome(Err("oops".to_string())),
        Ok("handled: oops".to_string())
    );
}

#[test]
fn begun_printer_is_not_the_disabled_one() {
    let printer = CompilationPrinter::begin(
        CompilationIdentifier::new("t"),
        CompilationSource::java_method("Test", "foo", "()V"),
        -1,
        true,
        false,
    )
    .unwrap();
    assert!(!printer.is_disabled());
    assert!(CompilationPrinter::disabled().is_disabled());
}

#[test]
fn thread_ids_follow_in_turn() {
    let mut factory = CompilerThreadFactory::new("GraalCompiler");
    let first = factory.new_thread_with_id();
    let second = factory.new_thread_with_id();
    let third = factory.new_thread_with_id();
    assert_eq!(first.thread_id, 0);
    assert_eq!(second.thread_id, 1);
    assert_eq!(third.thread_id, 2);
    assert_eq!(first.get_name(), "GraalCompiler-0");
    assert_eq!(third.get_name(), "GraalCompiler-2");
    assert_eq!(factory.thread_counter, 3);
}
