//! The compiler entry point: compilation requests and results, the front end
//! that runs the tiers, and the check for a requested crash.
use vstd::prelude::*;
use crate::compiler_core::compilation_printer::CompilationSource;
use crate::compiler_core::compilation_watch_dog::CompilationIdentifier;
use crate::compiler_core::phases::{HighTier, HighTierContext, LowTier, LowTierContext, MidTier, MidTierContext};
use crate::text::{
    chars_of, contains_chars, contains_seq, ends_with_chars, ends_with_seq, owned, push_text,
    string_of_prefix,
};

verus! {

/// The result of a compilation: the compiled code and its metadata.
#[derive(Debug)]
pub struct CompilationResult {
    /// The compilation.
    pub id: CompilationIdentifier,
    /// What was compiled.
    pub source: CompilationSource,
    /// The size of the target code in bytes, or -1 where unknown.
    pub target_code_size: i32,
    /// The bytecode size of the compiled method.
    pub bytecode_size: i32,
    /// The start address of the installed code, or 0 where not installed.
    pub start_address: u64,
}

impl Clone for CompilationResult {
    fn clone(&self) -> (r: Self)
        ensures
            r == *self,
    {
        CompilationResult {
            id: self.id.clone(),
            source: self.source.clone(),
            target_code_size: self.target_code_size,
            bytecode_size: self.bytecode_size,
            start_address: self.start_address,
        }
    }
}

impl CompilationResult {
    /// The target code size that stands for an unknown size.
    pub const UNKNOWN_TARGET_CODE_SIZE: i32 = -1;

    /// A result for the compilation of `source`, with unknown code size,
    /// no bytecode and no installed code.
    pub fn new(id: CompilationIdentifier, source: CompilationSource) -> (r: Self)
        ensures
            r.id == id,
            r.source == source,
            r.target_code_size == -1,
            r.bytecode_size == 0,
            r.start_address == 0,
    {
        CompilationResult {
            id,
            source,
            target_code_size: Self::UNKNOWN_TARGET_CODE_SIZE,
            bytecode_size: 0,
            start_address: 0,
        }
    }

    /// The size of the target code.
    pub fn get_target_code_size(&self) -> (r: i32)
        ensures
            r == self.target_code_size,
    {
        self.target_code_size
    }

    /// The bytecode size.
    pub fn get_bytecode_size(&self) -> (r: i32)
        ensures
            r == self.bytecode_size,
    {
        self.bytecode_size
    }
}

/// All the inputs of a compilation.
pub struct CompilationRequest {
    /// The compilation.
    pub id: CompilationIdentifier,
    /// What is compiled.
    pub source: CompilationSource,
    /// The entry BCI, or -1 for an invocation entry.
    pub entry_bci: i32,
    /// Whether source positions are verified.
    pub verify_source_positions: bool,
    /// The high tier.
    pub high_tier: HighTier,
    /// The mid tier.
    pub mid_tier: MidTier,
    /// The low tier.
    pub low_tier: LowTier,
    /// Whether the back end (LIR and code generation) is emitted.
    pub emit_backend: bool,
}

impl CompilationRequest {
    /// A request with empty tiers and without back end.
    pub fn new(id: CompilationIdentifier, source: CompilationSource, entry_bci: i32, verify_source_positions: bool) -> (r: Self)
        ensures
            r.id == id,
            r.source == source,
            r.entry_bci == entry_bci,
            r.verify_source_positions == verify_source_positions,
            r.high_tier.base.suite.phases@.len() == 0,
            r.mid_tier.base.suite.phases@.len() == 0,
            r.low_tier.base.suite.phases@.len() == 0,
            !r.emit_backend,
    {
        CompilationRequest {
            id,
            source,
            entry_bci,
            verify_source_positions,
            high_tier: HighTier::new(),
            mid_tier: MidTier::new(),
            low_tier: LowTier::new(),
            emit_backend: false,
        }
    }

    /// A request with the given tiers and back-end flag.
    pub fn with_tiers(
        id: CompilationIdentifier,
        source: CompilationSource,
        entry_bci: i32,
        verify_source_positions: bool,
        high_tier: HighTier,
        mid_tier: MidTier,
        low_tier: LowTier,
        emit_backend: bool,
    ) -> (r: Self)
        ensures
            r.id == id,
            r.source == source,
            r.entry_bci == entry_bci,
            r.verify_source_positions == verify_source_positions,
            r.high_tier == high_tier,
            r.mid_tier == mid_tier,
            r.low_tier == low_tier,
            r.emit_backend == emit_backend,
    {
        CompilationRequest {
            id,
            source,
            entry_bci,
            verify_source_positions,
            high_tier,
            mid_tier,
            low_tier,
            emit_backend,
        }
    }

    /// Executes this request.
    pub fn execute(&self) -> (r: CompilationResult)
        ensures
            r.id == self.id,
            r.source == self.source,
            r.target_code_size == -1,
            r.bytecode_size == 0,
            r.start_address == 0,
    {
        GraalCompiler::compile(self)
    }
}

/// Decides whether a requested crash goes ahead; implemented by the users of
/// the compiler.
pub trait RequestedCrashHandler {
    /// Whether the caller should go on to raise the crash with this message.
    fn notify_crash(&self, crash_message: &str) -> bool;
}

/// The default crash handler, which lets every requested crash go ahead.
pub struct DefaultCrashHandler;

impl RequestedCrashHandler for DefaultCrashHandler {
    fn notify_crash(&self, crash_message: &str) -> (r: bool)
        ensures
            r,
    {
        true
    }
}

/// Whether a crash-at value asks for a retryable bailout.
pub open spec fn asks_bailout(value: Seq<char>) -> bool {
    ends_with_seq(value, ":Bailout"@)
}

/// Whether a crash-at value asks for a permanent bailout.
pub open spec fn asks_permanent_bailout(value: Seq<char>) -> bool {
    !asks_bailout(value) && ends_with_seq(value, ":PermanentBailout"@)
}

/// The method pattern of a crash-at value: the value without its bailout suffix.
pub open spec fn crash_pattern(value: Seq<char>) -> Seq<char> {
    if asks_bailout(value) {
        value.take(value.len() - ":Bailout"@.len())
    } else if asks_permanent_bailout(value) {
        value.take(value.len() - ":PermanentBailout"@.len())
    } else {
        value
    }
}

/// The message handed to the crash handler for a method.
pub open spec fn crash_message(method_name: Seq<char>) -> Seq<char> {
    "Forced crash after compiling "@ + method_name
}

/// The error raised by a requested crash: the kind of failure, then the message.
pub open spec fn crash_error(value: Seq<char>, method_name: Seq<char>) -> Seq<char> {
    if asks_permanent_bailout(value) {
        "PermanentBailout: "@ + crash_message(method_name)
    } else if asks_bailout(value) {
        "RetryableBailout: "@ + crash_message(method_name)
    } else {
        "RuntimeException: "@ + crash_message(method_name)
    }
}

/// Whether the crash-at value selects the method: its pattern occurs in the
/// method's name.
pub open spec fn crash_selects(value: Seq<char>, method_name: Seq<char>) -> bool {
    contains_seq(method_name, crash_pattern(value))
}

/// Orchestrates the compilation of a graph.
pub struct GraalCompiler;

impl GraalCompiler {
    /// The name of the compiler timer.
    pub const COMPILER_TIMER_NAME: &'static str = "GraalCompiler";
    /// The name of the front-end timer.
    pub const FRONT_END_TIMER_NAME: &'static str = "FrontEnd";

    /// Services a compilation request: runs the front end and gives the result.
    pub fn compile(request: &CompilationRequest) -> (r: CompilationResult)
        ensures
            r.id == request.id,
            r.source == request.source,
            r.target_code_size == -1,
            r.bytecode_size == 0,
            r.start_address == 0,
    {
        GraalCompiler::emit_front_end(request);
        let mut result = CompilationResult::new(request.id.clone(), request.source.clone());
        result.bytecode_size = 0;
        result
    }

    /// Builds and optimizes the graph: the high, mid and low tiers in turn.
    pub fn emit_front_end(request: &CompilationRequest) {
        let high_ctx = HighTierContext;
        request.high_tier.apply(&high_ctx);
        let mid_ctx = MidTierContext;
        request.mid_tier.apply(&mid_ctx);
        let low_ctx = LowTierContext;
        request.low_tier.apply(&low_ctx);
    }

    /// The outcome of a requested crash once it is known whether the crash
    /// goes ahead: the error for the method where the value selects it and
    /// the crash goes ahead, else success.
    pub fn requested_crash_outcome(value: &str, method_name: &str, goes_ahead: bool) -> (r: Result<(), String>)
        ensures
            match r {
                Ok(()) => !(crash_selects(value@, method_name@) && goes_ahead),
                Err(e) => crash_selects(value@, method_name@) && goes_ahead && e@ == crash_error(value@, method_name@),
            },
    {
        if GraalCompiler::selects(value, method_name) && goes_ahead {
            Err(GraalCompiler::crash_error_text(value, method_name))
        } else {
            Ok(())
        }
    }

    /// Whether the crash-at value selects the method.
    pub fn selects(value: &str, method_name: &str) -> (r: bool)
        ensures
            r == crash_selects(value@, method_name@),
    {
        let v = chars_of(value);
        let m = chars_of(method_name);
        let bail = chars_of(":Bailout");
        let permanent = chars_of(":PermanentBailout");
        let pattern = if ends_with_chars(v.as_slice(), bail.as_slice()) {
            string_of_prefix(v.as_slice(), v.len() - bail.len())
        } else if ends_with_chars(v.as_slice(), permanent.as_slice()) {
            string_of_prefix(v.as_slice(), v.len() - permanent.len())
        } else {
            owned(value)
        };
        let p = chars_of(pattern.as_str());
        contains_chars(m.as_slice(), p.as_slice())
    }

    /// The message handed to the crash handler for a method.
    pub fn crash_message_text(method_name: &str) -> (r: String)
        ensures
            r@ == crash_message(method_name@),
    {
        let mut r = owned("Forced crash after compiling ");
        push_text(&mut r, method_name);
        r
    }

    /// The error raised by a requested crash of the method.
    pub fn crash_error_text(value: &str, method_name: &str) -> (r: String)
        ensures
            r@ == crash_error(value@, method_name@),
    {
        let v = chars_of(value);
        let bail = chars_of(":Bailout");
        let permanent = chars_of(":PermanentBailout");
        let is_bailout = ends_with_chars(v.as_slice(), bail.as_slice());
        let is_permanent = !is_bailout && ends_with_chars(v.as_slice(), permanent.as_slice());
        let mut r = if is_permanent {
            owned("PermanentBailout: ")
        } else if is_bailout {
            owned("RetryableBailout: ")
        } else {
            owned("RuntimeException: ")
        };
        let message = GraalCompiler::crash_message_text(method_name);
        push_text(&mut r, message.as_str());
        r
    }

    /// Checks whether the crash-at option asks this compilation to fail.
    /// Without a value, or where the value's pattern does not occur in the
    /// method name, nothing happens. Otherwise the crash goes ahead where
    /// there is no handler or the handler, told the crash message, agrees;
    /// it then fails with the kind of failure the value's suffix asks for.
    pub fn check_for_requested_crash(
        crash_at_value: Option<&str>,
        method_name: &str,
        crash_handler: Option<&dyn RequestedCrashHandler>,
    ) -> (r: Result<(), String>)
        ensures
            match crash_at_value {
                None => r is Ok,
                Some(v) => match r {
                    Ok(()) => !crash_selects(v@, method_name@) || crash_handler is Some,
                    Err(e) => crash_selects(v@, method_name@) && e@ == crash_error(v@, method_name@),
                },
            },
    {
        let value = match crash_at_value {
            Some(v) => v,
            None => return Ok(()),
        };
        if GraalCompiler::selects(value, method_name) {
            let crash_message = GraalCompiler::crash_message_text(method_name);
            let goes_ahead = match crash_handler {
                None => true,
                Some(h) => h.notify_crash(crash_message.as_str()),
            };
            GraalCompiler::requested_crash_outcome(value, method_name, goes_ahead)
        } else {
            Ok(())
        }
    }
}

} // verus!
