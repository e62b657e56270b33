//! The options of the compiler and their defaults.
use vstd::prelude::*;
use crate::compiler_core::compilation_wrapper::ExceptionAction;

verus! {

/// The options of the compiler.
pub struct GraalCompilerOptions;

impl GraalCompilerOptions {
    /// Whether a line is printed for each completed compilation.
    pub const PRINT_COMPILATION_DEFAULT: bool = false;
    /// The CSV file to which statistics of each compilation are printed.
    pub const PRINT_COMPILATION_CSV_DEFAULT: Option<&'static str> = None;
    /// The pattern of the methods whose compilation is made to fail.
    pub const CRASH_AT_DEFAULT: Option<&'static str> = None;
    /// Whether bailouts count as compilation failures.
    pub const COMPILATION_BAILOUT_AS_FAILURE_DEFAULT: bool = false;
    /// The action taken when a compilation fails.
    pub const COMPILATION_FAILURE_ACTION_DEFAULT: ExceptionAction = ExceptionAction::Silent;
    /// The number of failures handled before a less verbose action is taken.
    pub const MAX_COMPILATION_PROBLEMS_PER_ACTION_DEFAULT: i32 = 2;
    /// The failure rate, in percent, above which failures count as systemic.
    pub const SYSTEMIC_COMPILATION_FAILURE_RATE_DEFAULT: i32 = 1;
    /// The number of seconds by which each compilation is slowed down.
    pub const INJECTED_COMPILATION_DELAY_DEFAULT: i32 = 0;
    /// The phase filter key for a heap dump after phases.
    pub const DUMP_HEAP_AFTER_DEFAULT: &'static str = "<compilation>";
}

} // verus!
