//! A wrapper around a compilation that decides what to do when the
//! compilation fails: stay silent, print, or retry with diagnostics.
use std::collections::HashMap;
use std::marker::PhantomData;
use vstd::prelude::*;
use crate::text::{owned, push_text};

verus! {

broadcast use vstd::std_specs::hash::group_hash_axioms;

/// What to do when a compilation raises an exception, in ascending order of
/// verbosity.
#[derive(Debug, Clone, Copy, PartialEq, Eq, Structural, PartialOrd, Ord, Hash)]
pub enum ExceptionAction {
    /// Print nothing.
    Silent,
    /// Print a stack trace.
    Print,
    /// Retry the compilation with extra diagnostics.
    Diagnose,
    /// Like `Diagnose`, then exit the VM.
    ExitVM,
}

/// The position of an action in the order of verbosity.
pub open spec fn action_rank(a: ExceptionAction) -> nat {
    match a {
        ExceptionAction::Silent => 0,
        ExceptionAction::Print => 1,
        ExceptionAction::Diagnose => 2,
        ExceptionAction::ExitVM => 3,
    }
}

/// The action one level less verbose, bottoming out at `Silent`.
pub open spec fn quieter_action(a: ExceptionAction) -> ExceptionAction {
    match a {
        ExceptionAction::Silent => ExceptionAction::Silent,
        ExceptionAction::Print => ExceptionAction::Silent,
        ExceptionAction::Diagnose => ExceptionAction::Print,
        ExceptionAction::ExitVM => ExceptionAction::Diagnose,
    }
}

impl ExceptionAction {
    /// The action one level less verbose than this one, bottoming out at the
    /// least verbose action.
    pub fn quieter(self) -> (r: Self)
        ensures
            r == quieter_action(self),
    {
        match self {
            ExceptionAction::Silent => ExceptionAction::Silent,
            ExceptionAction::Print => ExceptionAction::Silent,
            ExceptionAction::Diagnose => ExceptionAction::Print,
            ExceptionAction::ExitVM => ExceptionAction::Diagnose,
        }
    }

    /// The position of this action in the order of verbosity, which is how
    /// the counts of handled problems are keyed.
    pub fn rank(self) -> (r: u8)
        ensures
            r == action_rank(self),
    {
        match self {
            ExceptionAction::Silent => 0,
            ExceptionAction::Print => 1,
            ExceptionAction::Diagnose => 2,
            ExceptionAction::ExitVM => 3,
        }
    }
}

/// A compilation failure: its cause, and whether debug output is on.
#[derive(Debug)]
pub struct CompilationFailure {
    /// The cause of the failure.
    pub cause: String,
    /// Whether debug information is available.
    pub debug: bool,
}

/// The message with which a failure with the given cause is handled.
pub open spec fn failure_message(cause: Seq<char>, silent: bool) -> Seq<char> {
    if silent {
        "Silent failure: "@ + cause
    } else {
        "Compilation failure: "@ + cause
    }
}

impl CompilationFailure {
    /// A failure with the given cause.
    pub fn new(cause: String, debug: bool) -> (r: Self)
        ensures
            r.cause == cause,
            r.debug == debug,
    {
        CompilationFailure { cause, debug }
    }

    /// Handles the failure, silently or not, and gives the message for it.
    pub fn handle(&self, silent: bool) -> (r: String)
        ensures
            r@ == failure_message(self.cause@, silent),
    {
        let mut r = if silent {
            owned("Silent failure: ")
        } else {
            owned("Compilation failure: ")
        };
        push_text(&mut r, self.cause.as_str());
        r
    }
}

/// What a compilation run by a `CompilationWrapper` does; implemented by the
/// users of the wrapper.
pub trait CompilationWrapperCallback<T> {
    /// What the compilation gives: its result, or the cause of its failure.
    spec fn compilation(&self) -> Result<T, Seq<char>>;

    /// The result of handling a failure with the given cause.
    spec fn handled(&self, cause: Seq<char>) -> T;

    /// Performs the compilation.
    fn perform_compilation(&self) -> (r: Result<T, String>)
        ensures
            match (r, self.compilation()) {
                (Ok(a), Ok(b)) => a == b,
                (Err(e), Err(f)) => e@ == f,
                _ => false,
            },
    ;

    /// A text that stands for the input of the compilation.
    fn to_string(&self) -> String;

    /// Handles an exception of the compilation and gives its result.
    fn handle_exception(&self, cause: &str) -> (r: T)
        ensures
            r == self.handled(cause@),
    ;

    /// Whether a retry gets a debug context of its own.
    fn create_retry_debug_context(&self) -> (r: bool)
        default_ensures
            !r,
    {
        false
    }

    /// The options used for a retry of the compilation.
    fn parse_retry_options(&self, options: &[String]) -> (r: HashMap<String, String>)
        default_ensures
            r@ == Map::<String, String>::empty(),
    {
        HashMap::new()
    }

    /// Exits the host VM with the given status.
    fn exit_host_vm(&self, status: i32) {
    }

    /// Dumps what belongs to the original failure.
    fn dump_on_error(&self, cause: &str) {
    }
}

/// The number of problems handled under `a`, as kept in `counts` (0 where
/// nothing is kept).
pub open spec fn problems_handled(counts: Map<u8, i32>, a: ExceptionAction) -> int {
    if counts.dom().contains(action_rank(a) as u8) {
        counts[action_rank(a) as u8] as int
    } else {
        0
    }
}

/// The most problems handled under one action before the next quieter one is taken.
pub const MAX_PROBLEMS_PER_ACTION: i32 = 5;

/// Starting from `a`, the first action not yet used up: each action under
/// which the maximum of problems has been handled gives way to the next
/// quieter one, down to `Silent`.
pub open spec fn first_unused_action(counts: Map<u8, i32>, a: ExceptionAction) -> ExceptionAction
    decreases action_rank(a),
{
    if a == ExceptionAction::Silent {
        a
    } else if problems_handled(counts, a) >= MAX_PROBLEMS_PER_ACTION {
        first_unused_action(counts, quieter_action(a))
    } else {
        a
    }
}

/// The action actually taken for a failure whose looked-up action is `a`:
/// `ExitVM` stays; any other action becomes `ExitVM` when failures are
/// systemic, else the first action not yet used up.
pub open spec fn adjusted_action(counts: Map<u8, i32>, a: ExceptionAction, rate_too_high: bool) -> ExceptionAction {
    if a == ExceptionAction::ExitVM {
        a
    } else if rate_too_high {
        ExceptionAction::ExitVM
    } else {
        first_unused_action(counts, a)
    }
}

/// Runs a compilation and centralizes what happens when it fails.
#[verifier::reject_recursive_types(T)]
pub struct CompilationWrapper<T, C: CompilationWrapperCallback<T>> {
    /// The directory for dumps of a re-executed compilation.
    pub output_directory: String,
    /// How many problems have been handled under each action, keyed by the
    /// action's rank.
    pub problems_handled_per_action: HashMap<u8, i32>,
    /// The compilation-specific operations.
    pub callback: C,
    /// Marks the result type of the compilation.
    pub phantom: PhantomData<T>,
}

impl<T, C: CompilationWrapperCallback<T>> CompilationWrapper<T, C> {
    /// A wrapper that has handled no problem yet.
    pub fn new(output_directory: String, callback: C) -> (r: Self)
        ensures
            r.output_directory == output_directory,
            r.problems_handled_per_action@ == Map::<u8, i32>::empty(),
            r.callback == callback,
    {
        CompilationWrapper {
            output_directory,
            problems_handled_per_action: HashMap::new(),
            callback,
            phantom: PhantomData,
        }
    }

    /// Runs the compilation; a failure is handled by the callback, whose
    /// result is then the result of the run, so the run always succeeds.
    pub fn run(&self) -> (r: Result<T, String>)
        ensures
            r == match self.callback.compilation() {
                Ok(v) => Ok::<T, String>(v),
                Err(c) => Ok::<T, String>(self.callback.handled(c)),
            },
    {
        let outcome = self.callback.perform_compilation();
        self.run_outcome(outcome)
    }

    /// The result of a run whose compilation gave `outcome`: a compiled
    /// value is the result as it is; a failure's cause goes to the
    /// callback's failure handling, whose value is the result.
    pub fn run_outcome(&self, outcome: Result<T, String>) -> (r: Result<T, String>)
        ensures
            r == match outcome {
                Ok(v) => Ok::<T, String>(v),
                Err(c) => Ok::<T, String>(self.callback.handled(c@)),
            },
    {
        match outcome {
            Ok(result) => Ok(result),
            Err(cause) => {
                let failure = CompilationFailure::new(cause, false);
                Ok(self.on_compilation_failure(&failure))
            },
        }
    }

    /// Handles a compilation failure by handing its cause to the callback.
    pub fn on_compilation_failure(&self, failure: &CompilationFailure) -> (r: T)
        ensures
            r == self.callback.handled(failure.cause@),
    {
        self.callback.handle_exception(failure.cause.as_str())
    }

    /// The action looked up for a failure: printing.
    pub fn lookup_action(&self, cause: &str) -> (r: ExceptionAction)
        ensures
            r == ExceptionAction::Print,
    {
        ExceptionAction::Print
    }

    /// Handles a failure under the adjusted action; every action ends with
    /// the callback handling the cause.
    pub fn handle_failure(&self, cause: &str) -> (r: T)
        ensures
            r == self.callback.handled(cause@),
    {
        let action = self.lookup_action(cause);
        let adjusted = self.adjust_action(action, cause);
        match adjusted {
            ExceptionAction::Silent => self.callback.handle_exception(cause),
            ExceptionAction::Print => self.callback.handle_exception(cause),
            ExceptionAction::Diagnose => self.perform_diagnostic_retry(cause, adjusted),
            ExceptionAction::ExitVM => self.perform_diagnostic_retry(cause, adjusted),
        }
    }

    /// The action actually taken for a failure whose looked-up action is `action`.
    pub fn adjust_action(&self, action: ExceptionAction, cause: &str) -> (r: ExceptionAction)
        ensures
            r == adjusted_action(self.problems_handled_per_action@, action, false),
    {
        let mut adjusted = action;
        if adjusted != ExceptionAction::ExitVM {
            if self.detect_compilation_failure_rate_too_high(cause) {
                return ExceptionAction::ExitVM;
            }
            while adjusted != ExceptionAction::Silent
                invariant
                    first_unused_action(self.problems_handled_per_action@, adjusted)
                        == first_unused_action(self.problems_handled_per_action@, action),
                ensures
                    adjusted == first_unused_action(self.problems_handled_per_action@, action),
                decreases action_rank(adjusted),
            {
                let count: i32 = match self.problems_handled_per_action.get(&adjusted.rank()) {
                    Some(c) => *c,
                    None => 0,
                };
                assert(count == problems_handled(self.problems_handled_per_action@, adjusted));
                if count >= MAX_PROBLEMS_PER_ACTION {
                    adjusted = adjusted.quieter();
                } else {
                    break;
                }
            }
        }
        adjusted
    }

    /// Whether the failure rate is systemically too high; it never is here.
    pub fn detect_compilation_failure_rate_too_high(&self, cause: &str) -> (r: bool)
        ensures
            !r,
    {
        false
    }

    /// Retries the compilation with diagnostics; the callback handles the cause.
    fn perform_diagnostic_retry(&self, cause: &str, action: ExceptionAction) -> (r: T)
        ensures
            r == self.callback.handled(cause@),
    {
        self.callback.handle_exception(cause)
    }

    /// Whether the bailout counts as no failure; none does here.
    pub fn is_non_failure_bailout(&self, cause: &str) -> (r: bool)
        ensures
            !r,
    {
        false
    }

    /// The directory for diagnostic output.
    pub fn get_output_directory(&self) -> (r: &str)
        ensures
            r@ == self.output_directory@,
    {
        self.output_directory.as_str()
    }

    /// How many problems have been handled under each action.
    pub fn get_problems_handled_per_action(&self) -> (r: &HashMap<u8, i32>)
        ensures
            r@ == self.problems_handled_per_action@,
    {
        &self.problems_handled_per_action
    }
}

} // verus!
