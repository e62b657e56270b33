//! The configuration of a debug context: which debugging facilities are on.
use vstd::prelude::*;
use crate::debug::debug_dump_handler::{DebugDumpHandler, DebugVerifyHandler};
use crate::debug::java_method_context::JavaMethodContext;

verus! {

/// What a debug context is configured with; implemented by the users of the
/// debug context.
pub trait DebugConfig {
    /// The filter of the methods debugged, if any.
    fn get_debug_filter(&self) -> Option<&dyn DebugFilterTrait>;

    /// The handlers that dump objects.
    fn dump_handlers(&self) -> &[Box<dyn DebugDumpHandler>];

    /// The handlers that verify objects, in order.
    spec fn verifiers(&self) -> Seq<Box<dyn DebugVerifyHandler>>;

    /// The handlers that verify objects.
    fn verify_handlers(&self) -> (r: &[Box<dyn DebugVerifyHandler>])
        ensures
            r@ == self.verifiers(),
    ;

    /// The directory for diagnostic output, if any.
    fn get_diagnostics_output_directory(&self) -> Option<String>;

    /// Whether the configuration has dumping on.
    spec fn dump_on(&self) -> bool;

    /// Whether dumping is on.
    fn is_dump_enabled(&self) -> (r: bool)
        ensures
            r == self.dump_on(),
    ;

    /// Whether the configuration has logging on.
    spec fn log_on(&self) -> bool;

    /// Whether logging is on.
    fn is_log_enabled(&self) -> (r: bool)
        ensures
            r == self.log_on(),
    ;

    /// Whether the configuration has counting on.
    spec fn count_on(&self) -> bool;

    /// Whether counters count.
    fn is_count_enabled(&self) -> (r: bool)
        ensures
            r == self.count_on(),
    ;

    /// Whether the configuration has timing on.
    spec fn time_on(&self) -> bool;

    /// Whether timers measure.
    fn is_time_enabled(&self) -> (r: bool)
        ensures
            r == self.time_on(),
    ;

    /// Whether the configuration has memory use tracking on.
    spec fn tracking_on(&self) -> bool;

    /// Whether memory use is tracked.
    fn is_mem_use_tracking_enabled(&self) -> (r: bool)
        ensures
            r == self.tracking_on(),
    ;

    /// Whether the configuration has verification on.
    spec fn verify_on(&self) -> bool;

    /// Whether verification is on.
    fn is_verify_enabled(&self) -> (r: bool)
        ensures
            r == self.verify_on(),
    ;

    /// Whether methods are metered.
    fn is_method_meter_enabled(&self) -> bool;
}

/// Decides whether a method is debugged.
pub trait DebugFilterTrait {
    /// Whether a method with the given name (or none) is selected.
    spec fn selects(&self, name: Option<Seq<char>>) -> bool;

    /// Whether the method is selected.
    fn match_method(&self, method: &dyn JavaMethodContext) -> (r: bool)
        ensures
            r == self.selects(method.method_name()),
    ;
}

} // verus!
