//! A watch dog that reports on long running compilations.
use std::time::Duration;
use vstd::prelude::*;
use crate::text::{owned, push_text};

verus! {

/// Identifies the compilation being watched.
#[derive(Debug, PartialEq, Eq)]
pub struct CompilationIdentifier {
    /// The identifier string.
    pub id: String,
}

impl CompilationIdentifier {
    /// An identifier with the given text.
    pub fn new(id: &str) -> (r: Self)
        ensures
            r.id@ == id@,
    {
        CompilationIdentifier { id: owned(id) }
    }
}

impl Clone for CompilationIdentifier {
    fn clone(&self) -> (r: Self)
        ensures
            r == *self,
    {
        CompilationIdentifier { id: self.id.clone() }
    }
}

/// Acts on the events of a compilation watch dog.
pub trait EventHandler {
    /// Notifies that a compilation is long running.
    fn on_long_compilation(
        &self,
        compilation: &CompilationIdentifier,
        elapsed: Duration,
        stack_trace: &[String],
    ) {
    }

    /// Notifies that a compilation appears to be stuck.
    fn on_stuck_compilation(
        &self,
        compilation: &CompilationIdentifier,
        stack_trace: &[String],
        stuck_time: Duration,
    ) {
    }

    /// Notifies that an error occurred while watching a compilation; the
    /// error is handed over by its message.
    fn on_exception(&self, message: &str) {
    }
}

/// Exit code used when a process exits because of a stuck compilation.
pub const STUCK_COMPILATION_EXIT_CODE: i32 = 84;

/// The shareable default event handler, which ignores every event.
pub struct DefaultEventHandler;

impl EventHandler for DefaultEventHandler {
}

/// Watches one compilation and reports on it while it runs too long.
pub struct CompilationWatchDog {
    /// The compilation being watched.
    pub compilation: CompilationIdentifier,
    /// The delay in seconds before the watch dog starts monitoring.
    pub start_delay_secs: i32,
    /// The delay in seconds after which a stuck compilation exits the VM.
    pub vm_exit_delay_secs: i32,
    /// The name of the watched thread, once known.
    pub watched_thread_name: Option<String>,
    /// The last stack trace recorded.
    pub last_stack_trace: Vec<String>,
    /// Whether the watch dog is running.
    pub running: bool,
    /// Whether debug mode is on.
    pub debug: bool,
    /// The VM exit delay in nanoseconds.
    pub vm_exit_delay_ns: u64,
}

/// The text of a watch dog: `WatchDog[` + thread name (or `unknown`) + `]`.
pub open spec fn watch_dog_text(thread_name: Option<String>) -> Seq<char> {
    "WatchDog["@ + (match thread_name {
        Some(n) => n@,
        None => "unknown"@,
    }) + "]"@
}

impl CompilationWatchDog {
    /// A watch dog for `compilation`, or `None` where the start delay is not
    /// positive (monitoring is then off).
    pub fn watch(compilation: CompilationIdentifier, start_delay_secs: i32, vm_exit_delay_secs: i32) -> (r: Option<Self>)
        ensures
            start_delay_secs > 0 <==> r is Some,
            r matches Some(w) ==> {
                &&& w.compilation == compilation
                &&& w.start_delay_secs == start_delay_secs
                &&& w.vm_exit_delay_secs == vm_exit_delay_secs
                &&& w.watched_thread_name is None
                &&& w.last_stack_trace@.len() == 0
                &&& !w.running
                &&& !w.debug
                &&& w.vm_exit_delay_ns == 0
            },
    {
        if start_delay_secs > 0 {
            Some(CompilationWatchDog {
                compilation,
                start_delay_secs,
                vm_exit_delay_secs,
                watched_thread_name: None,
                last_stack_trace: Vec::new(),
                running: false,
                debug: false,
                vm_exit_delay_ns: 0,
            })
        } else {
            None
        }
    }

    /// A watch dog for `compilation` with the debug flag, whose VM exit delay
    /// is also kept in nanoseconds; `None` where the start delay is not positive.
    pub fn watch_full(
        compilation: CompilationIdentifier,
        start_delay_secs: i32,
        vm_exit_delay_secs: i32,
        debug: bool,
    ) -> (r: Option<Self>)
        requires
            start_delay_secs > 0 ==> vm_exit_delay_secs >= 0,
        ensures
            start_delay_secs > 0 <==> r is Some,
            r matches Some(w) ==> {
                &&& w.compilation == compilation
                &&& w.start_delay_secs == start_delay_secs
                &&& w.vm_exit_delay_secs == vm_exit_delay_secs
                &&& w.watched_thread_name is None
                &&& w.last_stack_trace@.len() == 0
                &&& !w.running
                &&& w.debug == debug
                &&& w.vm_exit_delay_ns == vm_exit_delay_secs * 1_000_000_000
            },
    {
        if start_delay_secs > 0 {
            let secs: u64 = vm_exit_delay_secs as u64;
            assert(secs * 1_000_000_000 <= u64::MAX) by (nonlinear_arith)
                requires
                    secs <= i32::MAX,
            ;
            Some(CompilationWatchDog {
                compilation,
                start_delay_secs,
                vm_exit_delay_secs,
                watched_thread_name: None,
                last_stack_trace: Vec::new(),
                running: false,
                debug,
                vm_exit_delay_ns: secs * 1_000_000_000,
            })
        } else {
            None
        }
    }

    /// Runs one round of monitoring: records the watched thread's stack trace
    /// and stops.
    pub fn run(&mut self, handler: &dyn EventHandler)
        ensures
            !final(self).running,
            final(self).last_stack_trace@.len() == 0,
            final(self).compilation == old(self).compilation,
            final(self).start_delay_secs == old(self).start_delay_secs,
            final(self).vm_exit_delay_secs == old(self).vm_exit_delay_secs,
            final(self).watched_thread_name == old(self).watched_thread_name,
            final(self).debug == old(self).debug,
            final(self).vm_exit_delay_ns == old(self).vm_exit_delay_ns,
    {
        self.running = true;
        if self.running {
            self.record_stack_trace();
        }
        self.running = false;
    }

    /// Closes the watch dog, stopping the monitoring.
    pub fn close(&mut self)
        ensures
            !final(self).running,
            final(self).compilation == old(self).compilation,
            final(self).start_delay_secs == old(self).start_delay_secs,
            final(self).vm_exit_delay_secs == old(self).vm_exit_delay_secs,
            final(self).watched_thread_name == old(self).watched_thread_name,
            final(self).last_stack_trace == old(self).last_stack_trace,
            final(self).debug == old(self).debug,
            final(self).vm_exit_delay_ns == old(self).vm_exit_delay_ns,
    {
        self.stop_compilation();
    }

    fn stop_compilation(&mut self)
        ensures
            *final(self) == (CompilationWatchDog { running: false, ..*old(self) }),
    {
        self.running = false;
    }

    fn record_stack_trace(&mut self)
        ensures
            final(self).last_stack_trace@.len() == 0,
            final(self).compilation == old(self).compilation,
            final(self).start_delay_secs == old(self).start_delay_secs,
            final(self).vm_exit_delay_secs == old(self).vm_exit_delay_secs,
            final(self).watched_thread_name == old(self).watched_thread_name,
            final(self).running == old(self).running,
            final(self).debug == old(self).debug,
            final(self).vm_exit_delay_ns == old(self).vm_exit_delay_ns,
    {
        self.last_stack_trace.clear();
    }

    /// The text of this watch dog, naming the watched thread.
    pub fn to_string(&self) -> (r: String)
        ensures
            r@ == watch_dog_text(self.watched_thread_name),
    {
        let mut r = owned("WatchDog[");
        match &self.watched_thread_name {
            Some(n) => push_text(&mut r, n.as_str()),
            None => push_text(&mut r, "unknown"),
        }
        push_text(&mut r, "]");
        r
    }
}

/// Options of the compilation watch dog.
pub struct WatchDogOptions;

impl WatchDogOptions {
    /// The default start delay in seconds (0 turns monitoring off).
    pub const COMPILATION_WATCH_DOG_START_DELAY_DEFAULT: i32 = 0;
    /// The default VM exit delay in seconds (0 turns VM exiting off).
    pub const COMPILATION_WATCH_DOG_VM_EXIT_DELAY_DEFAULT: i32 = 0;
}

} // verus!
