//! The handler behind a debug context: its configuration, log stream,
//! indentation and dump level.
use vstd::prelude::*;
use crate::debug::debug_config::DebugConfig;
use crate::debug::debug_context::DebugContext;
use crate::debug::debug_dump_handler::{first_error, DebugVerifyHandler};
use crate::debug::indent::{repeat, Indent};
use crate::debug::log_stream::LogStream;
use crate::text::fill_placeholders;

verus! {

/// Handles logging, dumping and verification for a debug context.
pub struct DebugHandler {
    config: Box<dyn DebugConfig>,
    switches: (bool, bool, bool, bool, bool, bool),
    log_stream: LogStream,
    indent: Indent,
    dump_level: usize,
    closed: bool,
}

impl DebugHandler {
    /// The handler's log stream.
    pub closed spec fn stream(&self) -> LogStream {
        self.log_stream
    }

    /// The handler's dump level.
    pub closed spec fn level(&self) -> usize {
        self.dump_level
    }

    /// Whether the handler is closed.
    pub closed spec fn is_shut(&self) -> bool {
        self.closed
    }

    /// The handler's indentation.
    pub closed spec fn indentation(&self) -> Indent {
        self.indent
    }

    /// Whether the configuration has dumping on.
    pub closed spec fn dumping(&self) -> bool {
        self.switches.0
    }

    /// Whether the configuration has logging on.
    pub closed spec fn logging(&self) -> bool {
        self.switches.1
    }

    /// Whether the configuration has counting on.
    pub closed spec fn counting(&self) -> bool {
        self.switches.2
    }

    /// Whether the configuration has timing on.
    pub closed spec fn timing(&self) -> bool {
        self.switches.3
    }

    /// Whether the configuration has memory use tracking on.
    pub closed spec fn tracking(&self) -> bool {
        self.switches.4
    }

    /// Whether the configuration has verification on.
    pub closed spec fn verifying(&self) -> bool {
        self.switches.5
    }

    /// The switches of the configuration: dumping, logging, counting,
    /// timing, memory use tracking and verification.
    pub open spec fn switches(&self) -> (bool, bool, bool, bool, bool, bool) {
        (self.dumping(), self.logging(), self.counting(), self.timing(), self.tracking(), self.verifying())
    }

    /// The configuration's verify handlers, in order.
    pub closed spec fn checkers(&self) -> Seq<Box<dyn DebugVerifyHandler>> {
        self.config.verifiers()
    }

    /// A handler with the configuration, logging to the standard output, at
    /// dump level 0, open. The configuration's switches are read once, here.
    pub fn new(config: Box<dyn DebugConfig>) -> (r: Self)
        ensures
            r.stream().written() == Seq::<char>::empty(),
            r.stream().level() == 0,
            r.indentation().level() == 0,
            r.level() == 0,
            !r.is_shut(),
            r.switches() == (config.dump_on(), config.log_on(), config.count_on(), config.time_on(), config.tracking_on(), config.verify_on()),
    {
        let switches = (
            config.is_dump_enabled(),
            config.is_log_enabled(),
            config.is_count_enabled(),
            config.is_time_enabled(),
            config.is_mem_use_tracking_enabled(),
            config.is_verify_enabled(),
        );
        Self::with_switches(config, switches)
    }

    /// A handler with the configuration whose switches were read as
    /// `switches`, logging to the standard output, at dump level 0, open.
    pub(crate) fn with_switches(config: Box<dyn DebugConfig>, switches: (bool, bool, bool, bool, bool, bool)) -> (r: Self)
        ensures
            r.stream().written() == Seq::<char>::empty(),
            r.stream().level() == 0,
            r.indentation().level() == 0,
            r.level() == 0,
            !r.is_shut(),
            r.switches() == switches,
    {
        DebugHandler { config, switches, log_stream: LogStream::sys_out(), indent: Indent::new(), dump_level: 0, closed: false }
    }

    /// The configuration.
    pub fn get_config(&self) -> &dyn DebugConfig {
        &*self.config
    }

    /// Whether the configuration has logging on.
    pub fn is_log_enabled(&self) -> (r: bool)
        ensures
            r == self.logging(),
    {
        self.switches.1
    }

    /// Whether the configuration has dumping on.
    pub fn is_dump_enabled(&self) -> (r: bool)
        ensures
            r == self.dumping(),
    {
        self.switches.0
    }

    /// Whether the configuration has counting on.
    pub fn is_count_enabled(&self) -> (r: bool)
        ensures
            r == self.counting(),
    {
        self.switches.2
    }

    /// Whether the configuration has timing on.
    pub fn is_time_enabled(&self) -> (r: bool)
        ensures
            r == self.timing(),
    {
        self.switches.3
    }

    /// Whether the configuration has memory use tracking on.
    pub fn is_mem_use_tracking_enabled(&self) -> (r: bool)
        ensures
            r == self.tracking(),
    {
        self.switches.4
    }

    /// Whether the configuration has verification on.
    pub fn is_verify_enabled(&self) -> (r: bool)
        ensures
            r == self.verifying(),
    {
        self.switches.5
    }

    /// The log stream.
    pub fn log_stream(&self) -> (r: &LogStream)
        ensures
            *r == self.stream(),
    {
        &self.log_stream
    }

    /// The log stream, for writing.
    pub fn log_stream_mut(&mut self) -> (r: &mut LogStream)
        ensures
            *r == old(self).stream(),
            final(self).stream() == *final(r),
            final(self).level() == old(self).level(),
            final(self).is_shut() == old(self).is_shut(),
            final(self).indentation() == old(self).indentation(),
            final(self).logging() == old(self).logging(),
            final(self).verifying() == old(self).verifying(),
    {
        &mut self.log_stream
    }

    /// The indentation.
    pub fn indent(&self) -> (r: &Indent)
        ensures
            *r == self.indentation(),
    {
        &self.indent
    }

    /// The dump level.
    pub fn get_dump_level(&self) -> (r: usize)
        ensures
            r == self.level(),
    {
        self.dump_level
    }

    /// Sets the dump level.
    pub fn set_dump_level(&mut self, level: usize)
        ensures
            final(self).level() == level,
            final(self).stream() == old(self).stream(),
            final(self).is_shut() == old(self).is_shut(),
    {
        self.dump_level = level;
    }

    /// One dump level more.
    pub fn increment_dump_level(&mut self)
        requires
            old(self).level() < usize::MAX,
        ensures
            final(self).level() == old(self).level() + 1,
            final(self).stream() == old(self).stream(),
            final(self).is_shut() == old(self).is_shut(),
    {
        self.dump_level = self.dump_level + 1;
    }

    /// One dump level less, not below 0.
    pub fn decrement_dump_level(&mut self)
        ensures
            final(self).level() == if old(self).level() > 0 { old(self).level() - 1 } else { 0 },
            final(self).stream() == old(self).stream(),
            final(self).is_shut() == old(self).is_shut(),
    {
        if self.dump_level > 0 {
            self.dump_level = self.dump_level - 1;
        }
    }

    /// Logs a message on a line of its own at the stream's indentation, where
    /// the configuration has logging on.
    pub fn log(&mut self, msg: &str)
        ensures
            final(self).stream().written() == if old(self).logging() {
                old(self).stream().written() + repeat(old(self).stream().unit(), old(self).stream().level() as nat)
                    + msg@ + seq!['\n']
            } else {
                old(self).stream().written()
            },
            final(self).logging() == old(self).logging(),
            final(self).stream().level() == old(self).stream().level(),
            final(self).level() == old(self).level(),
            final(self).is_shut() == old(self).is_shut(),
    {
        if self.switches.1 {
            self.log_stream.print_indented(msg);
            self.log_stream.println_empty();
        }
    }

    /// Logs `format` filled with `args` on a line of its own, where the
    /// configuration has logging on.
    pub fn logv(&mut self, format: &str, args: &[&str])
        ensures
            final(self).stream().written() == if old(self).logging() {
                old(self).stream().written() + repeat(old(self).stream().unit(), old(self).stream().level() as nat)
                    + fill_placeholders(format@, args@.map_values(|a: &str| a@)) + seq!['\n']
            } else {
                old(self).stream().written()
            },
            final(self).logging() == old(self).logging(),
            final(self).stream().level() == old(self).stream().level(),
            final(self).level() == old(self).level(),
            final(self).is_shut() == old(self).is_shut(),
    {
        if self.switches.1 {
            self.log_stream.print_indent();
            self.log_stream.printf(format, args);
            self.log_stream.println_empty();
        }
    }

    /// Hands the object to every dump handler of the configuration, where
    /// dumping is on.
    pub fn dump(&self, debug_context: &DebugContext, object: &str, name: &str) {
        if self.switches.0 {
            let handlers = self.config.dump_handlers();
            let mut i: usize = 0;
            while i < handlers.len()
                decreases handlers.len() - i,
            {
                handlers[i].dump(object, name, &[]);
                i = i + 1;
            }
        }
    }

    /// The first error a verify handler of the configuration finds in the
    /// object, where verification is on.
    pub fn verify(&self, debug_context: &DebugContext, object: &str, name: &str) -> (r: Option<String>)
        ensures
            match (r, if self.verifying() { first_error(self.checkers(), object@, name@) } else { None }) {
                (Some(e), Some(f)) => e@ == f,
                (None, None) => true,
                _ => false,
            },
    {
        if self.switches.5 {
            let handlers = self.config.verify_handlers();
            let no_args: &[&str] = &[];
            assert(no_args@.map_values(|a: &str| a@) =~= Seq::<Seq<char>>::empty());
            assert(handlers@.skip(0) =~= handlers@);
            let mut i: usize = 0;
            while i < handlers.len()
                invariant
                    i <= handlers@.len(),
                    handlers@ == self.checkers(),
                    self.verifying(),
                    no_args@.map_values(|a: &str| a@) == Seq::<Seq<char>>::empty(),
                    first_error(self.checkers(), object@, name@) == first_error(handlers@.skip(i as int), object@, name@),
                decreases handlers.len() - i,
            {
                assert(handlers@.skip(i as int)[0] == handlers@[i as int]);
                assert(handlers@.skip(i as int).skip(1) =~= handlers@.skip(i + 1));
                let found = handlers[i].verify(object, name, no_args);
                assert(first_error(handlers@.skip(i as int), object@, name@) == match handlers@[i as int].error_in(object@, name@, Seq::empty()) {
                    Some(e) => Some(e),
                    None => first_error(handlers@.skip(i + 1), object@, name@),
                });
                if found.is_some() {
                    return found;
                }
                i = i + 1;
            }
            assert(handlers@.skip(i as int).len() == 0);
        }
        None
    }

    /// Whether the handler is closed.
    pub fn is_closed(&self) -> (r: bool)
        ensures
            r == self.is_shut(),
    {
        self.closed
    }

    /// Closes the handler once, flushing its stream.
    pub fn close(&mut self)
        ensures
            final(self).is_shut(),
            final(self).stream() == old(self).stream(),
            final(self).level() == old(self).level(),
    {
        if !self.closed {
            self.closed = true;
            self.log_stream.flush();
        }
    }
}

} // verus!
