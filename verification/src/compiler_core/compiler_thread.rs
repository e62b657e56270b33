//! Compiler threads: daemon threads that run at the highest priority.
use vstd::prelude::*;
use crate::text::{decimal, owned, push_decimal, push_text};

verus! {

/// A compiler thread: a daemon thread at the highest priority, named after a
/// prefix and its identifier.
#[derive(Debug)]
pub struct CompilerThread {
    /// The prefix of the thread's name.
    pub name_prefix: String,
    /// The thread's name.
    pub thread_name: String,
    /// The thread's identifier.
    pub thread_id: u64,
    /// Whether the thread is a daemon.
    pub is_daemon: bool,
    /// The thread's priority.
    pub priority: i32,
    /// Whether the thread runs.
    pub running: bool,
}

impl Clone for CompilerThread {
    fn clone(&self) -> (r: Self)
        ensures
            r == *self,
    {
        CompilerThread {
            name_prefix: self.name_prefix.clone(),
            thread_name: self.thread_name.clone(),
            thread_id: self.thread_id,
            is_daemon: self.is_daemon,
            priority: self.priority,
            running: self.running,
        }
    }
}

/// The name of a thread: its prefix, `-` and its identifier in decimal.
pub open spec fn thread_name(prefix: Seq<char>, id: u64) -> Seq<char> {
    prefix + "-"@ + decimal(id as nat)
}

impl CompilerThread {
    /// The priority of compiler threads.
    pub const MAX_PRIORITY: i32 = 10;

    /// A daemon thread at the highest priority, named by the prefix alone,
    /// with identifier 0, not running.
    pub fn new(name_prefix: &str) -> (r: Self)
        ensures
            r.name_prefix@ == name_prefix@,
            r.thread_name@ == name_prefix@,
            r.thread_id == 0,
            r.is_daemon,
            r.priority == Self::MAX_PRIORITY,
            !r.running,
    {
        CompilerThread {
            name_prefix: owned(name_prefix),
            thread_name: owned(name_prefix),
            thread_id: 0,
            is_daemon: true,
            priority: Self::MAX_PRIORITY,
            running: false,
        }
    }

    /// A daemon thread at the highest priority with the given identifier,
    /// named `<prefix>-<id>`, not running.
    pub fn with_runnable(name_prefix: &str, thread_id: u64) -> (r: Self)
        ensures
            r.name_prefix@ == name_prefix@,
            r.thread_name@ == thread_name(name_prefix@, thread_id),
            r.thread_id == thread_id,
            r.is_daemon,
            r.priority == Self::MAX_PRIORITY,
            !r.running,
    {
        let mut name = owned(name_prefix);
        push_text(&mut name, "-");
        push_decimal(&mut name, thread_id);
        CompilerThread {
            name_prefix: owned(name_prefix),
            thread_name: name,
            thread_id,
            is_daemon: true,
            priority: Self::MAX_PRIORITY,
            running: false,
        }
    }

    /// Runs the thread: it is running from then on.
    pub fn run(&mut self)
        ensures
            *final(self) == (CompilerThread { running: true, ..*old(self) }),
    {
        self.running = true;
    }

    /// The thread's name.
    pub fn get_name(&self) -> (r: &str)
        ensures
            r@ == self.thread_name@,
    {
        self.thread_name.as_str()
    }

    /// The thread's priority.
    pub fn get_priority(&self) -> (r: i32)
        ensures
            r == self.priority,
    {
        self.priority
    }

    /// Whether the thread is a daemon.
    pub fn is_daemon(&self) -> (r: bool)
        ensures
            r == self.is_daemon,
    {
        self.is_daemon
    }

    /// Whether the thread runs.
    pub fn is_running(&self) -> (r: bool)
        ensures
            r == self.running,
    {
        self.running
    }
}

} // verus!
