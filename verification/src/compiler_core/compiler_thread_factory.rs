//! The facility that creates compiler threads.
use vstd::prelude::*;
use crate::compiler_core::compiler_thread::{thread_name, CompilerThread};
use crate::text::owned;

verus! {

/// Creates threads.
pub trait ThreadFactory {
    /// A new thread.
    fn new_thread(&self) -> CompilerThread;
}

/// Creates compiler threads named after a prefix, numbering them in turn.
#[derive(Debug)]
pub struct CompilerThreadFactory {
    /// The prefix of the threads' names.
    pub thread_name_prefix: String,
    /// The identifier of the next numbered thread.
    pub thread_counter: u64,
}

impl Clone for CompilerThreadFactory {
    fn clone(&self) -> (r: Self)
        ensures
            r == *self,
    {
        CompilerThreadFactory { thread_name_prefix: self.thread_name_prefix.clone(), thread_counter: self.thread_counter }
    }
}

impl CompilerThreadFactory {
    /// A factory for threads named after `thread_name_prefix`, numbering from 0.
    pub fn new(thread_name_prefix: &str) -> (r: Self)
        ensures
            r.thread_name_prefix@ == thread_name_prefix@,
            r.thread_counter == 0,
    {
        CompilerThreadFactory { thread_name_prefix: owned(thread_name_prefix), thread_counter: 0 }
    }

    /// A new thread numbered with the counter, which then moves on by one.
    pub fn new_thread_with_id(&mut self) -> (r: CompilerThread)
        requires
            old(self).thread_counter < u64::MAX,
        ensures
            final(self).thread_counter == old(self).thread_counter + 1,
            final(self).thread_name_prefix == old(self).thread_name_prefix,
            r.thread_id == old(self).thread_counter,
            r.name_prefix@ == old(self).thread_name_prefix@,
            r.thread_name@ == thread_name(old(self).thread_name_prefix@, old(self).thread_counter),
            r.is_daemon,
            r.priority == CompilerThread::MAX_PRIORITY,
            !r.running,
    {
        let id = self.thread_counter;
        self.thread_counter = self.thread_counter + 1;
        CompilerThread::with_runnable(self.thread_name_prefix.as_str(), id)
    }
}

impl ThreadFactory for CompilerThreadFactory {
    /// A thread named by the prefix alone.
    fn new_thread(&self) -> (r: CompilerThread)
        ensures
            r.name_prefix@ == self.thread_name_prefix@,
            r.thread_name@ == self.thread_name_prefix@,
            r.thread_id == 0,
            r.is_daemon,
            r.priority == CompilerThread::MAX_PRIORITY,
            !r.running,
    {
        CompilerThread::new(self.thread_name_prefix.as_str())
    }
}

} // verus!
