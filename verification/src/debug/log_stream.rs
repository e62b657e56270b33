//! A log stream that indents its lines. The text written is held in the
//! stream until it is taken out to be sent to its target.
use vstd::prelude::*;
use crate::debug::indent::repeat;
use crate::text::{fill_placeholders, fill_placeholders_exec, owned, push_char, push_text};

verus! {

/// Where the text of a log stream goes.
#[derive(Debug, Clone, Copy, PartialEq, Eq, Structural)]
pub enum LogTarget {
    /// The standard output.
    StdOut,
    /// The standard error.
    StdErr,
    /// Kept by the stream until taken.
    Buffer,
}

/// A stream of log text with an indentation level.
pub struct LogStream {
    target: LogTarget,
    pending: String,
    indent: String,
    indent_level: usize,
    auto_flush: bool,
}

impl LogStream {
    /// The text written and not yet taken.
    pub closed spec fn written(&self) -> Seq<char> {
        self.pending@
    }

    /// The indentation level.
    pub closed spec fn level(&self) -> usize {
        self.indent_level
    }

    /// The text of one indentation level.
    pub closed spec fn unit(&self) -> Seq<char> {
        self.indent@
    }

    /// Where the text goes.
    pub closed spec fn destination(&self) -> LogTarget {
        self.target
    }

    /// Whether the text is flushed after each write.
    pub closed spec fn flushes(&self) -> bool {
        self.auto_flush
    }

    /// A stream to the given target, with nothing written, at level 0, two
    /// spaces per level.
    pub fn new(target: LogTarget) -> (r: Self)
        ensures
            r.destination() == target,
            r.written() == Seq::<char>::empty(),
            r.level() == 0,
            r.unit() == "  "@,
            !r.flushes(),
    {
        LogStream { target, pending: String::new(), indent: owned("  "), indent_level: 0, auto_flush: false }
    }

    /// A stream to the standard output.
    pub fn sys_out() -> (r: Self)
        ensures
            r.destination() == LogTarget::StdOut,
            r.written() == Seq::<char>::empty(),
            r.level() == 0,
            r.unit() == "  "@,
            !r.flushes(),
    {
        LogStream::new(LogTarget::StdOut)
    }

    /// A stream to the standard error.
    pub fn sys_err() -> (r: Self)
        ensures
            r.destination() == LogTarget::StdErr,
            r.written() == Seq::<char>::empty(),
            r.level() == 0,
            r.unit() == "  "@,
            !r.flushes(),
    {
        LogStream::new(LogTarget::StdErr)
    }

    /// Sets whether the text is flushed after each write.
    pub fn set_auto_flush(&mut self, auto_flush: bool)
        ensures
            final(self).flushes() == auto_flush,
            final(self).written() == old(self).written(),
            final(self).level() == old(self).level(),
            final(self).unit() == old(self).unit(),
            final(self).destination() == old(self).destination(),
    {
        self.auto_flush = auto_flush;
    }

    /// Where the text of this stream goes.
    pub fn target(&self) -> (r: LogTarget)
        ensures
            r == self.destination(),
    {
        self.target
    }

    /// Whether the text is flushed after each write.
    pub fn is_auto_flush(&self) -> (r: bool)
        ensures
            r == self.flushes(),
    {
        self.auto_flush
    }

    /// The indentation level.
    pub fn indent_level(&self) -> (r: usize)
        ensures
            r == self.level(),
    {
        self.indent_level
    }

    /// One level deeper.
    pub fn indent(&mut self)
        requires
            old(self).level() < usize::MAX,
        ensures
            final(self).level() == old(self).level() + 1,
            final(self).written() == old(self).written(),
            final(self).unit() == old(self).unit(),
            final(self).destination() == old(self).destination(),
            final(self).flushes() == old(self).flushes(),
    {
        self.indent_level = self.indent_level + 1;
    }

    /// One level up, not below 0.
    pub fn unindent(&mut self)
        ensures
            final(self).level() == if old(self).level() > 0 { old(self).level() - 1 } else { 0 },
            final(self).written() == old(self).written(),
            final(self).unit() == old(self).unit(),
            final(self).destination() == old(self).destination(),
            final(self).flushes() == old(self).flushes(),
    {
        if self.indent_level > 0 {
            self.indent_level = self.indent_level - 1;
        }
    }

    /// Writes the indentation of the current level.
    pub fn print_indent(&mut self)
        ensures
            final(self).written() == old(self).written() + repeat(old(self).unit(), old(self).level() as nat),
            final(self).level() == old(self).level(),
            final(self).unit() == old(self).unit(),
            final(self).destination() == old(self).destination(),
            final(self).flushes() == old(self).flushes(),
    {
        let mut i: usize = 0;
        while i < self.indent_level
            invariant
                i <= self.indent_level,
                self.indent_level == old(self).indent_level,
                self.indent == old(self).indent,
                self.target == old(self).target,
                self.auto_flush == old(self).auto_flush,
                self.pending@ == old(self).pending@ + repeat(self.indent@, i as nat),
            decreases self.indent_level - i,
        {
            let unit = self.indent.clone();
            push_text(&mut self.pending, unit.as_str());
            assert(old(self).pending@ + repeat(self.indent@, i as nat) + self.indent@
                =~= old(self).pending@ + repeat(self.indent@, (i + 1) as nat));
            i = i + 1;
        }
    }

    /// Writes `s`.
    pub fn print(&mut self, s: &str)
        ensures
            final(self).written() == old(self).written() + s@,
            final(self).level() == old(self).level(),
            final(self).unit() == old(self).unit(),
            final(self).destination() == old(self).destination(),
            final(self).flushes() == old(self).flushes(),
    {
        push_text(&mut self.pending, s);
    }

    /// Writes `s` and a newline.
    pub fn println(&mut self, s: &str)
        ensures
            final(self).written() == old(self).written() + s@ + seq!['\n'],
            final(self).level() == old(self).level(),
            final(self).unit() == old(self).unit(),
            final(self).destination() == old(self).destination(),
            final(self).flushes() == old(self).flushes(),
    {
        self.print(s);
        push_char(&mut self.pending, '\n');
    }

    /// Writes a newline.
    pub fn println_empty(&mut self)
        ensures
            final(self).written() == old(self).written() + seq!['\n'],
            final(self).level() == old(self).level(),
            final(self).unit() == old(self).unit(),
            final(self).destination() == old(self).destination(),
            final(self).flushes() == old(self).flushes(),
    {
        push_char(&mut self.pending, '\n');
    }

    /// Writes the indentation, then `s`.
    pub fn print_indented(&mut self, s: &str)
        ensures
            final(self).written() == old(self).written() + repeat(old(self).unit(), old(self).level() as nat) + s@,
            final(self).level() == old(self).level(),
            final(self).unit() == old(self).unit(),
            final(self).destination() == old(self).destination(),
            final(self).flushes() == old(self).flushes(),
    {
        self.print_indent();
        self.print(s);
    }

    /// Writes the indentation, `s` and a newline.
    pub fn println_indented(&mut self, s: &str)
        ensures
            final(self).written() == old(self).written() + repeat(old(self).unit(), old(self).level() as nat) + s@
                + seq!['\n'],
            final(self).level() == old(self).level(),
            final(self).unit() == old(self).unit(),
            final(self).destination() == old(self).destination(),
            final(self).flushes() == old(self).flushes(),
    {
        self.print_indent();
        self.println(s);
    }

    /// Writes `format` with its `{}` placeholders filled in turn by `args`.
    pub fn printf(&mut self, format: &str, args: &[&str])
        ensures
            final(self).written() == old(self).written() + fill_placeholders(format@, args@.map_values(|a: &str| a@)),
            final(self).level() == old(self).level(),
            final(self).unit() == old(self).unit(),
            final(self).destination() == old(self).destination(),
            final(self).flushes() == old(self).flushes(),
    {
        let text = fill_placeholders_exec(format, args);
        self.print(text.as_str());
    }

    /// Flushes the stream; the text stays until it is taken.
    pub fn flush(&mut self)
        ensures
            *final(self) == *old(self),
    {
    }

    /// Takes out the text written so far, to be sent to the target.
    pub fn take_output(&mut self) -> (r: String)
        ensures
            r@ == old(self).written(),
            final(self).written() == Seq::<char>::empty(),
            final(self).level() == old(self).level(),
            final(self).unit() == old(self).unit(),
            final(self).destination() == old(self).destination(),
            final(self).flushes() == old(self).flushes(),
    {
        let mut out = String::new();
        std::mem::swap(&mut out, &mut self.pending);
        out
    }
}

} // verus!
