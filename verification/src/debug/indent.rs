//! Indentation levels and indented text.
use vstd::prelude::*;
use crate::text::{chars_of, find_from, find_from_exec, lemma_find_from_some, occurs_at, owned, push_char, push_text};

verus! {

/// `s` repeated `n` times.
pub open spec fn repeat(s: Seq<char>, n: nat) -> Seq<char>
    decreases n,
{
    if n == 0 { Seq::empty() } else { repeat(s, (n - 1) as nat) + s }
}

/// A line without the carriage return that ended it, if any.
pub open spec fn strip_cr(t: Seq<char>) -> Seq<char> {
    if t.len() > 0 && t.last() == '\r' { t.drop_last() } else { t }
}

/// The lines of a text: split after each newline (the newline, and a
/// carriage return before it, are dropped); a last line without newline is
/// kept as it is, and there is no empty line after a final newline.
pub open spec fn text_lines(s: Seq<char>) -> Seq<Seq<char>>
    decreases s.len(),
{
    if s.len() == 0 {
        Seq::empty()
    } else {
        match find_from(s, seq!['\n'], 0) {
            Some(k) => {
                proof {
                    lemma_find_from_some(s, seq!['\n'], 0);
                }
                seq![strip_cr(s.take(k))] + text_lines(s.skip(k + 1))
            },
            None => seq![s],
        }
    }
}

/// The lines, each after the prefix, joined by newlines; a newline is put
/// before a line only where something was written already.
pub open spec fn indented_lines(prefix: Seq<char>, lines: Seq<Seq<char>>) -> Seq<char>
    decreases lines.len(),
{
    if lines.len() == 0 {
        Seq::empty()
    } else {
        let a = indented_lines(prefix, lines.drop_last());
        (if a.len() > 0 { a.push('\n') } else { a }) + prefix + lines.last()
    }
}

/// An indentation: a level and the text repeated once per level.
pub struct Indent {
    level: usize,
    indent_str: String,
}

/// Undoes one indentation step when closed.
pub struct IndentGuard {
    old_level: usize,
}

impl IndentGuard {
    /// The level before the step.
    pub closed spec fn level_before(&self) -> usize {
        self.old_level
    }

    /// Undoes the step on `indent`.
    pub fn close(self, indent: &mut Indent)
        ensures
            final(indent).unit() == old(indent).unit(),
            final(indent).level() == if old(indent).level() > 0 { old(indent).level() - 1 } else { 0 },
    {
        indent.outdent();
    }
}

impl Indent {
    /// The default text of one indentation level.
    pub const DEFAULT_INDENTATION: &'static str = "  ";

    /// The current level.
    pub closed spec fn level(&self) -> usize {
        self.level
    }

    /// The text of one level.
    pub closed spec fn unit(&self) -> Seq<char> {
        self.indent_str@
    }

    /// Level 0, two spaces per level.
    pub fn new() -> (r: Self)
        ensures
            r.level() == 0,
            r.unit() == "  "@,
    {
        Indent { level: 0, indent_str: owned(Self::DEFAULT_INDENTATION) }
    }

    /// Level 0, with the given text per level.
    pub fn with_indent_str(indent_str: String) -> (r: Self)
        ensures
            r.level() == 0,
            r.unit() == indent_str@,
    {
        Indent { level: 0, indent_str }
    }

    /// The text of one level, repeated once per level.
    pub fn to_string(&self) -> (r: String)
        ensures
            r@ == repeat(self.unit(), self.level() as nat),
    {
        let mut r = String::new();
        let mut i: usize = 0;
        while i < self.level
            invariant
                i <= self.level,
                r@ == repeat(self.indent_str@, i as nat),
            decreases self.level - i,
        {
            push_text(&mut r, self.indent_str.as_str());
            i = i + 1;
        }
        r
    }

    /// Goes one level deeper and gives the level before.
    pub fn indent(&mut self) -> (r: usize)
        requires
            old(self).level() < usize::MAX,
        ensures
            r == old(self).level(),
            final(self).level() == old(self).level() + 1,
            final(self).unit() == old(self).unit(),
    {
        let old_level = self.level;
        self.level = old_level + 1;
        old_level
    }

    /// Goes one level up, not below 0.
    pub fn outdent(&mut self)
        ensures
            final(self).level() == if old(self).level() > 0 { old(self).level() - 1 } else { 0 },
            final(self).unit() == old(self).unit(),
    {
        if self.level > 0 {
            self.level = self.level - 1;
        }
    }

    /// The current level.
    pub fn get_level(&self) -> (r: usize)
        ensures
            r == self.level(),
    {
        self.level
    }

    /// Back to level 0.
    pub fn reset(&mut self)
        ensures
            final(self).level() == 0,
            final(self).unit() == old(self).unit(),
    {
        self.level = 0;
    }

    /// Goes one level deeper; the guard given back undoes it when closed.
    pub fn scoped_indent(&mut self) -> (r: IndentGuard)
        requires
            old(self).level() < usize::MAX,
        ensures
            r.level_before() == old(self).level(),
            final(self).level() == old(self).level() + 1,
            final(self).unit() == old(self).unit(),
    {
        let old_level = self.indent();
        IndentGuard { old_level }
    }
}

impl Default for Indent {
    fn default() -> (r: Self)
        ensures
            r.level() == 0,
            r.unit() == "  "@,
    {
        Indent::new()
    }
}

fn next_line(cs: &[char], start: usize) -> (r: (String, usize))
    requires
        start < cs.len(),
    ensures
        start < r.1 <= cs.len(),
        text_lines(cs@.skip(start as int)) == seq![r.0@] + text_lines(cs@.skip(r.1 as int)),
{
    let ghost rest = cs@.skip(start as int);
    let mut tail: Vec<char> = Vec::new();
    let mut j = start;
    while j < cs.len()
        invariant
            start <= j <= cs@.len(),
            tail@ == cs@.subrange(start as int, j as int),
        decreases cs.len() - j,
    {
        tail.push(cs[j]);
        assert(cs@.subrange(start as int, j as int).push(cs@[j as int]) =~= cs@.subrange(start as int, j + 1));
        j = j + 1;
    }
    assert(tail@ =~= rest);
    let newline = vec!['\n'];
    assert(newline@ =~= seq!['\n']);
    proof {
        lemma_find_from_some(rest, seq!['\n'], 0);
    }
    match find_from_exec(tail.as_slice(), newline.as_slice(), 0) {
        Some(k) => {
            assert(occurs_at(rest, seq!['\n'], k as int));
            let mut end = k;
            if end > 0 && tail[end - 1] == '\r' {
                end = end - 1;
            }
            let mut line = String::new();
            let mut q: usize = 0;
            while q < end
                invariant
                    q <= end <= tail@.len(),
                    line@ == tail@.take(q as int),
                decreases end - q,
            {
                push_char(&mut line, tail[q]);
                assert(tail@.take(q as int).push(tail@[q as int]) =~= tail@.take(q + 1));
                q = q + 1;
            }
            assert(line@ =~= strip_cr(rest.take(k as int)));
            assert(rest.skip(k + 1) =~= cs@.skip(start + k + 1));
            (line, start + k + 1)
        },
        None => {
            let mut line = String::new();
            let mut q: usize = 0;
            while q < tail.len()
                invariant
                    q <= tail@.len(),
                    line@ == tail@.take(q as int),
                decreases tail.len() - q,
            {
                push_char(&mut line, tail[q]);
                assert(tail@.take(q as int).push(tail@[q as int]) =~= tail@.take(q + 1));
                q = q + 1;
            }
            assert(line@ =~= rest);
            assert(cs@.skip(cs@.len() as int) =~= Seq::<char>::empty());
            assert(seq![rest] + Seq::<Seq<char>>::empty() =~= seq![rest]);
            (line, cs.len())
        },
    }
}

/// The text indented line by line: each line after the indentation, lines
/// joined by newlines.
pub fn indent_format(indent: &Indent, s: &str) -> (r: String)
    ensures
        r@ == indented_lines(repeat(indent.unit(), indent.level() as nat), text_lines(s@)),
{
    let prefix = indent.to_string();
    let cs = chars_of(s);
    let mut result = String::new();
    let mut start: usize = 0;
    let ghost mut done: Seq<Seq<char>> = Seq::empty();
    assert(cs@.skip(0) =~= cs@);
    assert(done + text_lines(cs@) =~= text_lines(cs@));
    while start < cs.len()
        invariant
            start <= cs@.len(),
            cs@ == s@,
            done + text_lines(cs@.skip(start as int)) == text_lines(s@),
            result@ == indented_lines(prefix@, done),
        decreases cs.len() - start,
    {
        let (line, next) = next_line(cs.as_slice(), start);
        if result.unicode_len() > 0 {
            push_char(&mut result, '\n');
        }
        push_text(&mut result, prefix.as_str());
        push_text(&mut result, line.as_str());
        proof {
            assert(done.push(line@).drop_last() =~= done);
            assert(done + (seq![line@] + text_lines(cs@.skip(next as int)))
                =~= done.push(line@) + text_lines(cs@.skip(next as int)));
            done = done.push(line@);
        }
        start = next;
    }
    proof {
        assert(cs@.skip(start as int) =~= Seq::<char>::empty());
        assert(done + Seq::<Seq<char>>::empty() =~= done);
    }
    result
}

} // verus!
