//! Filters that select the methods to debug by a pattern with `*` wildcards.
use vstd::prelude::*;
use crate::debug::debug_config::DebugFilterTrait;
use crate::debug::java_method_context::JavaMethodContext;
use crate::text::{
    chars_of, contains_chars, contains_seq, find_from, find_from_exec, lemma_find_from_some, occurs_at, owned,
    string_of,
};

verus! {

/// A method filter: a pattern, and whether it excludes the methods it matches
/// (written with a leading `~`).
pub struct DebugFilter {
    pattern: String,
    exclude: bool,
}

/// The parts of a pattern between its `*` wildcards, in order.
pub open spec fn star_parts(s: Seq<char>) -> Seq<Seq<char>>
    decreases s.len(),
{
    match find_from(s, seq!['*'], 0) {
        Some(k) => {
            proof {
                lemma_find_from_some(s, seq!['*'], 0);
            }
            seq![s.take(k)] + star_parts(s.skip(k + 1))
        },
        None => seq![s],
    }
}

/// Whether the parts occur in `rest` one after the other, each after the
/// end of the previous one. An empty part is skipped; an empty last part
/// matches whatever is left.
pub open spec fn parts_match(parts: Seq<Seq<char>>, rest: Seq<char>) -> bool
    decreases parts.len(),
{
    if parts.len() == 0 {
        true
    } else if parts[0].len() == 0 {
        parts.len() == 1 || parts_match(parts.skip(1), rest)
    } else {
        match find_from(rest, parts[0], 0) {
            Some(p) => parts_match(parts.skip(1), rest.skip(p + parts[0].len())),
            None => false,
        }
    }
}

/// Whether the parts can be placed in `rest` one after the other without
/// overlap: each non-empty part occurs at some position at or after the end
/// of the one before it; empty parts take no room.
pub open spec fn parts_fit(parts: Seq<Seq<char>>, rest: Seq<char>) -> bool
    decreases parts.len(),
{
    if parts.len() == 0 {
        true
    } else if parts[0].len() == 0 {
        parts_fit(parts.skip(1), rest)
    } else {
        exists|p: int| #[trigger] occurs_at(rest, parts[0], p) && parts_fit(parts.skip(1), rest.skip(p + parts[0].len()))
    }
}

/// Parts that fit after a later start fit after an earlier one.
proof fn lemma_parts_fit_earlier(parts: Seq<Seq<char>>, rest: Seq<char>, d: int)
    requires
        0 <= d <= rest.len(),
        parts_fit(parts, rest.skip(d)),
    ensures
        parts_fit(parts, rest),
    decreases parts.len(),
{
    if parts.len() > 0 {
        if parts[0].len() == 0 {
            lemma_parts_fit_earlier(parts.skip(1), rest, d);
        } else {
            let l = parts[0].len() as int;
            let p = choose|p: int| #[trigger] occurs_at(rest.skip(d), parts[0], p)
                && parts_fit(parts.skip(1), rest.skip(d).skip(p + l));
            assert(rest.skip(d).subrange(p, p + l) =~= rest.subrange(p + d, p + d + l));
            assert(rest.skip(d).skip(p + l) =~= rest.skip(p + d + l));
            assert(occurs_at(rest, parts[0], p + d));
        }
    }
}

/// The greedy matching of parts, each at its first occurrence, succeeds
/// exactly where the parts can be placed in order without overlap.
pub proof fn lemma_parts_match_fit(parts: Seq<Seq<char>>, rest: Seq<char>)
    ensures
        parts_match(parts, rest) == parts_fit(parts, rest),
    decreases parts.len(),
{
    if parts.len() > 0 {
        if parts[0].len() == 0 {
            lemma_parts_match_fit(parts.skip(1), rest);
        } else {
            let l = parts[0].len() as int;
            lemma_find_from_some(rest, parts[0], 0);
            match find_from(rest, parts[0], 0) {
                Some(f) => {
                    lemma_parts_match_fit(parts.skip(1), rest.skip(f + l));
                    if parts_fit(parts, rest) {
                        let p = choose|p: int| #[trigger] occurs_at(rest, parts[0], p)
                            && parts_fit(parts.skip(1), rest.skip(p + l));
                        assert(f <= p);
                        assert(rest.skip(f + l).skip(p - f) =~= rest.skip(p + l));
                        lemma_parts_fit_earlier(parts.skip(1), rest.skip(f + l), p - f);
                    }
                    if parts_match(parts, rest) {
                        assert(occurs_at(rest, parts[0], f));
                    }
                },
                None => {
                    if parts_fit(parts, rest) {
                        let p = choose|p: int| #[trigger] occurs_at(rest, parts[0], p)
                            && parts_fit(parts.skip(1), rest.skip(p + l));
                        assert(!occurs_at(rest, parts[0], p));
                    }
                },
            }
        }
    }
}

/// Whether a pattern matches an input: the empty pattern and `*` match
/// everything; a pattern with wildcards matches where its parts occur in
/// order; any other pattern matches where it occurs in the input.
pub open spec fn pattern_matches(pattern: Seq<char>, input: Seq<char>) -> bool {
    if pattern.len() == 0 || pattern == seq!['*'] {
        true
    } else if pattern.contains('*') {
        parts_match(star_parts(pattern), input)
    } else {
        contains_seq(input, pattern)
    }
}

/// The pattern a filter keeps for a written pattern: without a leading `~`.
pub open spec fn kept_pattern(written: Seq<char>) -> Seq<char> {
    if written.len() > 0 && written[0] == '~' { written.skip(1) } else { written }
}

fn star_parts_exec(s: &[char]) -> (r: Vec<Vec<char>>)
    ensures
        r@.len() == star_parts(s@).len(),
        forall|i: int| 0 <= i < r@.len() ==> (#[trigger] r@[i])@ == star_parts(s@)[i],
    decreases s.len(),
{
    let star = vec!['*'];
    assert(star@ =~= seq!['*']);
    match find_from_exec(s, star.as_slice(), 0) {
        Some(k) => {
            let mut first: Vec<char> = Vec::new();
            let mut i: usize = 0;
            while i < k
                invariant
                    i <= k < s@.len(),
                    first@ == s@.take(i as int),
                decreases k - i,
            {
                first.push(s[i]);
                assert(s@.take(i as int).push(s@[i as int]) =~= s@.take(i + 1));
                i = i + 1;
            }
            let mut rest: Vec<char> = Vec::new();
            let mut j: usize = k + 1;
            while j < s.len()
                invariant
                    k + 1 <= j <= s@.len(),
                    rest@ == s@.subrange(k + 1, j as int),
                decreases s.len() - j,
            {
                rest.push(s[j]);
                assert(s@.subrange(k + 1, j as int).push(s@[j as int]) =~= s@.subrange(k + 1, j + 1));
                j = j + 1;
            }
            assert(rest@ =~= s@.skip(k + 1));
            let tail = star_parts_exec(rest.as_slice());
            let mut r: Vec<Vec<char>> = Vec::new();
            r.push(first);
            let mut t: usize = 0;
            while t < tail.len()
                invariant
                    t <= tail@.len(),
                    r@.len() == t + 1,
                    r@[0]@ == s@.take(k as int),
                    tail@.len() == star_parts(rest@).len(),
                    forall|q: int| 0 <= q < tail@.len() ==> (#[trigger] tail@[q])@ == star_parts(rest@)[q],
                    forall|q: int| 1 <= q < r@.len() ==> (#[trigger] r@[q])@ == tail@[q - 1]@,
                decreases tail.len() - t,
            {
                r.push(tail[t].clone());
                t = t + 1;
            }
            r
        },
        None => {
            let mut whole: Vec<char> = Vec::new();
            let mut i: usize = 0;
            while i < s.len()
                invariant
                    i <= s@.len(),
                    whole@ == s@.take(i as int),
                decreases s.len() - i,
            {
                whole.push(s[i]);
                assert(s@.take(i as int).push(s@[i as int]) =~= s@.take(i + 1));
                i = i + 1;
            }
            assert(whole@ =~= s@);
            vec![whole]
        },
    }
}

fn skip_chars(s: &[char], n: usize) -> (r: Vec<char>)
    requires
        n <= s.len(),
    ensures
        r@ == s@.skip(n as int),
{
    let mut r: Vec<char> = Vec::new();
    let mut j: usize = n;
    while j < s.len()
        invariant
            n <= j <= s@.len(),
            r@ == s@.subrange(n as int, j as int),
        decreases s.len() - j,
    {
        r.push(s[j]);
        assert(s@.subrange(n as int, j as int).push(s@[j as int]) =~= s@.subrange(n as int, j + 1));
        j = j + 1;
    }
    assert(r@ =~= s@.skip(n as int));
    r
}

impl DebugFilter {
    /// The pattern of the filter, without the `~`.
    pub closed spec fn pattern_text(&self) -> Seq<char> {
        self.pattern@
    }

    /// Whether the filter excludes the methods it matches.
    pub closed spec fn excludes(&self) -> bool {
        self.exclude
    }

    /// A filter for the written pattern; a leading `~` makes it exclude.
    pub fn new(pattern: String) -> (r: Self)
        ensures
            r.excludes() == (pattern@.len() > 0 && pattern@[0] == '~'),
            r.pattern_text() == kept_pattern(pattern@),
    {
        let cs = chars_of(pattern.as_str());
        if cs.len() > 0 && cs[0] == '~' {
            let rest = skip_chars(cs.as_slice(), 1);
            DebugFilter { pattern: string_of(rest.as_slice()), exclude: true }
        } else {
            DebugFilter { pattern, exclude: false }
        }
    }

    /// The pattern of the filter.
    pub fn get_filter(&self) -> (r: &str)
        ensures
            r@ == self.pattern_text(),
    {
        self.pattern.as_str()
    }

    /// Whether the filter excludes the methods it matches.
    pub fn is_exclude(&self) -> (r: bool)
        ensures
            r == self.excludes(),
    {
        self.exclude
    }

    /// Whether the filter's pattern matches the input.
    pub fn matches_pattern(&self, input: &str) -> (r: bool)
        ensures
            r == pattern_matches(self.pattern_text(), input@),
    {
        let p = chars_of(self.pattern.as_str());
        let inp = chars_of(input);
        assert(p@ == self.pattern_text());
        if p.len() == 0 || (p.len() == 1 && p[0] == '*') {
            proof {
                if p@.len() == 1 && p@[0] == '*' {
                    assert(p@ =~= seq!['*']);
                }
            }
            return true;
        }
        proof {
            if p@ == seq!['*'] {
                assert(p@[0] == '*');
            }
        }
        let star = vec!['*'];
        assert(star@ =~= seq!['*']);
        let has_star = match find_from_exec(p.as_slice(), star.as_slice(), 0) {
            Some(k) => {
                assert(p@.subrange(k as int, k + 1) =~= seq!['*']);
                assert(p@[k as int] == p@.subrange(k as int, k + 1)[0]);
                true
            },
            None => {
                proof {
                    if p@.contains('*') {
                        let k = choose|k: int| 0 <= k < p@.len() && p@[k] == '*';
                        lemma_find_from_finds(p@, seq!['*'], 0, k);
                    }
                }
                false
            },
        };
        if !has_star {
            return contains_chars(inp.as_slice(), p.as_slice());
        }
        let parts = star_parts_exec(p.as_slice());
        let ghost all = star_parts(p@);
        let mut rest = inp;
        assert(all.skip(0) =~= all);
        assert(pattern_matches(self.pattern_text(), input@) == parts_match(all, input@));
        let mut i: usize = 0;
        while i < parts.len()
            invariant
                i <= parts@.len(),
                parts@.len() == all.len(),
                forall|q: int| 0 <= q < parts@.len() ==> (#[trigger] parts@[q])@ == all[q],
                parts_match(all.skip(i as int), rest@) == parts_match(all, input@),
                pattern_matches(self.pattern_text(), input@) == parts_match(all, input@),
            decreases parts.len() - i,
        {
            let ghost cur = all.skip(i as int);
            assert(cur[0] == all[i as int]);
            assert(cur.skip(1) =~= all.skip(i + 1));
            let part = &parts[i];
            assert(part@ == cur[0]);
            if part.len() == 0 {
                if i == parts.len() - 1 {
                    assert(cur.len() == 1);
                    return true;
                }
                i = i + 1;
                continue;
            }
            match find_from_exec(rest.as_slice(), part.as_slice(), 0) {
                Some(pos) => {
                    let n = rest.len();
                    assert(pos + part@.len() <= rest@.len());
                    rest = skip_chars(rest.as_slice(), pos + part.len());
                },
                None => {
                    return false;
                },
            }
            i = i + 1;
        }
        assert(all.skip(i as int).len() == 0);
        true
    }

    /// Whether the filter selects a method with the given name (or none):
    /// no name is never selected; otherwise the pattern's match, reversed
    /// for an excluding filter.
    pub fn selects_name(&self, name: Option<&str>) -> (r: bool)
        ensures
            r == match name {
                Some(n) => pattern_matches(self.pattern_text(), n@) != self.excludes(),
                None => false,
            },
    {
        let method_name = match name {
            Some(n) => n,
            None => return false,
        };
        let matched = self.matches_pattern(method_name);
        if self.exclude {
            !matched
        } else {
            matched
        }
    }
}

impl DebugFilter {
    /// Whether the filter selects the method a context is about (see
    /// `selects_name`).
    pub fn match_context<M: JavaMethodContext + ?Sized>(&self, method: &M) -> (r: bool)
        ensures
            r == match method.method_name() {
                Some(n) => pattern_matches(self.pattern_text(), n) != self.excludes(),
                None => false,
            },
    {
        self.selects_name(method.as_java_method())
    }
}

/// Where `pat` occurs at `k` at or after `from`, a first occurrence is found.
proof fn lemma_find_from_finds(s: Seq<char>, pat: Seq<char>, from: int, k: int)
    requires
        0 <= from <= k,
        occurs_at(s, pat, k) || (pat == seq!['*'] && 0 <= k < s.len() && s[k] == '*'),
    ensures
        find_from(s, pat, from) is Some,
    decreases k - from,
{
    if pat == seq!['*'] && 0 <= k < s.len() && s[k] == '*' {
        assert(s.subrange(k, k + 1) =~= pat);
    }
    if !occurs_at(s, pat, from) && from < k {
        lemma_find_from_finds(s, pat, from + 1, k);
    }
}

impl DebugFilterTrait for DebugFilter {
    /// No name is never selected; otherwise the pattern's match, reversed for
    /// an excluding filter.
    open spec fn selects(&self, name: Option<Seq<char>>) -> bool {
        match name {
            Some(n) => pattern_matches(self.pattern_text(), n) != self.excludes(),
            None => false,
        }
    }

    fn match_method(&self, method: &dyn JavaMethodContext) -> (r: bool) {
        self.match_context(method)
    }
}

impl Default for DebugFilter {
    fn default() -> (r: Self)
        ensures
            !r.excludes(),
            r.pattern_text() == seq!['*'],
    {
        let r = DebugFilter::new(owned("*"));
        proof {
            reveal_strlit("*");
        }
        r
    }
}

} // verus!
