//! Formatting of values as fields of a CSV file separated by `;`.
use vstd::prelude::*;
use crate::text::{
    chars_of, contains_chars, contains_seq, find_from, find_from_exec, occurs_at, owned, push_char,
    push_text, string_of_prefix,
};

verus! {

/// Helpers for writing CSV.
pub struct CsvUtil;

/// Whether a value has to be quoted: it holds the separator, a quote or a newline.
pub open spec fn needs_quotes(s: Seq<char>) -> bool {
    s.contains(';') || s.contains('"') || s.contains('\n')
}

/// The escaped form of one character inside a quoted field: a backslash or a
/// quote gets a backslash before it.
pub open spec fn escape_char(c: char) -> Seq<char> {
    if c == '\\' {
        seq!['\\', '\\']
    } else if c == '"' {
        seq!['\\', '"']
    } else {
        seq![c]
    }
}

/// The characters of a quoted field, each escaped.
pub open spec fn escape_body(s: Seq<char>) -> Seq<char>
    decreases s.len(),
{
    if s.len() == 0 {
        Seq::empty()
    } else {
        escape_body(s.drop_last()) + escape_char(s.last())
    }
}

/// A value as a CSV field: `""` for the empty value, the value quoted and
/// escaped where it needs quotes, else the value itself.
pub open spec fn csv_field(s: Seq<char>) -> Seq<char> {
    if s.len() == 0 {
        seq!['"', '"']
    } else if needs_quotes(s) {
        seq!['"'] + escape_body(s) + seq!['"']
    } else {
        s
    }
}

/// The fields joined by `;`.
pub open spec fn csv_line(values: Seq<Seq<char>>) -> Seq<char>
    decreases values.len(),
{
    if values.len() == 0 {
        Seq::empty()
    } else if values.len() == 1 {
        csv_field(values[0])
    } else {
        csv_line(values.drop_last()) + seq![';'] + csv_field(values.last())
    }
}

/// `s` with each `{}` filled in turn by the CSV field of the next argument.
pub open spec fn fill_fields(s: Seq<char>, args: Seq<Seq<char>>) -> Seq<char>
    decreases args.len(),
{
    if args.len() == 0 {
        s
    } else {
        fill_fields(
            match find_from(s, "{}"@, 0) {
                Some(p) => s.take(p) + csv_field(args[0]) + s.skip(p + 2),
                None => s,
            },
            args.skip(1),
        )
    }
}

fn has_char(cs: &[char], c: char) -> (r: bool)
    ensures
        r == cs@.contains(c),
{
    let mut i: usize = 0;
    while i < cs.len()
        invariant
            i <= cs.len(),
            forall|k: int| 0 <= k < i ==> cs@[k] != c,
        decreases cs.len() - i,
    {
        if cs[i] == c {
            return true;
        }
        i = i + 1;
    }
    false
}

impl CsvUtil {
    /// The field separator.
    pub const SEPARATOR: char = ';';
    /// The quote character.
    pub const QUOTE: char = '"';
    /// The escape character.
    pub const ESCAPE: char = '\\';

    /// A value as a CSV field: `""` for the empty value; a value holding the
    /// separator, a quote or a newline is quoted, with backslashes and quotes
    /// escaped by a backslash; any other value stays as it is.
    pub fn escape(value: &str) -> (r: String)
        ensures
            r@ == csv_field(value@),
    {
        let cs = chars_of(value);
        if cs.len() == 0 {
            let mut r = String::new();
            push_char(&mut r, Self::QUOTE);
            push_char(&mut r, Self::QUOTE);
            assert(r@ =~= seq!['"', '"']);
            return r;
        }
        if has_char(cs.as_slice(), Self::SEPARATOR) || has_char(cs.as_slice(), Self::QUOTE) || has_char(cs.as_slice(), '\n') {
            let mut r = String::new();
            push_char(&mut r, Self::QUOTE);
            let mut i: usize = 0;
            while i < cs.len()
                invariant
                    i <= cs@.len(),
                    r@ == seq!['"'] + escape_body(cs@.take(i as int)),
                decreases cs.len() - i,
            {
                let c = cs[i];
                if c == Self::ESCAPE {
                    push_char(&mut r, Self::ESCAPE);
                    push_char(&mut r, Self::ESCAPE);
                } else if c == Self::QUOTE {
                    push_char(&mut r, Self::ESCAPE);
                    push_char(&mut r, Self::QUOTE);
                } else {
                    push_char(&mut r, c);
                }
                assert(cs@.take(i + 1).drop_last() =~= cs@.take(i as int));
                assert(r@ =~= seq!['"'] + escape_body(cs@.take(i + 1)));
                i = i + 1;
            }
            push_char(&mut r, Self::QUOTE);
            assert(cs@.take(cs@.len() as int) =~= cs@);
            assert(r@ =~= seq!['"'] + escape_body(value@) + seq!['"']);
            r
        } else {
            owned(value)
        }
    }

    /// The values as CSV fields separated by `;`.
    pub fn format(values: &[&str]) -> (r: String)
        ensures
            r@ == csv_line(values@.map_values(|v: &str| v@)),
    {
        let ghost all = values@.map_values(|v: &str| v@);
        let mut r = String::new();
        let mut i: usize = 0;
        while i < values.len()
            invariant
                i <= values@.len(),
                all == values@.map_values(|v: &str| v@),
                r@ == csv_line(all.take(i as int)),
            decreases values.len() - i,
        {
            if i > 0 {
                push_char(&mut r, Self::SEPARATOR);
            }
            let field = Self::escape(values[i]);
            push_text(&mut r, field.as_str());
            assert(all.take(i + 1).drop_last() =~= all.take(i as int));
            assert(r@ =~= csv_line(all.take(i + 1)));
            i = i + 1;
        }
        assert(all.take(values.len() as int) =~= all);
        r
    }

    /// `format_str` with each `{}` filled in turn by the CSV field of the
    /// next argument; arguments left without a `{}` are dropped.
    pub fn build_format_string(format_str: &str, args: &[&str]) -> (r: String)
        ensures
            r@ == fill_fields(format_str@, args@.map_values(|a: &str| a@)),
    {
        let ghost all = args@.map_values(|a: &str| a@);
        let mut result = owned(format_str);
        let placeholder = chars_of("{}");
        proof {
            reveal_strlit("{}");
        }
        assert(all.skip(0) =~= all);
        let mut i: usize = 0;
        while i < args.len()
            invariant
                i <= args@.len(),
                all == args@.map_values(|a: &str| a@),
                placeholder@ == "{}"@,
                placeholder@.len() == 2,
                fill_fields(result@, all.skip(i as int)) == fill_fields(format_str@, all),
            decreases args.len() - i,
        {
            let cs = chars_of(result.as_str());
            let next = match find_from_exec(cs.as_slice(), placeholder.as_slice(), 0) {
                Some(p) => {
                    let escaped = Self::escape(args[i]);
                    let mut r = string_of_prefix(cs.as_slice(), p);
                    push_text(&mut r, escaped.as_str());
                    assert(occurs_at(cs@, placeholder@, p as int));
                    assert(p + placeholder.len() <= cs.len());
                    let mut j = p + placeholder.len();
                    while j < cs.len()
                        invariant
                            p + 2 <= j <= cs@.len(),
                            r@ == cs@.take(p as int) + escaped@ + cs@.subrange(p + 2, j as int),
                        decreases cs.len() - j,
                    {
                        push_char(&mut r, cs[j]);
                        assert(cs@.subrange(p + 2, j as int).push(cs@[j as int]) =~= cs@.subrange(p + 2, j + 1));
                        j = j + 1;
                    }
                    assert(cs@.subrange(p + 2, cs@.len() as int) =~= cs@.skip(p + 2));
                    r
                },
                None => result,
            };
            proof {
                assert(all.skip(i as int)[0] == args@[i as int]@);
                assert(all.skip(i as int).skip(1) =~= all.skip(i + 1));
            }
            result = next;
            i = i + 1;
        }
        assert(all.skip(args.len() as int).len() == 0);
        result
    }
}

} // verus!
