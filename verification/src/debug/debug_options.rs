//! The names of the debug options and typed reading of their values.
use vstd::prelude::*;
use crate::text::{chars_of, owned, text_eq};

verus! {

/// The names of the debug options.
pub struct DebugOptions;

/// Looks up option values by name; implemented by the users of the options.
pub trait DebugOptionValues {
    /// The value of the named option, if it is set.
    spec fn option_value(&self, name: Seq<char>) -> Option<Seq<char>>;

    /// The value of the named option, if set.
    fn get(&self, name: &str) -> (r: Option<&str>)
        ensures
            match (r, self.option_value(name@)) {
                (Some(a), Some(b)) => a@ == b,
                (None, None) => true,
                _ => false,
            },
    ;
}

/// Whether a character is a decimal digit.
pub open spec fn is_digit(c: char) -> bool {
    '0' <= c && c <= '9'
}

/// The value of a string of decimal digits.
pub open spec fn digits_value(s: Seq<char>) -> int
    decreases s.len(),
{
    if s.len() == 0 {
        0
    } else {
        digits_value(s.drop_last()) * 10 + (s.last() as int - '0' as int)
    }
}

/// The integer a text denotes as a 64-bit signed integer: an optional `+` or
/// `-`, then one or more decimal digits, whose value fits in 64 bits.
pub open spec fn parsed_i64(s: Seq<char>) -> Option<int> {
    let body = number_body(s);
    if body.len() == 0 || !all_digits(body) {
        None
    } else {
        let v = if s[0] == '-' { -digits_value(body) } else { digits_value(body) };
        if i64::MIN <= v <= i64::MAX { Some(v) } else { None }
    }
}

/// A text without its leading sign, if it has one.
pub open spec fn number_body(s: Seq<char>) -> Seq<char> {
    if s.len() > 0 && (s[0] == '-' || s[0] == '+') { s.skip(1) } else { s }
}

/// Whether every character of a text is a decimal digit.
pub open spec fn all_digits(s: Seq<char>) -> bool {
    forall|i: int| 0 <= i < s.len() ==> is_digit(#[trigger] s[i])
}

/// A boolean option value: `true` or `True`.
pub open spec fn is_true_text(v: Seq<char>) -> bool {
    v == "true"@ || v == "True"@
}

proof fn lemma_digits_value_grows(s: Seq<char>, i: int, j: int)
    requires
        0 <= i <= j <= s.len(),
        forall|k: int| 0 <= k < s.len() ==> is_digit(#[trigger] s[k]),
    ensures
        0 <= digits_value(s.take(i)) <= digits_value(s.take(j)),
    decreases j,
{
    if j > 0 {
        assert(s.take(j).drop_last() =~= s.take(j - 1));
        if i < j {
            lemma_digits_value_grows(s, i, j - 1);
        } else {
            lemma_digits_value_grows(s, i - 1, j - 1);
        }
    }
}

/// The integer a text denotes, where it is a 64-bit signed integer in decimal.
pub fn parse_i64(text: &str) -> (r: Option<i64>)
    ensures
        match (r, parsed_i64(text@)) {
            (Some(a), Some(b)) => a == b,
            (None, None) => true,
            _ => false,
        },
{
    let s = chars_of(text);
    let negative = s.len() > 0 && s[0] == '-';
    let start: usize = if s.len() > 0 && (s[0] == '-' || s[0] == '+') { 1 } else { 0 };
    let ghost body = number_body(s@);
    assert(body =~= s@.skip(start as int));
    if start >= s.len() {
        return None;
    }
    let limit: u64 = 9223372036854775808u64;
    let mut acc: u64 = 0;
    let mut i: usize = start;
    while i < s.len()
        invariant
            start <= i <= s@.len(),
            s@ == text@,
            limit == 9223372036854775808u64,
            start == 1 <==> (s@.len() > 0 && (s@[0] == '-' || s@[0] == '+')),
            body == s@.skip(start as int),
            body == number_body(s@),
            forall|k: int| 0 <= k < i - start ==> is_digit(#[trigger] body[k]),
            acc == digits_value(body.take(i - start)),
            acc <= limit,
        decreases s.len() - i,
    {
        let c = s[i];
        if !('0' <= c && c <= '9') {
            assert(!is_digit(body[i - start]));
            return None;
        }
        let d: u64 = (c as u32 - '0' as u32) as u64;
        assert(d <= 9);
        assert(body.take(i - start + 1).drop_last() =~= body.take(i - start));
        if acc > (limit - d) / 10 {
            proof {
                assert(digits_value(body.take(i - start + 1)) > limit);
                if all_digits(body) {
                    lemma_digits_value_grows(body, i - start + 1, body.len() as int);
                    assert(body.take(body.len() as int) =~= body);
                }
            }
            return None;
        }
        acc = acc * 10 + d;
        i = i + 1;
    }
    assert(body.take(body.len() as int) =~= body);
    if negative {
        if acc == limit {
            Some(i64::MIN)
        } else {
            Some(-(acc as i64))
        }
    } else if acc == limit {
        None
    } else {
        Some(acc as i64)
    }
}

impl DebugOptions {
    /// The option that turns logging on.
    pub const LOG: &'static str = "Log";
    /// The option that filters the methods debugged.
    pub const FILTER: &'static str = "Filter";
    /// The option that turns method metering on.
    pub const METHOD_METER: &'static str = "MethodMeter";
    /// The option that turns timers on.
    pub const TIME: &'static str = "Time";
    /// The option that turns counters on.
    pub const COUNT: &'static str = "Count";
    /// The option that turns memory use tracking on.
    pub const TRACK_MEM_USE: &'static str = "TrackMemUse";
    /// The option that turns dumping on.
    pub const DUMP: &'static str = "Dump";
    /// The option that turns verification on.
    pub const VERIFY: &'static str = "Verify";
    /// The option that names the dump directory.
    pub const DUMP_PATH: &'static str = "DumpPath";
    /// The option that turns graph printing on.
    pub const PRINT_GRAPH: &'static str = "PrintGraph";
    /// The option that limits the number of dumps.
    pub const MAX_DUMPS: &'static str = "MaxDumps";
    /// The option that turns CSV output on.
    pub const CSV: &'static str = "CSV";
    /// The option that names the CSV directory.
    pub const CSV_DIR: &'static str = "CsvDir";

    /// The value the option values give a name, else `default`.
    pub fn string_value_of(value: Option<&str>, default: &str) -> (r: String)
        ensures
            r@ == match value {
                Some(v) => v@,
                None => default@,
            },
    {
        match value {
            Some(v) => owned(v),
            None => owned(default),
        }
    }

    /// A boolean read from an option value: true for `true` or `True`, false
    /// for any other value; `default` where there is no value.
    pub fn bool_value_of(value: Option<&str>, default: bool) -> (r: bool)
        ensures
            r == match value {
                Some(v) => is_true_text(v@),
                None => default,
            },
    {
        match value {
            Some(v) => text_eq(v, "true") || text_eq(v, "True"),
            None => default,
        }
    }

    /// An integer read from an option value: the integer it denotes, else
    /// `default` (also where there is no value).
    pub fn int_value_of(value: Option<&str>, default: i64) -> (r: i64)
        ensures
            r == match value {
                Some(v) => match parsed_i64(v@) {
                    Some(n) => n,
                    None => default as int,
                },
                None => default as int,
            },
    {
        match value {
            Some(v) => match parse_i64(v) {
                Some(n) => n,
                None => default,
            },
            None => default,
        }
    }

    /// The value of the named option, else `default`.
    pub fn get_string_value(option_values: &dyn DebugOptionValues, name: &str, default: &str) -> (r: String)
        ensures
            r@ == match option_values.option_value(name@) {
                Some(v) => v,
                None => default@,
            },
    {
        Self::string_value_of(option_values.get(name), default)
    }

    /// The named option as a boolean (see `bool_value_of`).
    pub fn get_bool_value(option_values: &dyn DebugOptionValues, name: &str, default: bool) -> (r: bool)
        ensures
            r == match option_values.option_value(name@) {
                Some(v) => is_true_text(v),
                None => default,
            },
    {
        Self::bool_value_of(option_values.get(name), default)
    }

    /// The named option as an integer (see `int_value_of`).
    pub fn get_int_value(option_values: &dyn DebugOptionValues, name: &str, default: i64) -> (r: i64)
        ensures
            r == match option_values.option_value(name@) {
                Some(v) => match parsed_i64(v) {
                    Some(n) => n,
                    None => default as int,
                },
                None => default as int,
            },
    {
        Self::int_value_of(option_values.get(name), default)
    }
}

} // verus!
