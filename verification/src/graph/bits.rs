//! Bits of 64-bit words, and counting of set flags.
use vstd::prelude::*;

verus! {

/// Whether bit `b` of `w` is set.
pub open spec fn get_bit(w: u64, b: u64) -> bool {
    (w >> b) & 1u64 == 1u64
}

/// The 64 bits of a word, lowest first.
pub open spec fn word_bits(w: u64) -> Seq<bool> {
    Seq::new(64, |b: int| get_bit(w, b as u64))
}

/// The number of set flags.
pub open spec fn count_true(s: Seq<bool>) -> nat
    decreases s.len(),
{
    if s.len() == 0 {
        0
    } else {
        count_true(s.drop_last()) + if s.last() { 1nat } else { 0nat }
    }
}

/// Setting bit `b` sets it and keeps the others.
pub proof fn lemma_set_bit(w: u64, b: u64, c: u64)
    requires
        b < 64,
        c < 64,
    ensures
        get_bit(w | (1u64 << b), c) == (c == b || get_bit(w, c)),
{
    assert(get_bit(w | (1u64 << b), c) == (c == b || get_bit(w, c))) by (bit_vector)
        requires
            b < 64,
            c < 64,
    ;
}

/// Clearing bit `b` clears it and keeps the others.
pub proof fn lemma_clear_bit(w: u64, b: u64, c: u64)
    requires
        b < 64,
        c < 64,
    ensures
        get_bit(w & !(1u64 << b), c) == (c != b && get_bit(w, c)),
{
    assert(get_bit(w & !(1u64 << b), c) == (c != b && get_bit(w, c))) by (bit_vector)
        requires
            b < 64,
            c < 64,
    ;
}

/// Masking with bit `b` tests it.
pub proof fn lemma_test_bit(w: u64, b: u64)
    requires
        b < 64,
    ensures
        ((w & (1u64 << b)) != 0) == get_bit(w, b),
{
    assert(((w & (1u64 << b)) != 0) == get_bit(w, b)) by (bit_vector)
        requires
            b < 64,
    ;
}

/// The bits of words combined bit by bit.
pub proof fn lemma_word_ops(x: u64, y: u64, c: u64)
    requires
        c < 64,
    ensures
        get_bit(x & y, c) == (get_bit(x, c) && get_bit(y, c)),
        get_bit(x | y, c) == (get_bit(x, c) || get_bit(y, c)),
        get_bit(!x, c) == !get_bit(x, c),
        !get_bit(0u64, c),
{
    assert(get_bit(x & y, c) == (get_bit(x, c) && get_bit(y, c))) by (bit_vector)
        requires
            c < 64,
    ;
    assert(get_bit(x | y, c) == (get_bit(x, c) || get_bit(y, c))) by (bit_vector)
        requires
            c < 64,
    ;
    assert(get_bit(!x, c) == !get_bit(x, c)) by (bit_vector)
        requires
            c < 64,
    ;
    assert(!get_bit(0u64, c)) by (bit_vector)
        requires
            c < 64,
    ;
}

/// Counting over a concatenation adds the counts.
pub proof fn lemma_count_concat(a: Seq<bool>, b: Seq<bool>)
    ensures
        count_true(a + b) == count_true(a) + count_true(b),
    decreases b.len(),
{
    if b.len() > 0 {
        assert((a + b).drop_last() =~= a + b.drop_last());
        lemma_count_concat(a, b.drop_last());
    } else {
        assert(a + b =~= a);
    }
}

/// Changing one flag changes the count by at most that flag.
pub proof fn lemma_count_update(s: Seq<bool>, i: int, v: bool)
    requires
        0 <= i < s.len(),
    ensures
        count_true(s.update(i, v)) + (if s[i] { 1int } else { 0int })
            == count_true(s) + (if v { 1int } else { 0int }),
    decreases s.len(),
{
    if i == s.len() - 1 {
        assert(s.update(i, v).drop_last() =~= s.drop_last());
    } else {
        assert(s.update(i, v).drop_last() =~= s.drop_last().update(i, v));
        lemma_count_update(s.drop_last(), i, v);
    }
}

/// No flag is set where none is true.
pub proof fn lemma_count_none(s: Seq<bool>)
    requires
        forall|i: int| 0 <= i < s.len() ==> !s[i],
    ensures
        count_true(s) == 0,
    decreases s.len(),
{
    if s.len() > 0 {
        lemma_count_none(s.drop_last());
    }
}

/// At most every flag is set.
pub proof fn lemma_count_bound(s: Seq<bool>)
    ensures
        count_true(s) <= s.len(),
    decreases s.len(),
{
    if s.len() > 0 {
        lemma_count_bound(s.drop_last());
    }
}

/// Negating every flag counts the flags that were clear.
pub proof fn lemma_count_negate(s: Seq<bool>, t: Seq<bool>)
    requires
        t.len() == s.len(),
        forall|i: int| 0 <= i < s.len() ==> t[i] == !s[i],
    ensures
        count_true(t) == s.len() - count_true(s),
    decreases s.len(),
{
    if s.len() > 0 {
        lemma_count_negate(s.drop_last(), t.drop_last());
    }
}

/// The number of set bits of a word.
pub fn popcount(w: u64) -> (r: u64)
    ensures
        r == count_true(word_bits(w)),
        r <= 64,
{
    let mut r: u64 = 0;
    let mut b: u64 = 0;
    while b < 64
        invariant
            b <= 64,
            r == count_true(word_bits(w).take(b as int)),
            r <= b,
        decreases 64 - b,
    {
        proof {
            lemma_test_bit(w, b);
            assert(word_bits(w).take(b + 1).drop_last() =~= word_bits(w).take(b as int));
        }
        if w & (1u64 << b) != 0 {
            r = r + 1;
        }
        b = b + 1;
    }
    assert(word_bits(w).take(64) =~= word_bits(w));
    r
}

} // verus!
