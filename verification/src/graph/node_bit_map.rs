//! A bit map that marks the nodes of a graph by their ids.
use vstd::prelude::*;
use crate::graph::bits::{
    count_true, get_bit, lemma_clear_bit, lemma_count_bound, lemma_count_concat, lemma_count_negate,
    lemma_count_none, lemma_count_update, lemma_set_bit, lemma_test_bit, lemma_word_ops, popcount, word_bits,
};

verus! {

/// The marks of words of 64 bits: flag `i` is bit `i % 64` of word `i / 64`.
pub open spec fn word_marks(ws: Seq<u64>) -> Seq<bool> {
    Seq::new((ws.len() * 64) as nat, |i: int| get_bit(ws[i / 64], (i % 64) as u64))
}

/// The marks of the first `k` words are those of one word fewer, then that word's bits.
proof fn lemma_word_marks_prefix(ws: Seq<u64>, k: int)
    requires
        0 <= k < ws.len(),
    ensures
        word_marks(ws).take(64 * (k + 1)) == word_marks(ws).take(64 * k) + word_bits(ws[k]),
{
    let m = word_marks(ws);
    assert forall|i: int| 0 <= i < 64 * (k + 1) implies #[trigger] m.take(64 * (k + 1))[i]
        == (m.take(64 * k) + word_bits(ws[k]))[i] by {
        if i >= 64 * k {
            assert(i / 64 == k && i % 64 == i - 64 * k) by (nonlinear_arith)
                requires
                    64 * k <= i < 64 * (k + 1),
            ;
        }
    }
    assert(m.take(64 * (k + 1)) =~= m.take(64 * k) + word_bits(ws[k]));
}

/// Which word and bit a flag is in.
proof fn lemma_word_of(i: int)
    requires
        0 <= i,
    ensures
        i == 64 * (i / 64) + i % 64,
        0 <= i % 64 < 64,
        0 <= i / 64,
{
    assert(i == 64 * (i / 64) + i % 64 && 0 <= i % 64 < 64 && 0 <= i / 64) by (nonlinear_arith)
        requires
            0 <= i,
    ;
}

/// Whether the id occurs among the ids.
pub open spec fn listed(ids: Seq<usize>, i: int) -> bool {
    exists|q: int| 0 <= q < ids.len() && ids[q] == i
}

/// An id occurs after a push where it occurred before or is the one pushed.
pub proof fn lemma_listed_push(ids: Seq<usize>, x: usize, i: int)
    ensures
        listed(ids.push(x), i) == (listed(ids, i) || i == x),
{
    if listed(ids, i) {
        let q = choose|q: int| 0 <= q < ids.len() && ids[q] == i;
        assert(ids.push(x)[q] == i);
    }
    if i == x {
        assert(ids.push(x)[ids.len() as int] == x);
    }
    if listed(ids.push(x), i) && i != x {
        let q = choose|q: int| 0 <= q < ids.push(x).len() && ids.push(x)[q] == i;
        assert(ids[q] == i);
    }
}

/// A bit map of node ids, kept in words of 64 bits, with a count of marks.
/// The count is kept by each operation; it equals the number of marked bits
/// as long as no operation mixes in a shorter map (see `consistent`).
#[derive(Debug)]
pub struct NodeBitMap {
    bits: Vec<u64>,
    size: usize,
    graph_id: usize,
    marked_count: usize,
}

impl Clone for NodeBitMap {
    fn clone(&self) -> (r: Self)
        ensures
            r.marks() == self.marks(),
            r.counted() == self.counted(),
            r.graph() == self.graph(),
            r.capacity() == self.capacity(),
    {
        self.copy()
    }
}

impl NodeBitMap {
    /// The number of bits in a word.
    pub const WORD_BITS: usize = 64;

    /// The flags of the map: one per bit, whether that id is marked.
    pub closed spec fn marks(&self) -> Seq<bool> {
        word_marks(self.bits@)
    }

    /// Whether the id is marked.
    pub open spec fn marked(&self, id: int) -> bool {
        0 <= id < self.marks().len() && self.marks()[id]
    }

    /// The count the map keeps.
    pub closed spec fn counted(&self) -> nat {
        self.marked_count as nat
    }

    /// The graph the map belongs to.
    pub closed spec fn graph(&self) -> usize {
        self.graph_id
    }

    /// The number of node ids the map was sized for.
    pub closed spec fn capacity(&self) -> usize {
        self.size
    }

    /// The number of words.
    pub closed spec fn words(&self) -> nat {
        self.bits@.len()
    }

    /// Whether the kept count is the number of marked ids.
    pub open spec fn consistent(&self) -> bool {
        self.counted() == count_true(self.marks())
    }

    #[verifier::type_invariant]
    closed spec fn fits(&self) -> bool {
        self.bits@.len() * 64 <= usize::MAX
    }

    /// A map for a graph with `node_count` ids: nothing marked, as many words
    /// as the ids need.
    pub fn new(graph_id: usize, node_count: usize) -> (r: Self)
        requires
            node_count <= usize::MAX - 64,
        ensures
            r.words() == (node_count + 63) / 64,
            forall|i: int| !r.marked(i),
            r.counted() == 0,
            r.consistent(),
            r.graph() == graph_id,
            r.capacity() == node_count,
    {
        let words = (node_count + Self::WORD_BITS - 1) / Self::WORD_BITS;
        let mut bits: Vec<u64> = Vec::new();
        let mut i: usize = 0;
        while i < words
            invariant
                i <= words,
                bits@.len() == i,
                forall|k: int| 0 <= k < i ==> bits@[k] == 0u64,
            decreases words - i,
        {
            bits.push(0u64);
            i = i + 1;
        }
        assert(words * 64 <= usize::MAX) by (nonlinear_arith)
            requires
                words == (node_count + 63) / 64,
                node_count <= usize::MAX - 64,
        ;
        let r = NodeBitMap { bits, size: node_count, graph_id, marked_count: 0 };
        proof {
            assert forall|i: int| 0 <= i < r.marks().len() implies !r.marks()[i] by {
                lemma_word_of(i);
                lemma_word_ops(0u64, 0u64, (i % 64) as u64);
            }
            lemma_count_none(r.marks());
        }
        r
    }

    /// Whether the id is marked (ids beyond the map are not).
    pub fn is_marked(&self, node_id: usize) -> (r: bool)
        ensures
            r == self.marked(node_id as int),
    {
        proof {
            use_type_invariant(self);
            lemma_word_of(node_id as int);
        }
        let word = node_id / Self::WORD_BITS;
        let bit = node_id % Self::WORD_BITS;
        if word < self.bits.len() {
            proof {
                lemma_test_bit(self.bits@[word as int], bit as u64);
            }
            (self.bits[word] & (1u64 << (bit as u64))) != 0
        } else {
            false
        }
    }

    /// Sets the bit of the id in its word, growing the map where the word is
    /// missing; the count moves up where the bit was clear.
    fn set_mark(&mut self, node_id: usize)
        requires
            node_id <= usize::MAX - 64,
            !old(self).marked(node_id as int) ==> old(self).counted() < usize::MAX,
        ensures
            forall|i: int| #[trigger] final(self).marked(i) == (i == node_id || old(self).marked(i)),
            final(self).counted() == old(self).counted() + if old(self).marked(node_id as int) { 0int } else { 1int },
            old(self).consistent() ==> final(self).consistent(),
            final(self).graph() == old(self).graph(),
            final(self).words() >= old(self).words(),
            final(self).words() == if (node_id / 64) < old(self).words() { old(self).words() as int } else { (node_id + 64) / 64 },
            old(self).words() > node_id / 64 ==> final(self).capacity() == old(self).capacity(),
    {
        proof {
            use_type_invariant(&*self);
            lemma_word_of(node_id as int);
        }
        let word = node_id / Self::WORD_BITS;
        let bit = node_id % Self::WORD_BITS;
        if word >= self.bits.len() {
            self.grow(node_id);
        }
        let ghost mid = *self;
        proof {
            use_type_invariant(&*self);
            let ghost wl = self.bits@.len();
            assert(node_id < 64 * wl) by (nonlinear_arith)
                requires
                    word < wl,
                    word == node_id / 64,
                    node_id == 64 * (node_id / 64) + node_id % 64,
                    node_id % 64 < 64,
            ;
            assert(self.marks()[node_id as int] == get_bit(self.bits@[word as int], bit as u64));
        }
        let ghost before = self.marks();
        let ghost cnt_before = count_true(before);
        let old_word = self.bits[word];
        let was_set = (old_word & (1u64 << (bit as u64))) != 0;
        proof {
            lemma_test_bit(old_word, bit as u64);
        }
        if !was_set {
            let new_word = old_word | (1u64 << (bit as u64));
            let mut bits: Vec<u64> = Vec::new();
            std::mem::swap(&mut bits, &mut self.bits);
            bits.set(word, new_word);
            proof {
                let ghost ws = bits@;
                assert forall|i: int| 0 <= i < word_marks(ws).len() implies #[trigger] word_marks(ws)[i]
                    == before.update(node_id as int, true)[i] by {
                    lemma_word_of(i);
                    if i / 64 == word as int {
                        lemma_set_bit(old_word, bit as u64, (i % 64) as u64);
                    }
                }
                assert(word_marks(ws) =~= before.update(node_id as int, true));
                lemma_count_update(before, node_id as int, true);
            }
            self.bits = bits;
            self.marked_count = self.marked_count + 1;
        }
        proof {
            assert forall|i: int| #[trigger] self.marked(i) == (i == node_id || old(self).marked(i)) by {
                assert(mid.marked(i) == old(self).marked(i));
            }
            assert(mid.marked(node_id as int) == old(self).marked(node_id as int));
        }
    }

    /// Marks the id; gives whether it was marked already.
    pub fn is_new_marked(&mut self, node_id: usize) -> (r: bool)
        requires
            node_id <= usize::MAX - 64,
            !old(self).marked(node_id as int) ==> old(self).counted() < usize::MAX,
        ensures
            r == old(self).marked(node_id as int),
            forall|i: int| #[trigger] final(self).marked(i) == (i == node_id || old(self).marked(i)),
            final(self).counted() == old(self).counted() + if r { 0int } else { 1int },
            old(self).consistent() ==> final(self).consistent(),
            final(self).graph() == old(self).graph(),
            final(self).words() >= old(self).words(),
    {
        let already = self.is_marked(node_id);
        self.set_mark(node_id);
        already
    }

    /// Marks the id.
    pub fn mark(&mut self, node_id: usize)
        requires
            node_id <= usize::MAX - 64,
            !old(self).marked(node_id as int) ==> old(self).counted() < usize::MAX,
        ensures
            forall|i: int| #[trigger] final(self).marked(i) == (i == node_id || old(self).marked(i)),
            final(self).counted() == old(self).counted() + if old(self).marked(node_id as int) { 0int } else { 1int },
            old(self).consistent() ==> final(self).consistent(),
            final(self).graph() == old(self).graph(),
            final(self).words() >= old(self).words(),
    {
        self.set_mark(node_id);
    }

    /// Unmarks the id; the count moves down where it was marked.
    pub fn clear(&mut self, node_id: usize)
        requires
            old(self).marked(node_id as int) ==> old(self).counted() > 0,
        ensures
            forall|i: int| #[trigger] final(self).marked(i) == (i != node_id && old(self).marked(i)),
            final(self).counted() == old(self).counted() - if old(self).marked(node_id as int) { 1int } else { 0int },
            old(self).consistent() ==> final(self).consistent(),
            final(self).graph() == old(self).graph(),
            final(self).words() == old(self).words(),
            final(self).capacity() == old(self).capacity(),
    {
        proof {
            use_type_invariant(&*self);
            lemma_word_of(node_id as int);
        }
        let word = node_id / Self::WORD_BITS;
        let bit = node_id % Self::WORD_BITS;
        if word < self.bits.len() {
            let ghost before = self.marks();
            let old_word = self.bits[word];
            proof {
                lemma_test_bit(old_word, bit as u64);
            }
            if (old_word & (1u64 << (bit as u64))) != 0 {
                let new_word = old_word & !(1u64 << (bit as u64));
                let mut bits: Vec<u64> = Vec::new();
                std::mem::swap(&mut bits, &mut self.bits);
                bits.set(word, new_word);
                proof {
                    let ghost ws = bits@;
                    assert forall|i: int| 0 <= i < word_marks(ws).len() implies #[trigger] word_marks(ws)[i]
                        == before.update(node_id as int, false)[i] by {
                        lemma_word_of(i);
                        if i / 64 == word as int {
                            lemma_clear_bit(old_word, bit as u64, (i % 64) as u64);
                        }
                    }
                    assert(word_marks(ws) =~= before.update(node_id as int, false));
                    lemma_count_update(before, node_id as int, false);
                }
                self.bits = bits;
                self.marked_count = self.marked_count - 1;
            }
        }
    }

    /// Unmarks every id.
    pub fn clear_all(&mut self)
        ensures
            forall|i: int| !final(self).marked(i),
            final(self).counted() == 0,
            final(self).consistent(),
            final(self).graph() == old(self).graph(),
            final(self).words() == old(self).words(),
            final(self).capacity() == old(self).capacity(),
    {
        proof {
            use_type_invariant(&*self);
        }
        let mut bits: Vec<u64> = Vec::new();
        std::mem::swap(&mut bits, &mut self.bits);
        let n = bits.len();
        let mut i: usize = 0;
        while i < n
            invariant
                i <= n,
                bits@.len() == n,
                forall|k: int| 0 <= k < i ==> bits@[k] == 0u64,
            decreases n - i,
        {
            bits.set(i, 0u64);
            i = i + 1;
        }
        proof {
            assert forall|j: int| 0 <= j < word_marks(bits@).len() implies !word_marks(bits@)[j] by {
                lemma_word_of(j);
                lemma_word_ops(0u64, 0u64, (j % 64) as u64);
            }
            lemma_count_none(word_marks(bits@));
        }
        self.bits = bits;
        self.marked_count = 0;
    }

    /// Makes room for the id: adds clear words up to the one that holds it;
    /// the map is then sized for the ids up to it. Nothing changes where the
    /// word is there already.
    pub fn grow(&mut self, node_id: usize)
        requires
            node_id <= usize::MAX - 64,
        ensures
            forall|i: int| #[trigger] final(self).marked(i) == old(self).marked(i),
            final(self).counted() == old(self).counted(),
            old(self).consistent() ==> final(self).consistent(),
            final(self).graph() == old(self).graph(),
            final(self).words() == if (node_id + 64) / 64 > old(self).words() { (node_id + 64) / 64 } else { old(self).words() as int },
            (node_id + 64) / 64 > old(self).words() ==> final(self).capacity() == node_id + 1,
            (node_id + 64) / 64 <= old(self).words() ==> final(self).capacity() == old(self).capacity(),
    {
        proof {
            use_type_invariant(&*self);
        }
        let new_words = (node_id + Self::WORD_BITS) / Self::WORD_BITS;
        if new_words > self.bits.len() {
            let ghost before = self.marks();
            let mut bits: Vec<u64> = Vec::new();
            std::mem::swap(&mut bits, &mut self.bits);
            let old_len = bits.len();
            while bits.len() < new_words
                invariant
                    old_len <= bits@.len() <= new_words,
                    bits@.take(old_len as int) == old(self).bits@,
                    forall|k: int| old_len <= k < bits@.len() ==> bits@[k] == 0u64,
                decreases new_words - bits@.len(),
            {
                bits.push(0u64);
                assert(bits@.take(old_len as int) =~= old(self).bits@);
            }
            assert(new_words * 64 <= usize::MAX) by (nonlinear_arith)
                requires
                    new_words == (node_id + 64) / 64,
                    node_id <= usize::MAX - 64,
            ;
            proof {
                let m = word_marks(bits@);
                let tail = m.skip(before.len() as int);
                assert forall|i: int| 0 <= i < m.len() implies #[trigger] m[i] == (i < before.len() && before[i]) by {
                    lemma_word_of(i);
                    if i >= before.len() {
                        assert(i / 64 >= old_len) by (nonlinear_arith)
                            requires
                                i >= old_len * 64,
                                i == 64 * (i / 64) + i % 64,
                                0 <= i % 64 < 64,
                        ;
                        lemma_word_ops(0u64, 0u64, (i % 64) as u64);
                    } else {
                        assert(i / 64 < old_len) by (nonlinear_arith)
                            requires
                                i < old_len * 64,
                                i == 64 * (i / 64) + i % 64,
                                0 <= i % 64 < 64,
                        ;
                        assert(bits@[i / 64] == old(self).bits@[i / 64]);
                    }
                }
                assert(m =~= before + tail);
                assert forall|j: int| 0 <= j < tail.len() implies !tail[j] by {
                    assert(tail[j] == m[j + before.len()]);
                }
                lemma_count_none(tail);
                lemma_count_concat(before, tail);
            }
            self.bits = bits;
            self.size = node_id + 1;
        }
    }

    /// The kept count of marks.
    pub fn count(&self) -> (r: usize)
        ensures
            r == self.counted(),
    {
        self.marked_count
    }

    /// Whether the kept count is above zero.
    pub fn is_not_empty(&self) -> (r: bool)
        ensures
            r == (self.counted() > 0),
    {
        self.marked_count > 0
    }

    /// Whether the kept count is zero.
    pub fn is_empty(&self) -> (r: bool)
        ensures
            r == (self.counted() == 0),
    {
        self.marked_count == 0
    }

    /// The marks of the words that both maps have, combined by `op` word by
    /// word into this map's first words; the count becomes the number of
    /// marks in those words. `op` 0 keeps the common marks, 1 adds the other
    /// map's marks, 2 takes the other map's marks.
    fn combine(&mut self, other: &NodeBitMap, len: usize, op: u8)
        requires
            len <= old(self).words(),
            len <= other.words(),
            op < 3,
        ensures
            final(self).words() == old(self).words(),
            final(self).graph() == old(self).graph(),
            final(self).capacity() == old(self).capacity(),
            forall|i: int| #[trigger] final(self).marked(i) == if 0 <= i < 64 * len {
                if op == 0 { old(self).marked(i) && other.marked(i) }
                else if op == 1 { old(self).marked(i) || other.marked(i) }
                else { other.marked(i) }
            } else {
                old(self).marked(i)
            },
            final(self).counted() == count_true(final(self).marks().take(64 * len)),
    {
        proof {
            use_type_invariant(&*self);
            use_type_invariant(other);
        }
        let mut bits: Vec<u64> = Vec::new();
        std::mem::swap(&mut bits, &mut self.bits);
        let mut count: usize = 0;
        let mut i: usize = 0;
        assert(word_marks(bits@).take(0) =~= Seq::<bool>::empty());
        while i < len
            invariant
                i <= len,
                len <= old(self).bits@.len(),
                len <= other.bits@.len(),
                old(self).bits@.len() * 64 <= usize::MAX,
                bits@.len() == old(self).bits@.len(),
                op < 3,
                forall|k: int| i <= k < bits@.len() ==> bits@[k] == old(self).bits@[k],
                forall|k: int, c: u64| 0 <= k < i && c < 64 ==> #[trigger] get_bit(bits@[k], c) == if op == 0 {
                    get_bit(old(self).bits@[k], c) && get_bit(other.bits@[k], c)
                } else if op == 1 {
                    get_bit(old(self).bits@[k], c) || get_bit(other.bits@[k], c)
                } else {
                    get_bit(other.bits@[k], c)
                },
                count == count_true(word_marks(bits@).take(64 * i)),
                count <= 64 * i,
            decreases len - i,
        {
            let a = bits[i];
            let b = other.bits[i];
            let w = if op == 0 { a & b } else if op == 1 { a | b } else { b };
            proof {
                assert forall|c: u64| c < 64 implies #[trigger] get_bit(w, c) == if op == 0 {
                    get_bit(a, c) && get_bit(b, c)
                } else if op == 1 {
                    get_bit(a, c) || get_bit(b, c)
                } else {
                    get_bit(b, c)
                } by {
                    lemma_word_ops(a, b, c);
                }
            }
            let ghost prev = bits@;
            bits.set(i, w);
            let pc = popcount(w);
            proof {
                assert(word_marks(bits@).take(64 * i) =~= word_marks(prev).take(64 * i)) by {
                    assert forall|j: int| 0 <= j < 64 * i implies #[trigger] word_marks(bits@)[j] == word_marks(prev)[j] by {
                        lemma_word_of(j);
                        assert(j / 64 < i) by (nonlinear_arith)
                            requires
                                j < 64 * i,
                                j == 64 * (j / 64) + j % 64,
                                0 <= j % 64 < 64,
                        ;
                    }
                }
                lemma_word_marks_prefix(bits@, i as int);
                lemma_count_concat(word_marks(bits@).take(64 * i), word_bits(w));
                let ghost ol = old(self).bits@.len();
                assert(64 * (i + 1) <= usize::MAX) by (nonlinear_arith)
                    requires
                        i < len,
                        len <= ol,
                        ol * 64 <= usize::MAX,
                ;
            }
            count = count + pc as usize;
            i = i + 1;
        }
        proof {
            assert forall|j: int| 0 <= j < word_marks(bits@).len() implies #[trigger] word_marks(bits@)[j] == if j < 64 * len {
                if op == 0 { old(self).marked(j) && other.marked(j) }
                else if op == 1 { old(self).marked(j) || other.marked(j) }
                else { other.marked(j) }
            } else {
                old(self).marked(j)
            } by {
                lemma_word_of(j);
                if j < 64 * len {
                    assert(j / 64 < len) by (nonlinear_arith)
                        requires
                            j < 64 * len,
                            j == 64 * (j / 64) + j % 64,
                            0 <= j % 64 < 64,
                    ;
                    assert(get_bit(bits@[j / 64], (j % 64) as u64) == if op == 0 {
                        get_bit(old(self).bits@[j / 64], (j % 64) as u64) && get_bit(other.bits@[j / 64], (j % 64) as u64)
                    } else if op == 1 {
                        get_bit(old(self).bits@[j / 64], (j % 64) as u64) || get_bit(other.bits@[j / 64], (j % 64) as u64)
                    } else {
                        get_bit(other.bits@[j / 64], (j % 64) as u64)
                    });
                    assert(64 * other.bits@.len() == other.marks().len());
                } else {
                    assert(j / 64 >= len) by (nonlinear_arith)
                        requires
                            j >= 64 * len,
                            j == 64 * (j / 64) + j % 64,
                            0 <= j % 64 < 64,
                    ;
                }
            }
        }
        self.bits = bits;
        self.marked_count = count;
    }

    /// Clears every word from `from` on; the marks before it stay.
    fn clear_words_from(&mut self, from: usize)
        requires
            from <= old(self).words(),
        ensures
            final(self).words() == old(self).words(),
            final(self).graph() == old(self).graph(),
            final(self).capacity() == old(self).capacity(),
            final(self).counted() == old(self).counted(),
            final(self).marks().take(64 * from) == old(self).marks().take(64 * from),
            forall|i: int| #[trigger] final(self).marked(i) == (i < 64 * from && old(self).marked(i)),
            count_true(final(self).marks()) == count_true(final(self).marks().take(64 * from)),
    {
        proof {
            use_type_invariant(&*self);
        }
        let mut bits: Vec<u64> = Vec::new();
        std::mem::swap(&mut bits, &mut self.bits);
        let n = bits.len();
        let mut i: usize = from;
        while i < n
            invariant
                from <= i <= n,
                n == old(self).bits@.len(),
                bits@.len() == n,
                forall|k: int| 0 <= k < from ==> bits@[k] == old(self).bits@[k],
                forall|k: int| from <= k < i ==> bits@[k] == 0u64,
            decreases n - i,
        {
            bits.set(i, 0u64);
            i = i + 1;
        }
        proof {
            let m = word_marks(bits@);
            let om = word_marks(old(self).bits@);
            assert forall|j: int| 0 <= j < m.len() implies m[j] == (j < 64 * from && om[j]) by {
                lemma_word_of(j);
                if j < 64 * from {
                    assert(j / 64 < from) by (nonlinear_arith)
                        requires
                            j < 64 * from,
                            j == 64 * (j / 64) + j % 64,
                            0 <= j % 64 < 64,
                    ;
                } else {
                    assert(j / 64 >= from) by (nonlinear_arith)
                        requires
                            j >= 64 * from,
                            j == 64 * (j / 64) + j % 64,
                            0 <= j % 64 < 64,
                    ;
                    lemma_word_ops(0u64, 0u64, (j % 64) as u64);
                }
            }
            assert(m.take(64 * from) =~= om.take(64 * from));
            let rest = m.skip(64 * from);
            assert(m =~= m.take(64 * from) + rest);
            assert forall|j: int| 0 <= j < rest.len() implies !rest[j] by {
                assert(rest[j] == m[j + 64 * from]);
            }
            lemma_count_none(rest);
            lemma_count_concat(m.take(64 * from), rest);
        }
        self.bits = bits;
    }

    /// Keeps exactly the marks that both maps have: an id is marked where
    /// both mark it; the count is the number of marks.
    pub fn intersect(&mut self, other: &NodeBitMap)
        ensures
            final(self).words() == old(self).words(),
            final(self).graph() == old(self).graph(),
            forall|i: int| #[trigger] final(self).marked(i) == (old(self).marked(i) && other.marked(i)),
            final(self).consistent(),
    {
        let len = if self.bits.len() < other.bits.len() { self.bits.len() } else { other.bits.len() };
        self.combine(other, len, 0);
        let ghost mid = *self;
        self.clear_words_from(len);
        proof {
            assert(self.marks().take(64 * len) == mid.marks().take(64 * len));
            assert forall|i: int| #[trigger] self.marked(i) == (old(self).marked(i) && other.marked(i)) by {
                if i >= 64 * len && 0 <= i {
                    if len == old(self).words() {
                        assert(!old(self).marked(i));
                    } else {
                        assert(!other.marked(i));
                    }
                }
            }
        }
    }

    /// Grows this map to at least the other map's words, filling them.
    fn grow_words(&mut self, words: usize)
        requires
            words * 64 <= usize::MAX,
        ensures
            final(self).words() == if words > old(self).words() { words as nat } else { old(self).words() },
            forall|i: int| #[trigger] final(self).marked(i) == old(self).marked(i),
            final(self).counted() == old(self).counted(),
            final(self).graph() == old(self).graph(),
            final(self).capacity() == old(self).capacity(),
    {
        proof {
            use_type_invariant(&*self);
        }
        if self.bits.len() < words {
            let mut bits: Vec<u64> = Vec::new();
            std::mem::swap(&mut bits, &mut self.bits);
            let old_len = bits.len();
            while bits.len() < words
                invariant
                    old_len <= bits@.len() <= words,
                    bits@.take(old_len as int) == old(self).bits@,
                    forall|k: int| old_len <= k < bits@.len() ==> bits@[k] == 0u64,
                decreases words - bits@.len(),
            {
                bits.push(0u64);
                assert(bits@.take(old_len as int) =~= old(self).bits@);
            }
            proof {
                assert forall|i: int| 0 <= i < word_marks(bits@).len() implies #[trigger] word_marks(bits@)[i]
                    == (i < word_marks(old(self).bits@).len() && word_marks(old(self).bits@)[i]) by {
                    lemma_word_of(i);
                    if i / 64 >= old_len {
                        lemma_word_ops(0u64, 0u64, (i % 64) as u64);
                        assert(i >= old_len * 64) by (nonlinear_arith)
                            requires
                                i / 64 >= old_len,
                                i == 64 * (i / 64) + i % 64,
                                0 <= i % 64,
                        ;
                    } else {
                        assert(i < old_len * 64) by (nonlinear_arith)
                            requires
                                i / 64 < old_len,
                                i == 64 * (i / 64) + i % 64,
                                i % 64 < 64,
                        ;
                        assert(bits@[i / 64] == old(self).bits@[i / 64]);
                    }
                }
            }
            self.bits = bits;
        }
    }

    /// Takes the other map's marks over its words (growing this map to them);
    /// the count becomes the number of marks in those words.
    pub fn set_all(&mut self, other: &NodeBitMap)
        ensures
            final(self).words() == if other.words() > old(self).words() { other.words() } else { old(self).words() },
            final(self).graph() == old(self).graph(),
            forall|i: int| #[trigger] final(self).marked(i) == if 0 <= i < 64 * other.words() {
                other.marked(i)
            } else {
                old(self).marked(i)
            },
            old(self).words() <= other.words() ==> final(self).consistent(),
    {
        proof {
            use_type_invariant(other);
        }
        let len = other.bits.len();
        self.grow_words(len);
        self.combine(other, len, 2);
        proof {
            if old(self).bits@.len() <= other.bits@.len() {
                assert(self.marks().take(64 * len) =~= self.marks());
            }
        }
    }

    /// Adds the other map's marks over its words (growing this map to them);
    /// the count becomes the number of marks in those words.
    pub fn union(&mut self, other: &NodeBitMap)
        ensures
            final(self).words() == if other.words() > old(self).words() { other.words() } else { old(self).words() },
            final(self).graph() == old(self).graph(),
            forall|i: int| #[trigger] final(self).marked(i) == (old(self).marked(i) || (0 <= i < 64 * other.words()
                && other.marked(i))),
            old(self).words() <= other.words() ==> final(self).consistent(),
    {
        proof {
            use_type_invariant(other);
        }
        let len = other.bits.len();
        self.grow_words(len);
        self.combine(other, len, 1);
        proof {
            if old(self).bits@.len() <= other.bits@.len() {
                assert(self.marks().take(64 * len) =~= self.marks());
            }
        }
    }

    /// Flips every bit of every word; the count becomes the number of bits
    /// less the old count.
    pub fn invert(&mut self)
        requires
            old(self).counted() <= old(self).words() * 64,
        ensures
            final(self).words() == old(self).words(),
            final(self).graph() == old(self).graph(),
            final(self).capacity() == old(self).capacity(),
            forall|i: int| 0 <= i < 64 * old(self).words() ==> #[trigger] final(self).marked(i) == !old(self).marked(i),
            final(self).counted() == old(self).words() * 64 - old(self).counted(),
            old(self).consistent() ==> final(self).consistent(),
    {
        proof {
            use_type_invariant(&*self);
        }
        let mut bits: Vec<u64> = Vec::new();
        std::mem::swap(&mut bits, &mut self.bits);
        let n = bits.len();
        let mut i: usize = 0;
        while i < n
            invariant
                i <= n,
                bits@.len() == n,
                n == old(self).bits@.len(),
                forall|k: int| i <= k < n ==> bits@[k] == old(self).bits@[k],
                forall|k: int| 0 <= k < i ==> bits@[k] == !old(self).bits@[k],
            decreases n - i,
        {
            let w = bits[i];
            bits.set(i, !w);
            i = i + 1;
        }
        proof {
            let m = word_marks(bits@);
            let o = word_marks(old(self).bits@);
            assert forall|j: int| 0 <= j < m.len() implies #[trigger] m[j] == !o[j] by {
                lemma_word_of(j);
                lemma_word_ops(old(self).bits@[j / 64], 0u64, (j % 64) as u64);
            }
            lemma_count_negate(o, m);
            lemma_count_bound(o);
        }
        self.bits = bits;
        self.marked_count = n * Self::WORD_BITS - self.marked_count;
    }

    /// A copy of the map.
    pub fn copy(&self) -> (r: Self)
        ensures
            r.marks() == self.marks(),
            r.counted() == self.counted(),
            r.graph() == self.graph(),
            r.capacity() == self.capacity(),
            r.words() == self.words(),
    {
        proof {
            use_type_invariant(self);
        }
        NodeBitMap { bits: self.bits.clone(), size: self.size, graph_id: self.graph_id, marked_count: self.marked_count }
    }

    /// The same as `intersect`.
    pub fn and(&mut self, other: &NodeBitMap)
        ensures
            final(self).words() == old(self).words(),
            final(self).graph() == old(self).graph(),
            forall|i: int| #[trigger] final(self).marked(i) == (old(self).marked(i) && other.marked(i)),
            final(self).consistent(),
    {
        self.intersect(other)
    }

    /// The graph the map belongs to.
    pub fn graph_id(&self) -> (r: usize)
        ensures
            r == self.graph(),
    {
        self.graph_id
    }

    /// A walk over the marked ids, in ascending order.
    pub fn iter_marked(&self) -> (r: NodeBitMapIter<'_>)
        ensures
            r.map() == *self,
            r.position() == 0,
    {
        NodeBitMapIter { bitmap: self, word_idx: 0, bit_idx: 0 }
    }
}

/// A walk over the marked ids of a bit map, in ascending order.
#[derive(Debug)]
pub struct NodeBitMapIter<'a> {
    bitmap: &'a NodeBitMap,
    word_idx: usize,
    bit_idx: usize,
}

impl<'a> NodeBitMapIter<'a> {
    #[verifier::type_invariant]
    closed spec fn in_word(&self) -> bool {
        self.bit_idx <= 64
    }

    /// The map walked over.
    pub closed spec fn map(&self) -> NodeBitMap {
        *self.bitmap
    }

    /// The first id not yet looked at.
    pub closed spec fn position(&self) -> int {
        self.word_idx * 64 + self.bit_idx
    }

    /// The next marked id from the position on, if any; the walk moves past it.
    pub fn next(&mut self) -> (r: Option<usize>)
        ensures
            final(self).map() == old(self).map(),
            match r {
                Some(id) => id >= old(self).position() && old(self).map().marked(id as int)
                    && (forall|j: int| old(self).position() <= j < id ==> !old(self).map().marked(j))
                    && final(self).position() == id + 1,
                None => forall|j: int| j >= old(self).position() ==> !old(self).map().marked(j),
            },
    {
        proof {
            use_type_invariant(self.bitmap);
            use_type_invariant(&*self);
        }
        let ghost start = self.position();
        while self.word_idx < self.bitmap.bits.len()
            invariant
                self.bitmap == old(self).bitmap,
                self.bit_idx <= 64,
                self.bitmap.bits@.len() * 64 <= usize::MAX,
                self.word_idx * 64 + self.bit_idx >= start,
                start == old(self).position(),
                forall|j: int| start <= j < self.word_idx * 64 + self.bit_idx ==> !old(self).map().marked(j),
            decreases self.bitmap.bits@.len() - self.word_idx, 64 - self.bit_idx,
        {
            let word = self.bitmap.bits[self.word_idx];
            let ghost w0 = self.word_idx;
            while self.bit_idx < 64
                invariant
                    self.bitmap == old(self).bitmap,
                    self.word_idx == w0,
                    self.word_idx < self.bitmap.bits@.len(),
                    self.bitmap.bits@.len() * 64 <= usize::MAX,
                    word == self.bitmap.bits@[self.word_idx as int],
                    self.bit_idx <= 64,
                    self.word_idx * 64 + self.bit_idx >= start,
                    start == old(self).position(),
                start == old(self).position(),
                    forall|j: int| start <= j < self.word_idx * 64 + self.bit_idx ==> !old(self).map().marked(j),
                decreases 64 - self.bit_idx,
            {
                let bit = self.bit_idx;
                self.bit_idx = self.bit_idx + 1;
                proof {
                    lemma_test_bit(word, bit as u64);
                    let id = self.word_idx * 64 + bit;
                    assert(id / 64 == self.word_idx && id % 64 == bit) by (nonlinear_arith)
                        requires
                            id == self.word_idx * 64 + bit,
                            bit < 64,
                    ;
                    assert(self.word_idx * 64 + 64 <= self.bitmap.bits@.len() * 64) by (nonlinear_arith)
                        requires
                            self.word_idx < self.bitmap.bits@.len(),
                    ;
                }
                if (word & (1u64 << (bit as u64))) != 0 {
                    assert(old(self).map().marks()[self.word_idx * 64 + bit] == get_bit(word, bit as u64));
                    return Some(self.word_idx * 64 + bit);
                }
            }
            proof {
                assert(self.word_idx * 64 + 64 <= self.bitmap.bits@.len() * 64) by (nonlinear_arith)
                    requires
                        self.word_idx < self.bitmap.bits@.len(),
                ;
            }
            self.word_idx = self.word_idx + 1;
            self.bit_idx = 0;
        }
        proof {
            assert forall|j: int| j >= start implies !old(self).map().marked(j) by {
                if j >= self.word_idx * 64 + self.bit_idx {
                    let ghost ml = old(self).map().marks().len();
                    let ghost wi = self.word_idx;
                    let ghost bi = self.bit_idx;
                    let ghost bl = self.bitmap.bits@.len();
                    assert(j >= ml) by (nonlinear_arith)
                        requires
                            j >= wi * 64 + bi,
                            wi >= bl,
                            ml == bl * 64,
                            bi >= 0,
                    ;
                }
            }
        }
        None
    }
}

} // verus!
