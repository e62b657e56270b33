//! The lawfulness condition on key orderings that ordered collections rely on.
use vstd::prelude::*;
use vstd::std_specs::cmp::{OrdSpec, PartialOrdSpec};

verus! {

/// Whether `K`'s `Ord` implementation is a lawful total order consistent
/// with equality, as std's ordered collections require of their keys.
pub open spec fn lawful_order<K: Ord>() -> bool {
    vstd::laws_cmp::obeys_cmp::<K>()
}

/// Listing references to keys in increasing order lists the keys themselves
/// in increasing order.
pub proof fn lemma_unref_increasing<K: Ord>(s: Seq<&K>)
    requires
        lawful_order::<K>(),
        vstd::std_specs::btree::increasing_seq(s),
    ensures
        vstd::std_specs::btree::increasing_seq(s.unref()),
{
    broadcast use vstd::laws_cmp::lemma_ref_obeys_cmp_spec;
    assert(vstd::laws_cmp::obeys_cmp::<&K>());
    vstd::std_specs::btree::axiom_increasing_seq_meaning::<&K>(s);
    assert(forall|i: int, j: int| #![trigger s[i], s[j]] 0 <= i < j < s.len() ==> OrdSpec::cmp_spec(&s[i], &s[j]) is Less);
    vstd::std_specs::btree::axiom_increasing_seq_meaning::<K>(s.unref());
    assert forall|i: int, j: int|
        #![trigger s.unref()[i], s.unref()[j]]
        0 <= i < j < s.unref().len() implies s.unref()[i].cmp_spec(&s.unref()[j]) is Less by {
        assert(OrdSpec::cmp_spec(&s[i], &s[j]) is Less);
    }
}

/// Under a lawful order, `<` is irreflexive and transitive.
pub proof fn lemma_less_strict<K: Ord>()
    requires
        lawful_order::<K>(),
    ensures
        forall|x: K| !(#[trigger] x.cmp_spec(&x) is Less),
        forall|x: K, y: K, z: K| #[trigger] x.cmp_spec(&y) is Less && #[trigger] y.cmp_spec(&z) is Less
            ==> x.cmp_spec(&z) is Less,
{
    reveal(vstd::laws_cmp::obeys_cmp_ord);
    reveal(vstd::laws_cmp::obeys_partial_cmp_spec_properties);
    assert forall|x: K| !(#[trigger] x.cmp_spec(&x) is Less) by {
        assert(x.partial_cmp_spec(&x) == Some(x.cmp_spec(&x)));
    }
    assert forall|x: K, y: K, z: K| #[trigger] x.cmp_spec(&y) is Less && #[trigger] y.cmp_spec(&z) is Less
        implies x.cmp_spec(&z) is Less by {
        assert(x.partial_cmp_spec(&y) == Some(x.cmp_spec(&y)));
        assert(y.partial_cmp_spec(&z) == Some(y.cmp_spec(&z)));
        assert(x.partial_cmp_spec(&z) == Some(x.cmp_spec(&z)));
    }
}

/// Two increasing sequences of the same elements are the same sequence.
pub proof fn lemma_increasing_unique<K: Ord>(s: Seq<K>, t: Seq<K>)
    requires
        lawful_order::<K>(),
        vstd::std_specs::btree::increasing_seq(s),
        vstd::std_specs::btree::increasing_seq(t),
        s.to_set() == t.to_set(),
    ensures
        s == t,
    decreases s.len(),
{
    vstd::std_specs::btree::axiom_increasing_seq_meaning::<K>(s);
    vstd::std_specs::btree::axiom_increasing_seq_meaning::<K>(t);
    lemma_less_strict::<K>();
    if s.len() == 0 {
        if t.len() > 0 {
            assert(t.to_set().contains(t[0]));
        }
        assert(s =~= t);
    } else if t.len() == 0 {
        assert(s.to_set().contains(s[0]));
    } else {
        assert(t.to_set().contains(s[0]));
        let k = choose|k: int| 0 <= k < t.len() && t[k] == s[0];
        assert(s.to_set().contains(t[0]));
        let m = choose|m: int| 0 <= m < s.len() && s[m] == t[0];
        if k > 0 {
            assert(t[0].cmp_spec(&t[k]) is Less);
            if m > 0 {
                assert(s[0].cmp_spec(&s[m]) is Less);
            }
        }
        if m > 0 {
            assert(s[0].cmp_spec(&s[m]) is Less);
        }
        assert(s[0] == t[0]);
        let s1 = s.drop_first();
        let t1 = t.drop_first();
        vstd::std_specs::btree::axiom_increasing_seq_meaning::<K>(s1);
        vstd::std_specs::btree::axiom_increasing_seq_meaning::<K>(t1);
        assert forall|i: int, j: int| 0 <= i < j < s1.len() implies s1[i].cmp_spec(&s1[j]) is Less by {
            assert(s1[i] == s[i + 1] && s1[j] == s[j + 1]);
        }
        assert forall|i: int, j: int| 0 <= i < j < t1.len() implies t1[i].cmp_spec(&t1[j]) is Less by {
            assert(t1[i] == t[i + 1] && t1[j] == t[j + 1]);
        }
        assert forall|x: K| s1.to_set().contains(x) <==> t1.to_set().contains(x) by {
            if s1.to_set().contains(x) {
                let i = choose|i: int| 0 <= i < s1.len() && s1[i] == x;
                assert(s[0].cmp_spec(&s[i + 1]) is Less);
                assert(s.to_set().contains(x));
                assert(t.to_set().contains(x));
                let j = choose|j: int| 0 <= j < t.len() && t[j] == x;
                if j == 0 {
                    assert(x.cmp_spec(&x) is Less);
                }
                assert(t1[j - 1] == x);
            }
            if t1.to_set().contains(x) {
                let i = choose|i: int| 0 <= i < t1.len() && t1[i] == x;
                assert(t[0].cmp_spec(&t[i + 1]) is Less);
                assert(t.to_set().contains(x));
                assert(s.to_set().contains(x));
                let j = choose|j: int| 0 <= j < s.len() && s[j] == x;
                if j == 0 {
                    assert(x.cmp_spec(&x) is Less);
                }
                assert(s1[j - 1] == x);
            }
        }
        assert(s1.to_set() =~= t1.to_set());
        lemma_increasing_unique(s1, t1);
        assert(s =~= t) by {
            assert forall|i: int| 0 <= i < s.len() implies s[i] == t[i] by {
                if i > 0 {
                    assert(s[i] == s1[i - 1]);
                    assert(t[i] == t1[i - 1]);
                }
            }
        }
    }
}

} // verus!
