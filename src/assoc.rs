//! Lists of `(path, value)` pairs read as maps: a later pair hides an earlier one.

use vstd::prelude::*;

verus! {

/// The map that a list of pairs stands for.
pub open spec fn assoc_map<V>(s: Seq<(String, V)>) -> Map<Seq<char>, V>
    decreases s.len(),
{
    if s.len() == 0 {
        Map::empty()
    } else {
        assoc_map(s.drop_last()).insert(s.last().0@, s.last().1)
    }
}

/// Pairs after position `i` with another key do not change what the key maps to.
pub proof fn lemma_assoc_suffix<V>(s: Seq<(String, V)>, i: int, k: Seq<char>)
    requires
        0 <= i <= s.len(),
        forall|j: int| i <= j < s.len() ==> (#[trigger] s[j]).0@ != k,
    ensures
        assoc_map(s).contains_key(k) == assoc_map(s.subrange(0, i)).contains_key(k),
        assoc_map(s).contains_key(k) ==> assoc_map(s)[k] == assoc_map(s.subrange(0, i))[k],
    decreases s.len() - i,
{
    if i < s.len() {
        assert forall|j: int| i <= j < s.drop_last().len() implies (#[trigger] s.drop_last()[j]).0@ != k by {
            assert(s.drop_last()[j] == s[j]);
        }
        lemma_assoc_suffix(s.drop_last(), i, k);
        assert(s.drop_last().subrange(0, i) =~= s.subrange(0, i));
    } else {
        assert(s.subrange(0, i) =~= s);
    }
}

/// A pair that no later pair hides gives the value of its key.
pub proof fn lemma_assoc_at<V>(s: Seq<(String, V)>, j: int)
    requires
        0 <= j < s.len(),
        forall|m: int| j < m < s.len() ==> (#[trigger] s[m]).0@ != s[j].0@,
    ensures
        assoc_map(s).contains_key(s[j].0@),
        assoc_map(s)[s[j].0@] == s[j].1,
{
    lemma_assoc_suffix(s, j + 1, s[j].0@);
    assert(s.subrange(0, j + 1).drop_last() =~= s.subrange(0, j));
    assert(s.subrange(0, j + 1).last() == s[j]);
}

/// Every key of the map comes from a pair that no later pair hides.
pub proof fn lemma_assoc_witness<V>(s: Seq<(String, V)>, k: Seq<char>)
    requires
        assoc_map(s).contains_key(k),
    ensures
        exists|j: int| 0 <= j < s.len() && (#[trigger] s[j]).0@ == k && forall|m: int| j < m < s.len() ==> (#[trigger] s[m]).0@ != k,
    decreases s.len(),
{
    if s.last().0@ == k {
        let j = s.len() - 1;
        assert(s[j].0@ == k);
    } else {
        lemma_assoc_witness(s.drop_last(), k);
        let j = choose|j: int| 0 <= j < s.drop_last().len() && (#[trigger] s.drop_last()[j]).0@ == k && forall|m: int| j < m < s.drop_last().len() ==> (#[trigger] s.drop_last()[m]).0@ != k;
        assert(s[j] == s.drop_last()[j]);
        assert forall|m: int| j < m < s.len() implies (#[trigger] s[m]).0@ != k by {
            if m < s.len() - 1 {
                assert(s[m] == s.drop_last()[m]);
            }
        }
    }
}

/// The position of the pair that gives `k` its value, if `k` has one.
pub fn assoc_find<V>(s: &Vec<(String, V)>, k: &str) -> (r: Option<usize>)
    ensures
        match r {
            Some(i) => i < s@.len() && s@[i as int].0@ == k@ && assoc_map(s@).contains_key(k@)
                && assoc_map(s@)[k@] == s@[i as int].1,
            None => !assoc_map(s@).contains_key(k@),
        },
{
    let mut i: usize = s.len();
    while i > 0
        invariant
            0 <= i <= s@.len(),
            forall|j: int| i <= j < s@.len() ==> (#[trigger] s@[j]).0@ != k@,
        decreases i,
    {
        if crate::text::same_text(s[i - 1].0.as_str(), k) {
            proof {
                lemma_assoc_at(s@, i - 1);
            }
            return Some(i - 1);
        }
        i = i - 1;
    }
    proof {
        lemma_assoc_suffix(s@, 0, k@);
    }
    None
}

} // verus!
