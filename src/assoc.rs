//! Lists of named values with one entry per name, filled the way a map is:
//! inserting a name that is present replaces its value in place, and a new
//! name goes at the end.
use vstd::prelude::*;

verus! {

/// Where `k` is in `s`, if it is.
pub open spec fn key_index<V>(s: Seq<(Seq<char>, V)>, k: Seq<char>) -> Option<int>
    decreases s.len(),
{
    if s.len() == 0 {
        None
    } else if s.last().0 == k {
        Some(s.len() - 1)
    } else {
        key_index(s.drop_last(), k)
    }
}

/// `s` with `v` under `k`: replacing the value of `k` if present, else added
/// at the end.
pub open spec fn assoc_insert<V>(s: Seq<(Seq<char>, V)>, k: Seq<char>, v: V) -> Seq<
    (Seq<char>, V),
> {
    match key_index(s, k) {
        Some(i) => s.update(i, (k, v)),
        None => s.push((k, v)),
    }
}

/// The list that inserting each entry of `list`, in order, gives.
pub open spec fn assoc_from<V>(list: Seq<(Seq<char>, V)>) -> Seq<(Seq<char>, V)>
    decreases list.len(),
{
    if list.len() == 0 {
        Seq::empty()
    } else {
        assoc_insert(assoc_from(list.drop_last()), list.last().0, list.last().1)
    }
}

/// Whether no two entries of `s` share a name.
pub open spec fn unique_keys<V>(s: Seq<(Seq<char>, V)>) -> bool {
    forall|i: int, j: int| 0 <= i < j < s.len() ==> (#[trigger] s[i]).0 != (#[trigger] s[j]).0
}

pub proof fn lemma_key_index_facts<V>(s: Seq<(Seq<char>, V)>, k: Seq<char>)
    ensures
        key_index(s, k) matches Some(i) ==> 0 <= i < s.len() && s[i].0 == k,
        key_index(s, k) is None ==> forall|j: int| 0 <= j < s.len() ==> (#[trigger] s[j]).0 != k,
    decreases s.len(),
{
    if s.len() > 0 && s.last().0 != k {
        lemma_key_index_facts(s.drop_last(), k);
        assert forall|j: int| 0 <= j < s.len() - 1 implies s[j] == s.drop_last()[j] by {}
    }
}

pub proof fn lemma_key_index_some<V>(s: Seq<(Seq<char>, V)>, k: Seq<char>, i: int)
    requires
        0 <= i < s.len(),
        s[i].0 == k,
        forall|j: int| i < j < s.len() ==> (#[trigger] s[j]).0 != k,
    ensures
        key_index(s, k) == Some(i),
    decreases s.len(),
{
    if i < s.len() - 1 {
        assert(s.drop_last()[i] == s[i]);
        assert forall|j: int| i < j < s.drop_last().len() implies (#[trigger] s.drop_last()[j]).0
            != k by {
            assert(s.drop_last()[j] == s[j]);
        }
        lemma_key_index_some(s.drop_last(), k, i);
    }
}

pub proof fn lemma_key_index_none<V>(s: Seq<(Seq<char>, V)>, k: Seq<char>)
    requires
        forall|j: int| 0 <= j < s.len() ==> (#[trigger] s[j]).0 != k,
    ensures
        key_index(s, k) is None,
    decreases s.len(),
{
    if s.len() > 0 {
        assert forall|j: int| 0 <= j < s.drop_last().len() implies (#[trigger] s.drop_last()[j]).0
            != k by {
            assert(s.drop_last()[j] == s[j]);
        }
        lemma_key_index_none(s.drop_last(), k);
    }
}

/// Inserting keeps the names unique.
pub proof fn lemma_assoc_insert_unique<V>(s: Seq<(Seq<char>, V)>, k: Seq<char>, v: V)
    requires
        unique_keys(s),
    ensures
        unique_keys(assoc_insert(s, k, v)),
{
    lemma_key_index_facts(s, k);
    let t = assoc_insert(s, k, v);
    match key_index(s, k) {
        Some(i) => {
            assert forall|a: int, b: int| 0 <= a < b < t.len() implies (#[trigger] t[a]).0 != (
            #[trigger] t[b]).0 by {
                assert(t[a].0 == s[a].0);
                assert(t[b].0 == s[b].0);
            }
        },
        None => {
            assert forall|a: int, b: int| 0 <= a < b < t.len() implies (#[trigger] t[a]).0 != (
            #[trigger] t[b]).0 by {
                if b == s.len() {
                    assert(t[a] == s[a]);
                } else {
                    assert(t[a] == s[a] && t[b] == s[b]);
                }
            }
        },
    }
}

/// A list filled by insertion has unique names.
pub proof fn lemma_assoc_from_unique<V>(list: Seq<(Seq<char>, V)>)
    ensures
        unique_keys(assoc_from(list)),
    decreases list.len(),
{
    if list.len() > 0 {
        lemma_assoc_from_unique(list.drop_last());
        lemma_assoc_insert_unique(assoc_from(list.drop_last()), list.last().0, list.last().1);
    }
}

pub proof fn lemma_assoc_from_push<V>(list: Seq<(Seq<char>, V)>, x: (Seq<char>, V))
    ensures
        assoc_from(list.push(x)) == assoc_insert(assoc_from(list), x.0, x.1),
{
    assert(list.push(x).drop_last() =~= list);
}

} // verus!
