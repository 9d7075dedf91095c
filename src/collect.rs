//! All-or-nothing collection over a list of page elements: each element gives
//! a value or fails, and one failure fails the whole list.
use vstd::prelude::*;

use crate::assoc::assoc_from;

verus! {

/// The value of each element, in order, or `None` if any element fails.
pub open spec fn collect_all<A>(items: Seq<u32>, f: spec_fn(u32) -> Option<A>) -> Option<Seq<A>>
    decreases items.len(),
{
    if items.len() == 0 {
        Some(Seq::empty())
    } else {
        match collect_all(items.drop_last(), f) {
            Some(prev) => match f(items.last()) {
                Some(x) => Some(prev.push(x)),
                None => None,
            },
            None => None,
        }
    }
}

/// The named values of each element, one per name, where a later element's
/// value replaces an earlier one's; `None` if any element fails.
pub open spec fn collect_assoc<V>(items: Seq<u32>, f: spec_fn(u32) -> Option<(Seq<char>, V)>) -> Option<
    Seq<(Seq<char>, V)>,
> {
    match collect_all(items, f) {
        Some(l) => Some(assoc_from(l)),
        None => None,
    }
}

/// The lists of each element joined, in order, or `None` if any element fails.
pub open spec fn collect_concat<A>(items: Seq<u32>, f: spec_fn(u32) -> Option<Seq<A>>) -> Option<
    Seq<A>,
>
    decreases items.len(),
{
    if items.len() == 0 {
        Some(Seq::empty())
    } else {
        match collect_concat(items.drop_last(), f) {
            Some(prev) => match f(items.last()) {
                Some(x) => Some(prev + x),
                None => None,
            },
            None => None,
        }
    }
}

pub proof fn lemma_collect_step<A>(items: Seq<u32>, i: int, f: spec_fn(u32) -> Option<A>)
    requires
        0 <= i < items.len(),
    ensures
        collect_all(items.subrange(0, i + 1), f) == (match collect_all(items.subrange(0, i), f) {
            Some(prev) => match f(items[i]) {
                Some(x) => Some(prev.push(x)),
                None => None,
            },
            None => None,
        }),
{
    assert(items.subrange(0, i + 1).drop_last() =~= items.subrange(0, i));
}

pub proof fn lemma_collect_fails<A>(items: Seq<u32>, i: int, f: spec_fn(u32) -> Option<A>)
    requires
        0 <= i <= items.len(),
        collect_all(items.subrange(0, i), f) is None,
    ensures
        collect_all(items, f) is None,
    decreases items.len() - i,
{
    if i < items.len() {
        lemma_collect_step(items, i, f);
        lemma_collect_fails(items, i + 1, f);
    } else {
        assert(items.subrange(0, i) =~= items);
    }
}

pub proof fn lemma_collect_whole<A>(items: Seq<u32>, f: spec_fn(u32) -> Option<A>)
    ensures
        collect_all(items.subrange(0, items.len() as int), f) == collect_all(items, f),
{
    assert(items.subrange(0, items.len() as int) =~= items);
}

pub proof fn lemma_concat_step<A>(items: Seq<u32>, i: int, f: spec_fn(u32) -> Option<Seq<A>>)
    requires
        0 <= i < items.len(),
    ensures
        collect_concat(items.subrange(0, i + 1), f) == (match collect_concat(
            items.subrange(0, i),
            f,
        ) {
            Some(prev) => match f(items[i]) {
                Some(x) => Some(prev + x),
                None => None,
            },
            None => None,
        }),
{
    assert(items.subrange(0, i + 1).drop_last() =~= items.subrange(0, i));
}

pub proof fn lemma_concat_fails<A>(items: Seq<u32>, i: int, f: spec_fn(u32) -> Option<Seq<A>>)
    requires
        0 <= i <= items.len(),
        collect_concat(items.subrange(0, i), f) is None,
    ensures
        collect_concat(items, f) is None,
    decreases items.len() - i,
{
    if i < items.len() {
        lemma_concat_step(items, i, f);
        lemma_concat_fails(items, i + 1, f);
    } else {
        assert(items.subrange(0, i) =~= items);
    }
}

pub proof fn lemma_concat_whole<A>(items: Seq<u32>, f: spec_fn(u32) -> Option<Seq<A>>)
    ensures
        collect_concat(items.subrange(0, items.len() as int), f) == collect_concat(items, f),
{
    assert(items.subrange(0, items.len() as int) =~= items);
}

} // verus!
