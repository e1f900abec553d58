//! The first element of a sequence that meets a condition.

use vstd::prelude::*;

verus! {

/// The index of the first element of `items` at or after `from` that meets
/// `wanted`, if there is one.
pub open spec fn first_match_from<T>(
    items: Seq<T>,
    wanted: spec_fn(T) -> bool,
    from: int,
) -> Option<int>
    decreases items.len() - from,
{
    if from < 0 || from >= items.len() {
        None
    } else if wanted(items[from]) {
        Some(from)
    } else {
        first_match_from(items, wanted, from + 1)
    }
}

/// The index of the first element of `items` that meets `wanted`, if there is
/// one.
pub open spec fn first_match<T>(items: Seq<T>, wanted: spec_fn(T) -> bool) -> Option<int> {
    first_match_from(items, wanted, 0)
}

/// What the search from `from` finds: an element that meets the condition with
/// none before it from `from` on, or nothing where no element from `from` on
/// meets it.
pub proof fn lemma_first_match_from<T>(items: Seq<T>, wanted: spec_fn(T) -> bool, from: int)
    requires
        0 <= from,
    ensures
        match first_match_from(items, wanted, from) {
            Some(i) => {
                &&& from <= i < items.len()
                &&& wanted(items[i])
                &&& forall|j: int| from <= j < i ==> !wanted(#[trigger] items[j])
            },
            None => forall|j: int| from <= j < items.len() ==> !wanted(#[trigger] items[j]),
        },
    decreases items.len() - from,
{
    if from < items.len() && !wanted(items[from]) {
        lemma_first_match_from(items, wanted, from + 1);
    }
}

/// What the search finds: the first element that meets the condition, or
/// nothing where no element meets it.
pub proof fn lemma_first_match<T>(items: Seq<T>, wanted: spec_fn(T) -> bool)
    ensures
        match first_match(items, wanted) {
            Some(i) => {
                &&& 0 <= i < items.len()
                &&& wanted(items[i])
                &&& forall|j: int| 0 <= j < i ==> !wanted(#[trigger] items[j])
            },
            None => forall|j: int| 0 <= j < items.len() ==> !wanted(#[trigger] items[j]),
        },
{
    lemma_first_match_from(items, wanted, 0);
}

/// An index whose element meets the condition, with no earlier one that does,
/// is what the search finds.
pub proof fn lemma_first_match_is<T>(items: Seq<T>, wanted: spec_fn(T) -> bool, i: int)
    requires
        0 <= i < items.len(),
        wanted(items[i]),
        forall|j: int| 0 <= j < i ==> !wanted(#[trigger] items[j]),
    ensures
        first_match(items, wanted) == Some(i),
{
    lemma_first_match(items, wanted);
}

/// Where no element meets the condition the search finds nothing.
pub proof fn lemma_first_match_none<T>(items: Seq<T>, wanted: spec_fn(T) -> bool)
    requires
        forall|j: int| 0 <= j < items.len() ==> !wanted(#[trigger] items[j]),
    ensures
        first_match(items, wanted) is None,
{
    lemma_first_match(items, wanted);
}

} // verus!
