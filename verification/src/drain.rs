//! Moving the elements that a predicate selects out of a vector.

use vstd::prelude::*;

verus! {

/// The elements of `items` whose entry in `marks` equals `wanted`, in order.
pub open spec fn pick<T>(items: Seq<T>, marks: Seq<bool>, wanted: bool) -> Seq<T>
    recommends
        marks.len() == items.len(),
    decreases items.len(),
{
    if items.len() == 0 || marks.len() != items.len() {
        Seq::empty()
    } else {
        let before = pick(items.drop_last(), marks.drop_last(), wanted);
        if marks.last() == wanted {
            before.push(items.last())
        } else {
            before
        }
    }
}

/// Picking from a sequence that grew by one element either appends that
/// element or leaves the earlier choice as it was.
pub proof fn lemma_pick_push<T>(items: Seq<T>, marks: Seq<bool>, item: T, mark: bool, wanted: bool)
    requires
        marks.len() == items.len(),
    ensures
        pick(items.push(item), marks.push(mark), wanted) == if mark == wanted {
            pick(items, marks, wanted).push(item)
        } else {
            pick(items, marks, wanted)
        },
{
    assert(items.push(item).drop_last() =~= items);
    assert(marks.push(mark).drop_last() =~= marks);
}

/// Where the marks are the values of a condition on the elements, picking the
/// marked elements filters by the condition, and picking the unmarked ones
/// filters by its negation.
pub proof fn lemma_pick_is_filter<T>(items: Seq<T>, marks: Seq<bool>, cond: spec_fn(T) -> bool)
    requires
        marks.len() == items.len(),
        forall|k: int| 0 <= k < items.len() ==> #[trigger] marks[k] == cond(items[k]),
    ensures
        pick(items, marks, true) == items.filter(cond),
        pick(items, marks, false) == items.filter(|x: T| !cond(x)),
    decreases items.len(),
{
    reveal(Seq::filter);
    if items.len() > 0 {
        lemma_pick_is_filter(items.drop_last(), marks.drop_last(), cond);
    }
}

/// Removes from `vec` every element for which `predicate` answers `true` and
/// returns the removed elements. Both the removed and the remaining elements
/// keep their order, and the predicate is asked once for each element, from
/// the first to the last: `marks` below holds its answers.
pub fn drain_filter<T, F>(vec: &mut Vec<T>, predicate: F) -> (ret: Vec<T>) where
    F: Fn(&T) -> bool,

    requires
        forall|k: int| 0 <= k < old(vec)@.len() ==> call_requires(predicate, (&old(vec)@[k],)),
    ensures
        exists|marks: Seq<bool>|
            {
                &&& marks.len() == old(vec)@.len()
                &&& forall|k: int|
                    0 <= k < marks.len() ==> call_ensures(
                        predicate,
                        (&old(vec)@[k],),
                        #[trigger] marks[k],
                    )
                &&& ret@ == pick(old(vec)@, marks, true)
                &&& final(vec)@ == pick(old(vec)@, marks, false)
            },
{
    let mut ret: Vec<T> = Vec::new();
    let mut i: usize = 0;
    let ghost mut marks: Seq<bool> = Seq::empty();
    while i < vec.len()
        invariant
            i <= vec.len(),
            marks.len() + (vec.len() - i) == old(vec)@.len(),
            forall|k: int| 0 <= k < old(vec)@.len() ==> call_requires(predicate, (&old(vec)@[k],)),
            forall|k: int|
                0 <= k < marks.len() ==> call_ensures(
                    predicate,
                    (&old(vec)@[k],),
                    #[trigger] marks[k],
                ),
            vec@.skip(i as int) == old(vec)@.skip(marks.len() as int),
            ret@ == pick(old(vec)@.take(marks.len() as int), marks, true),
            vec@.take(i as int) == pick(old(vec)@.take(marks.len() as int), marks, false),
        decreases vec.len() - i,
    {
        let ghost seen = marks.len() as int;
        let ghost prior = vec@;
        proof {
            assert(vec@[i as int] == vec@.skip(i as int)[0]);
            assert(old(vec)@.take(seen + 1) =~= old(vec)@.take(seen).push(old(vec)@[seen]));
        }
        let chosen = predicate(&vec[i]);
        proof {
            lemma_pick_push(old(vec)@.take(seen), marks, old(vec)@[seen], chosen, true);
            lemma_pick_push(old(vec)@.take(seen), marks, old(vec)@[seen], chosen, false);
            marks = marks.push(chosen);
        }
        if chosen {
            let taken = vec.remove(i);
            ret.push(taken);
            proof {
                assert(vec@.skip(i as int) =~= prior.skip(i as int).skip(1));
            }
        } else {
            i += 1;
            proof {
                assert(vec@.skip(i as int) =~= prior.skip(i - 1).skip(1));
            }
        }
    }
    proof {
        assert(old(vec)@.take(marks.len() as int) =~= old(vec)@);
    }
    ret
}

} // verus!
