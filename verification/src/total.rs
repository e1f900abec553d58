//! Adding up sizes without exceeding 32 bits.

use vstd::prelude::*;

verus! {

/// The sum of `values`.
pub open spec fn sum(values: Seq<nat>) -> nat
    decreases values.len(),
{
    if values.len() == 0 {
        0
    } else {
        sum(values.drop_last()) + values.last()
    }
}

/// The numbers in `sizes` as values to add up.
pub open spec fn as_values(sizes: Seq<u32>) -> Seq<nat> {
    sizes.map_values(|size: u32| size as nat)
}

/// Adds up what `measure` gives for each of `items`, from the first to the
/// last: `sizes` below holds its answers. Nothing is returned where the sum
/// exceeds 32 bits.
pub fn checked_sum_of<T, F>(items: &[T], measure: F) -> (total: Option<u32>) where
    F: Fn(&T) -> u32,

    requires
        forall|k: int| 0 <= k < items@.len() ==> call_requires(measure, (&items@[k],)),
    ensures
        exists|sizes: Seq<u32>|
            {
                &&& sizes.len() == items@.len()
                &&& forall|k: int|
                    0 <= k < sizes.len() ==> call_ensures(
                        measure,
                        (&items@[k],),
                        #[trigger] sizes[k],
                    )
                &&& match total {
                    Some(t) => t == sum(as_values(sizes)),
                    None => sum(as_values(sizes)) > u32::MAX,
                }
            },
{
    let mut total: u32 = 0;
    let mut overflown = false;
    let mut i: usize = 0;
    let ghost mut sizes: Seq<u32> = Seq::empty();
    proof {
        assert(as_values(sizes) =~= Seq::<nat>::empty());
    }
    while i < items.len()
        invariant
            i <= items.len(),
            sizes.len() == i,
            forall|k: int| 0 <= k < items@.len() ==> call_requires(measure, (&items@[k],)),
            forall|k: int|
                0 <= k < sizes.len() ==> call_ensures(
                    measure,
                    (&items@[k],),
                    #[trigger] sizes[k],
                ),
            !overflown ==> total == sum(as_values(sizes)),
            overflown ==> sum(as_values(sizes)) > u32::MAX,
        decreases items.len() - i,
    {
        let size = measure(&items[i]);
        proof {
            assert(as_values(sizes.push(size)).drop_last() =~= as_values(sizes));
            sizes = sizes.push(size);
        }
        if !overflown {
            match total.checked_add(size) {
                Some(next) => {
                    total = next;
                },
                None => {
                    overflown = true;
                },
            }
        }
        i += 1;
    }
    if overflown {
        None
    } else {
        Some(total)
    }
}

} // verus!
