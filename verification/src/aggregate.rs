//! Folding the sections that take up little of a region into one entry.

use crate::drain::{drain_filter, lemma_pick_is_filter, pick};
use crate::size::{sections_view, Section, SectionView};
use crate::total::{as_values, checked_sum_of, sum};
use vstd::prelude::*;
use vstd::seq_lib::lemma_filter_view_commute;

verus! {

/// A section that takes up less than this many hundredths of its region's
/// capacity is folded into the region's entry for the rest.
pub const THRESHOLD_PERCENT: u64 = 2;

/// The name of the entry that stands for the folded sections of a region.
pub const MISCELLANEOUS: &'static str = "miscellaneous";

/// Whether a section of `size` bytes takes up less than
/// [`THRESHOLD_PERCENT`] hundredths of `capacity` bytes. A region without
/// capacity has no such shares: see [`folded`].
pub open spec fn below_threshold(size: nat, capacity: nat) -> bool
    recommends
        capacity > 0,
{
    100 * size < THRESHOLD_PERCENT * capacity
}

/// The sum of the sizes of `sections`.
pub open spec fn total_size(sections: Seq<SectionView>) -> nat {
    sum(sections.map_values(|s: SectionView| s.size))
}

/// The sections of a region of `capacity` bytes that are below the threshold,
/// in order.
pub open spec fn minor_sections(sections: Seq<SectionView>, capacity: nat) -> Seq<SectionView> {
    sections.filter(|s: SectionView| below_threshold(s.size, capacity))
}

/// The sections of a region of `capacity` bytes that are not below the
/// threshold, in order.
pub open spec fn major_sections(sections: Seq<SectionView>, capacity: nat) -> Seq<SectionView> {
    sections.filter(|s: SectionView| !below_threshold(s.size, capacity))
}

/// The entry that stands for folded sections of `total` bytes together.
pub open spec fn miscellaneous(total: nat) -> SectionView {
    SectionView { name: MISCELLANEOUS@, size: total }
}

/// The sections of a region of `capacity` bytes after folding: those not below
/// the threshold, in order, and after them one entry for the others together
/// unless their sizes add up to zero.
pub open spec fn aggregated(sections: Seq<SectionView>, capacity: nat) -> Seq<SectionView>
    recommends
        capacity > 0,
{
    let total = total_size(minor_sections(sections, capacity));
    if total != 0 {
        major_sections(sections, capacity).push(miscellaneous(total))
    } else {
        major_sections(sections, capacity)
    }
}

/// Why the sections of a region could not be folded.
#[derive(Debug, Clone, Copy, PartialEq, Eq, Structural)]
pub enum FoldError {
    /// The region holds sections and has no capacity to take their shares of.
    ZeroCapacity,
    /// The sizes of the sections below the threshold add up to more than a
    /// section's size can hold.
    Overflow,
}

/// What folding the sections of a region of `capacity` bytes gives. A region
/// without capacity that holds sections cannot be folded, and neither can one
/// whose sections below the threshold exceed 32 bits together.
pub open spec fn folded(sections: Seq<SectionView>, capacity: nat) -> Result<
    Seq<SectionView>,
    FoldError,
> {
    if sections.len() == 0 {
        Ok(sections)
    } else if capacity == 0 {
        Err(FoldError::ZeroCapacity)
    } else if total_size(minor_sections(sections, capacity)) > u32::MAX {
        Err(FoldError::Overflow)
    } else {
        Ok(aggregated(sections, capacity))
    }
}

/// The view of folded sections or the reason why there are none.
pub open spec fn folded_view(outcome: Result<Vec<Section>, FoldError>) -> Result<
    Seq<SectionView>,
    FoldError,
> {
    match outcome {
        Ok(sections) => Ok(sections_view(sections@)),
        Err(e) => Err(e),
    }
}

/// Whether a section of `size` bytes is below the threshold in a region of
/// `capacity` bytes. There is no answer for a region without capacity.
pub fn is_below_threshold(size: u32, capacity: u64) -> (below: Option<bool>)
    ensures
        below == if capacity == 0 {
            None
        } else {
            Some(below_threshold(size as nat, capacity as nat))
        },
{
    if capacity == 0 {
        return None;
    }
    let percent: u128 = THRESHOLD_PERCENT as u128;
    Some((size as u128) * 100 < (capacity as u128) * percent)
}

/// The sum of the sizes of `sections`, unless it exceeds what a section's
/// size can hold.
pub fn checked_total(sections: &[Section]) -> (total: Option<u32>)
    ensures
        match total {
            Some(t) => t == total_size(sections_view(sections@)),
            None => total_size(sections_view(sections@)) > u32::MAX,
        },
{
    let measure = |s: &Section| -> (size: u32)
        ensures
            size == s.1,
        { s.1 };
    let total = checked_sum_of(sections, measure);
    proof {
        let sizes = choose|sizes: Seq<u32>|
            sizes.len() == sections@.len() && (forall|k: int|
                0 <= k < sizes.len() ==> call_ensures(
                    measure,
                    (&sections@[k],),
                    #[trigger] sizes[k],
                )) && match total {
                Some(t) => t == sum(as_values(sizes)),
                None => sum(as_values(sizes)) > u32::MAX,
            };
        assert(as_values(sizes) =~= sections_view(sections@).map_values(
            |s: SectionView| s.size,
        ));
    }
    total
}

/// Folds the sections of a region of `capacity` bytes: the sections below the
/// threshold leave the list, and one entry called [`MISCELLANEOUS`] with their
/// sizes added up is put at its end, unless they add up to zero. The other
/// sections keep their order.
///
/// A region without sections stays without. A region without capacity that
/// holds sections is an error, and so is a sum that exceeds what a section's
/// size can hold.
pub fn aggregate(sections: Vec<Section>, capacity: u64) -> (outcome: Result<
    Vec<Section>,
    FoldError,
>)
    ensures
        folded_view(outcome) == folded(sections_view(sections@), capacity as nat),
{
    if sections.len() == 0 {
        return Ok(sections);
    }
    if capacity == 0 {
        return Err(FoldError::ZeroCapacity);
    }
    let ghost given = sections@;
    let mut kept = sections;
    let predicate = |s: &Section| -> (below: bool)
        ensures
            below == below_threshold(s@.size, capacity as nat),
        {
            match is_below_threshold(s.1, capacity) {
                Some(below) => below,
                None => false,
            }
        };
    let minor = drain_filter(&mut kept, predicate);
    proof {
        let small = |s: Section| below_threshold(s@.size, capacity as nat);
        let marks = choose|marks: Seq<bool>|
            marks.len() == given.len() && (forall|k: int|
                0 <= k < marks.len() ==> call_ensures(predicate, (&given[k],), #[trigger] marks[k]))
                && minor@ == pick(given, marks, true) && kept@ == pick(given, marks, false);
        lemma_pick_is_filter(given, marks, small);
        lemma_filter_view_commute(
            given,
            small,
            |s: SectionView| below_threshold(s.size, capacity as nat),
        );
        lemma_filter_view_commute(
            given,
            |s: Section| !small(s),
            |s: SectionView| !below_threshold(s.size, capacity as nat),
        );
        assert(sections_view(minor@) =~= minor_sections(sections_view(given), capacity as nat));
        assert(sections_view(kept@) =~= major_sections(sections_view(given), capacity as nat));
        assert(sections_view(given).len() > 0);
    }
    match checked_total(minor.as_slice()) {
        None => Err(FoldError::Overflow),
        Some(total) => {
            if total != 0 {
                let ghost before = kept@;
                kept.push(Section(MISCELLANEOUS.to_owned(), total));
                proof {
                    assert(sections_view(kept@) =~= sections_view(before).push(
                        miscellaneous(total as nat),
                    ));
                }
            }
            Ok(kept)
        },
    }
}

/// After folding, every section but the entry put at the end is not below the
/// threshold, these are the sections that were not below it before, in their
/// order, and the entry put at the end holds the sum of the sizes of the
/// sections that were.
pub proof fn lemma_aggregated(sections: Seq<SectionView>, capacity: nat)
    requires
        capacity > 0,
    ensures
        ({
            let folded = aggregated(sections, capacity);
            let major = major_sections(sections, capacity);
            let total = total_size(minor_sections(sections, capacity));
            &&& folded.take(major.len() as int) == major
            &&& forall|i: int|
                0 <= i < major.len() ==> !below_threshold((#[trigger] folded[i]).size, capacity)
            &&& forall|i: int|
                0 <= i < major.len() ==> sections.contains(#[trigger] folded[i])
            &&& total != 0 ==> folded.len() == major.len() + 1 && folded.last() == miscellaneous(
                total,
            )
            &&& total == 0 ==> folded.len() == major.len()
        }),
{
    let folded = aggregated(sections, capacity);
    let major = major_sections(sections, capacity);
    let keep = |s: SectionView| !below_threshold(s.size, capacity);
    assert forall|i: int| 0 <= i < major.len() implies !below_threshold(
        (#[trigger] folded[i]).size,
        capacity,
    ) && sections.contains(folded[i]) by {
        sections.lemma_filter_pred(keep, i);
        sections.lemma_filter_contains_rev(keep, major[i]);
    }
}

} // verus!
