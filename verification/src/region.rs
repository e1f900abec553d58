//! Memory regions and the layout that they form.

use crate::find::{first_match, lemma_first_match_is, lemma_first_match_none};
use crate::size::{sections_view, Section, SectionView};
use vstd::prelude::*;

verus! {

/// A memory region with the sections that reside in it. The order of the
/// sections is the order in which they are reported.
#[derive(Debug, Clone)]
pub struct DetailedRegion {
    pub name: String,
    pub length: u64,
    pub sections: Vec<Section>,
}

/// The mathematical value of a [`DetailedRegion`].
pub struct RegionView {
    pub name: Seq<char>,
    pub length: nat,
    pub sections: Seq<SectionView>,
}

impl View for DetailedRegion {
    type V = RegionView;

    open spec fn view(&self) -> RegionView {
        RegionView {
            name: self.name@,
            length: self.length as nat,
            sections: sections_view(self.sections@),
        }
    }
}

/// The values of a sequence of regions, in order.
pub open spec fn layout_view(regions: Seq<DetailedRegion>) -> Seq<RegionView> {
    regions.map_values(|r: DetailedRegion| r@)
}

/// The index of the first region of `layout` called `name`.
pub open spec fn region_named(layout: Seq<RegionView>, name: Seq<char>) -> Option<int> {
    first_match(layout, |r: RegionView| r.name == name)
}

/// The index of the first section of `sections` called `name`.
pub open spec fn section_named(sections: Seq<SectionView>, name: Seq<char>) -> Option<int> {
    first_match(sections, |s: SectionView| s.name == name)
}

/// Whether no two regions of `layout` share a name.
pub open spec fn names_unique(layout: Seq<RegionView>) -> bool {
    forall|i: int, j: int|
        0 <= i < layout.len() && 0 <= j < layout.len() && i != j ==> (#[trigger] layout[i]).name
            != (#[trigger] layout[j]).name
}

/// Finds the first region called `name`.
pub fn find_region(regions: &Vec<DetailedRegion>, name: &String) -> (found: Option<usize>)
    ensures
        match found {
            Some(i) => i < regions.len() && region_named(layout_view(regions@), name@) == Some(
                i as int,
            ),
            None => region_named(layout_view(regions@), name@) is None,
        },
{
    let ghost layout = layout_view(regions@);
    let ghost wanted = |r: RegionView| r.name == name@;
    let mut i: usize = 0;
    while i < regions.len()
        invariant
            i <= regions.len(),
            layout == layout_view(regions@),
            wanted == (|r: RegionView| r.name == name@),
            forall|j: int| 0 <= j < i ==> !wanted(#[trigger] layout[j]),
        decreases regions.len() - i,
    {
        if regions[i].name == *name {
            proof {
                lemma_first_match_is(layout, wanted, i as int);
            }
            return Some(i);
        }
        i += 1;
    }
    proof {
        lemma_first_match_none(layout, wanted);
    }
    None
}

/// Finds the first region called `name` among the regions other than the one
/// at index `skipped`: the region that a search of the layout without that one
/// would find.
pub fn find_region_except(regions: &Vec<DetailedRegion>, name: &String, skipped: usize) -> (found:
    Option<usize>)
    requires
        skipped < regions.len(),
    ensures
        match found {
            Some(k) => {
                &&& k < regions.len()
                &&& k != skipped
                &&& region_named(layout_view(regions@).remove(skipped as int), name@) == Some(
                    if k < skipped {
                        k as int
                    } else {
                        k - 1
                    },
                )
            },
            None => region_named(layout_view(regions@).remove(skipped as int), name@) is None,
        },
{
    let ghost rest = layout_view(regions@).remove(skipped as int);
    let ghost wanted = |r: RegionView| r.name == name@;
    let mut i: usize = 0;
    while i < regions.len()
        invariant
            i <= regions.len(),
            skipped < regions.len(),
            rest == layout_view(regions@).remove(skipped as int),
            wanted == (|r: RegionView| r.name == name@),
            forall|j: int| 0 <= j < i && j != skipped ==> regions@[j].name@ != name@,
        decreases regions.len() - i,
    {
        if i != skipped && regions[i].name == *name {
            proof {
                let at = if i < skipped {
                    i as int
                } else {
                    i - 1
                };
                lemma_first_match_is(rest, wanted, at);
            }
            return Some(i);
        }
        i += 1;
    }
    proof {
        lemma_first_match_none(rest, wanted);
    }
    None
}

/// Finds the first section called `name`.
pub fn find_section(sections: &Vec<Section>, name: &String) -> (found: Option<usize>)
    ensures
        match found {
            Some(i) => i < sections.len() && section_named(sections_view(sections@), name@)
                == Some(i as int),
            None => section_named(sections_view(sections@), name@) is None,
        },
{
    let ghost records = sections_view(sections@);
    let ghost wanted = |s: SectionView| s.name == name@;
    let mut i: usize = 0;
    while i < sections.len()
        invariant
            i <= sections.len(),
            records == sections_view(sections@),
            wanted == (|s: SectionView| s.name == name@),
            forall|j: int| 0 <= j < i ==> !wanted(#[trigger] records[j]),
        decreases sections.len() - i,
    {
        if sections[i].0 == *name {
            proof {
                lemma_first_match_is(records, wanted, i as int);
            }
            return Some(i);
        }
        i += 1;
    }
    proof {
        lemma_first_match_none(records, wanted);
    }
    None
}

} // verus!
