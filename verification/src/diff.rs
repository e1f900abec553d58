//! The change of each section's size since the previous build.

use crate::find::lemma_first_match_none;
use crate::region::{
    find_region, find_section, layout_view, region_named, section_named, DetailedRegion,
    RegionView,
};
use crate::size::{sections_view, Section, SectionView};
use vstd::prelude::*;

verus! {

/// A section with its change in bytes since the previous build.
pub struct SectionDelta {
    pub section: SectionView,
    pub delta: int,
}

/// The values of a sequence of sections with their changes, in order.
pub open spec fn deltas_view(diffs: Seq<(Section, i64)>) -> Seq<SectionDelta> {
    diffs.map_values(|d: (Section, i64)| SectionDelta { section: d.0@, delta: d.1 as int })
}

/// The change of `section` against `previous`: its size less the size of the
/// first section of its name among `previous`, and zero where there are no
/// previous sections or none of that name.
pub open spec fn size_delta(section: SectionView, previous: Option<Seq<SectionView>>) -> int {
    match previous {
        None => 0,
        Some(before) => match section_named(before, section.name) {
            None => 0,
            Some(k) => section.size - before[k].size,
        },
    }
}

/// Each of `sections` with its change against `previous`, in order.
pub open spec fn size_deltas(
    sections: Seq<SectionView>,
    previous: Option<Seq<SectionView>>,
) -> Seq<SectionDelta> {
    sections.map_values(
        |s: SectionView| SectionDelta { section: s, delta: size_delta(s, previous) },
    )
}

/// The view of an optional list of previous sections.
pub open spec fn previous_view(previous: Option<&Vec<Section>>) -> Option<Seq<SectionView>> {
    match previous {
        None => None,
        Some(before) => Some(sections_view(before@)),
    }
}

/// Gives each of `sections` its change in bytes against the section of the
/// same name among `prev_sections`. A section that is new, or whose region is
/// new, or for which there is no previous build at all, has the change zero;
/// a previous section that is gone does not show.
pub fn compute_sections_size_diff(
    sections: Vec<Section>,
    prev_sections: Option<&Vec<Section>>,
) -> (diffs: Vec<(Section, i64)>)
    ensures
        deltas_view(diffs@) == size_deltas(
            sections_view(sections@),
            previous_view(prev_sections),
        ),
{
    let ghost views = sections_view(sections@);
    let ghost previous = previous_view(prev_sections);
    let mut diffs: Vec<(Section, i64)> = Vec::new();
    for sec in iter: sections
        invariant
            iter.seq() == sections@,
            views == sections_view(sections@),
            previous == previous_view(prev_sections),
            diffs@.len() == iter.index(),
            forall|k: int|
                0 <= k < diffs@.len() ==> (#[trigger] diffs@[k]).0@ == views[k] && diffs@[k].1
                    == size_delta(views[k], previous),
    {
        let size = sec.1;
        let previous_size = match prev_sections {
            None => size,
            Some(before) => match find_section(before, &sec.0) {
                None => size,
                Some(k) => {
                    before[k].1
                },
            },
        };
        let delta: i64 = size as i64 - previous_size as i64;
        diffs.push((sec, delta));
    }
    diffs
}

/// A region as it is reported: its name, its capacity, and its sections with
/// the change of each since the previous build.
#[derive(Debug)]
pub struct RegionReport {
    pub name: String,
    pub length: u64,
    pub sections: Vec<(Section, i64)>,
}

/// The mathematical value of a [`RegionReport`].
pub struct RegionReportView {
    pub name: Seq<char>,
    pub length: nat,
    pub sections: Seq<SectionDelta>,
}

impl View for RegionReport {
    type V = RegionReportView;

    open spec fn view(&self) -> RegionReportView {
        RegionReportView {
            name: self.name@,
            length: self.length as nat,
            sections: deltas_view(self.sections@),
        }
    }
}

/// The values of a sequence of reports, in order.
pub open spec fn reports_view(reports: Seq<RegionReport>) -> Seq<RegionReportView> {
    reports.map_values(|r: RegionReport| r@)
}

/// The sections of the first region of `previous` called `name`, where there
/// is a previous layout with such a region.
pub open spec fn previous_sections(
    previous: Option<Seq<RegionView>>,
    name: Seq<char>,
) -> Option<Seq<SectionView>> {
    match previous {
        None => None,
        Some(before) => match region_named(before, name) {
            None => None,
            Some(i) => Some(before[i].sections),
        },
    }
}

/// The report of `region` against the layout of the previous build.
pub open spec fn region_report(
    region: RegionView,
    previous: Option<Seq<RegionView>>,
) -> RegionReportView {
    RegionReportView {
        name: region.name,
        length: region.length,
        sections: size_deltas(region.sections, previous_sections(previous, region.name)),
    }
}

/// The report of every region of `layout`, in order.
pub open spec fn layout_report(
    layout: Seq<RegionView>,
    previous: Option<Seq<RegionView>>,
) -> Seq<RegionReportView> {
    layout.map_values(|r: RegionView| region_report(r, previous))
}

/// The view of an optional previous layout.
pub open spec fn previous_layout_view(
    previous: Option<&Vec<DetailedRegion>>,
) -> Option<Seq<RegionView>> {
    match previous {
        None => None,
        Some(before) => Some(layout_view(before@)),
    }
}

/// Reports every region of `regions`, in order, with the change of each of its
/// sections against the region of the same name in `previous_memory_layout`.
pub fn compute_layout_diff(
    regions: Vec<DetailedRegion>,
    previous_memory_layout: Option<&Vec<DetailedRegion>>,
) -> (reports: Vec<RegionReport>)
    ensures
        reports_view(reports@) == layout_report(
            layout_view(regions@),
            previous_layout_view(previous_memory_layout),
        ),
{
    let ghost layout = layout_view(regions@);
    let ghost previous = previous_layout_view(previous_memory_layout);
    let mut reports: Vec<RegionReport> = Vec::new();
    for region in iter: regions
        invariant
            iter.seq() == regions@,
            layout == layout_view(regions@),
            previous == previous_layout_view(previous_memory_layout),
            reports@.len() == iter.index(),
            forall|k: int|
                0 <= k < reports@.len() ==> (#[trigger] reports@[k])@ == region_report(
                    layout[k],
                    previous,
                ),
    {
        let prev_sections: Option<&Vec<Section>> = match previous_memory_layout {
            None => None,
            Some(before) => match find_region(before, &region.name) {
                None => None,
                Some(i) => {
                    Some(&before[i].sections)
                },
            },
        };
        let DetailedRegion { name, length, sections } = region;
        let sections_with_diff = compute_sections_size_diff(sections, prev_sections);
        reports.push(RegionReport { name, length, sections: sections_with_diff });
    }
    reports
}

/// A section whose name no previous section bears has the change zero,
/// whatever its size.
pub proof fn lemma_new_section_unchanged(section: SectionView, previous: Seq<SectionView>)
    requires
        forall|k: int| 0 <= k < previous.len() ==> (#[trigger] previous[k]).name != section.name,
    ensures
        size_delta(section, Some(previous)) == 0,
{
    lemma_first_match_none(previous, |s: SectionView| s.name == section.name);
}

/// In the report of a layout, a section that the region of the same name in
/// the previous layout does not hold by name has the change zero, and so has
/// every section where there is no previous layout or no such region in it.
pub proof fn lemma_report_neutral_for_new(
    layout: Seq<RegionView>,
    previous: Option<Seq<RegionView>>,
    r: int,
    s: int,
)
    requires
        0 <= r < layout.len(),
        0 <= s < layout[r].sections.len(),
        match previous_sections(previous, layout[r].name) {
            None => true,
            Some(before) => forall|k: int|
                0 <= k < before.len() ==> (#[trigger] before[k]).name
                    != layout[r].sections[s].name,
        },
    ensures
        layout_report(layout, previous)[r].sections[s].section == layout[r].sections[s],
        layout_report(layout, previous)[r].sections[s].delta == 0,
{
    if let Some(before) = previous_sections(previous, layout[r].name) {
        lemma_new_section_unchanged(layout[r].sections[s], before);
    }
}

} // verus!
