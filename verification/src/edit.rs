//! Structural edits of a layout: folding one region into another, and
//! dropping a section from a region.

use crate::find::{lemma_first_match, lemma_first_match_is, lemma_first_match_none};
use crate::region::{
    find_region, find_region_except, find_section, layout_view, names_unique, region_named,
    section_named, DetailedRegion, RegionView,
};
use crate::size::{sections_view, Section, SectionView};
use vstd::prelude::*;

verus! {

/// An edit of a layout.
///
/// An edit that names a region or a section which the layout does not hold
/// changes nothing and is no error: see [`SectionEdit::apply_to`].
#[derive(Debug)]
pub enum SectionEdit {
    /// Takes a region out of the layout and enters it, as a section of its
    /// capacity, at the front of another region, which grows by that
    /// capacity.
    GroupRegions {
        region_to_insert_as_section: String,
        output_region: String,
        output_section_name: String,
    },
    /// Drops the first section of the given name from a region.
    Ignore { region_name: String, section_name_to_ignore: String },
}

/// The mathematical value of a [`SectionEdit`].
pub enum EditView {
    GroupRegions {
        region_to_insert_as_section: Seq<char>,
        output_region: Seq<char>,
        output_section_name: Seq<char>,
    },
    Ignore { region_name: Seq<char>, section_name_to_ignore: Seq<char> },
}

impl View for SectionEdit {
    type V = EditView;

    open spec fn view(&self) -> EditView {
        match self {
            SectionEdit::GroupRegions {
                region_to_insert_as_section,
                output_region,
                output_section_name,
            } => EditView::GroupRegions {
                region_to_insert_as_section: region_to_insert_as_section@,
                output_region: output_region@,
                output_section_name: output_section_name@,
            },
            SectionEdit::Ignore { region_name, section_name_to_ignore } => EditView::Ignore {
                region_name: region_name@,
                section_name_to_ignore: section_name_to_ignore@,
            },
        }
    }
}

/// The values of a sequence of edits, in order.
pub open spec fn edits_view(edits: Seq<SectionEdit>) -> Seq<EditView> {
    edits.map_values(|e: SectionEdit| e@)
}

/// `region` after a region of `capacity` bytes was folded into it as a section
/// called `section`.
pub open spec fn absorbing(region: RegionView, section: Seq<char>, capacity: nat) -> RegionView {
    RegionView {
        name: region.name,
        length: region.length + capacity,
        sections: region.sections.insert(
            0,
            SectionView { name: section, size: capacity },
        ),
    }
}

/// `region` without the section at index `at`.
pub open spec fn dropping(region: RegionView, at: int) -> RegionView {
    RegionView {
        name: region.name,
        length: region.length,
        sections: region.sections.remove(at),
    }
}

/// The layout after the first region called `source` left it and was folded
/// into the first of the remaining regions called `dest`. Without a region
/// called `source`, or without one called `dest` among the remaining ones,
/// the layout stays as it is.
pub open spec fn grouped(
    layout: Seq<RegionView>,
    source: Seq<char>,
    dest: Seq<char>,
    section: Seq<char>,
) -> Seq<RegionView> {
    match region_named(layout, source) {
        None => layout,
        Some(i) => {
            let rest = layout.remove(i);
            match region_named(rest, dest) {
                None => layout,
                Some(j) => rest.update(j, absorbing(rest[j], section, layout[i].length)),
            }
        },
    }
}

/// Whether folding `source` into `dest` finds both regions.
pub open spec fn group_applies(
    layout: Seq<RegionView>,
    source: Seq<char>,
    dest: Seq<char>,
) -> bool {
    match region_named(layout, source) {
        None => false,
        Some(i) => region_named(layout.remove(i), dest) is Some,
    }
}

/// Whether what folding `source` into `dest` computes can be held: the
/// capacity of the region called `source` as the size of a section, and the
/// capacity that the region called `dest` grows to.
pub open spec fn group_fits(layout: Seq<RegionView>, source: Seq<char>, dest: Seq<char>) -> bool {
    match region_named(layout, source) {
        None => true,
        Some(i) => match region_named(layout.remove(i), dest) {
            None => true,
            Some(j) => layout[i].length <= u32::MAX && layout.remove(i)[j].length
                + layout[i].length <= u64::MAX,
        },
    }
}

/// The layout after the first section called `section` left the first region
/// called `region`. Without such a region or such a section in it the layout
/// stays as it is.
pub open spec fn ignoring(
    layout: Seq<RegionView>,
    region: Seq<char>,
    section: Seq<char>,
) -> Seq<RegionView> {
    match region_named(layout, region) {
        None => layout,
        Some(i) => match section_named(layout[i].sections, section) {
            None => layout,
            Some(k) => layout.update(i, dropping(layout[i], k)),
        },
    }
}

/// Whether dropping `section` from `region` finds both.
pub open spec fn ignore_applies(
    layout: Seq<RegionView>,
    region: Seq<char>,
    section: Seq<char>,
) -> bool {
    match region_named(layout, region) {
        None => false,
        Some(i) => section_named(layout[i].sections, section) is Some,
    }
}

/// The layout after `edit`.
pub open spec fn edited(layout: Seq<RegionView>, edit: EditView) -> Seq<RegionView> {
    match edit {
        EditView::GroupRegions {
            region_to_insert_as_section,
            output_region,
            output_section_name,
        } => grouped(layout, region_to_insert_as_section, output_region, output_section_name),
        EditView::Ignore { region_name, section_name_to_ignore } => ignoring(
            layout,
            region_name,
            section_name_to_ignore,
        ),
    }
}

/// Whether `edit` finds everything that it names in `layout`.
pub open spec fn edit_applies(layout: Seq<RegionView>, edit: EditView) -> bool {
    match edit {
        EditView::GroupRegions { region_to_insert_as_section, output_region, .. } => group_applies(
            layout,
            region_to_insert_as_section,
            output_region,
        ),
        EditView::Ignore { region_name, section_name_to_ignore } => ignore_applies(
            layout,
            region_name,
            section_name_to_ignore,
        ),
    }
}

/// Whether every size and capacity that `edit` computes on `layout` can be
/// held.
pub open spec fn edit_fits(layout: Seq<RegionView>, edit: EditView) -> bool {
    match edit {
        EditView::GroupRegions { region_to_insert_as_section, output_region, .. } => group_fits(
            layout,
            region_to_insert_as_section,
            output_region,
        ),
        EditView::Ignore { .. } => true,
    }
}

/// The layout after each of `edits` in turn, unless one of them computes a
/// size or a capacity that cannot be held.
pub open spec fn edited_in_order(
    layout: Seq<RegionView>,
    edits: Seq<EditView>,
) -> Option<Seq<RegionView>>
    decreases edits.len(),
{
    if edits.len() == 0 {
        Some(layout)
    } else if !edit_fits(layout, edits[0]) {
        None
    } else {
        edited_in_order(edited(layout, edits[0]), edits.skip(1))
    }
}

impl SectionEdit {
    /// Whether every size and capacity that the edit would compute on
    /// `regions` can be held: what [`SectionEdit::apply_to`] asks of its
    /// callers.
    pub fn fits(&self, regions: &Vec<DetailedRegion>) -> (ok: bool)
        ensures
            ok == edit_fits(layout_view(regions@), self@),
    {
        match self {
            SectionEdit::GroupRegions { region_to_insert_as_section, output_region, .. } => {
                let source = match find_region(regions, region_to_insert_as_section) {
                    Some(i) => i,
                    None => {
                        return true;
                    },
                };
                let dest = match find_region_except(regions, output_region, source) {
                    Some(k) => k,
                    None => {
                        return true;
                    },
                };
                regions[source].length <= u32::MAX as u64 && regions[dest].length.checked_add(
                    regions[source].length,
                ).is_some()
            },
            SectionEdit::Ignore { .. } => true,
        }
    }

    /// Applies the edit to `regions`.
    ///
    /// The result is `Some` where the edit found the regions and the section
    /// that it names, and `None` where it did not. That is no failure: an edit
    /// that does not find all that it names is skipped and changes nothing.
    pub fn apply_to(self, regions: &mut Vec<DetailedRegion>) -> (outcome: Option<()>)
        requires
            edit_fits(layout_view(old(regions)@), self@),
        ensures
            layout_view(final(regions)@) == edited(layout_view(old(regions)@), self@),
            outcome is Some <==> edit_applies(layout_view(old(regions)@), self@),
    {
        let ghost layout = layout_view(regions@);
        match self {
            SectionEdit::GroupRegions {
                region_to_insert_as_section,
                output_region: output_region_name,
                output_section_name,
            } => {
                let source = match find_region(regions, &region_to_insert_as_section) {
                    Some(i) => i,
                    None => {
                        return None;
                    },
                };
                let found = match find_region_except(regions, &output_region_name, source) {
                    Some(k) => k,
                    None => {
                        return None;
                    },
                };
                let reg2sec = regions.remove(source);
                let dest = if found < source {
                    found
                } else {
                    found - 1
                };
                let ghost rest = layout_view(regions@);
                proof {
                    assert(rest =~= layout.remove(source as int));
                }
                let capacity = reg2sec.length;
                let ghost before = regions@;
                let output_region = &mut regions[dest];
                output_region.sections.insert(0, Section(output_section_name, capacity as u32));
                output_region.length += capacity;
                proof {
                    assert(sections_view(regions@[dest as int].sections@) =~= sections_view(
                        before[dest as int].sections@,
                    ).insert(
                        0,
                        SectionView { name: output_section_name@, size: capacity as nat },
                    ));
                }
                Some(())
            },
            SectionEdit::Ignore { region_name, section_name_to_ignore } => {
                let at = match find_region(regions, &region_name) {
                    Some(i) => i,
                    None => {
                        return None;
                    },
                };
                let found = match find_section(&regions[at].sections, &section_name_to_ignore) {
                    Some(k) => k,
                    None => {
                        return None;
                    },
                };
                let ghost before = regions@;
                let reg = &mut regions[at];
                reg.sections.remove(found);
                proof {
                    assert(sections_view(regions@[at as int].sections@) =~= sections_view(
                        before[at as int].sections@,
                    ).remove(found as int));
                }
                Some(())
            },
        }
    }
}

/// Applies `edits` to `regions` one after another, in their order. Nothing is
/// returned where one of them computes a size or a capacity that cannot be
/// held. An edit that does not find what it names is skipped.
pub fn apply_edits(regions: Vec<DetailedRegion>, edits: Vec<SectionEdit>) -> (outcome:
    Option<Vec<DetailedRegion>>)
    ensures
        match outcome {
            Some(result) => edited_in_order(layout_view(regions@), edits_view(edits@)) == Some(
                layout_view(result@),
            ),
            None => edited_in_order(layout_view(regions@), edits_view(edits@)) is None,
        },
{
    let ghost views = edits_view(edits@);
    let ghost given = layout_view(regions@);
    let mut current = regions;
    proof {
        assert(views.skip(0) =~= views);
    }
    for edit in iter: edits
        invariant
            views == edits_view(edits@),
            given == layout_view(regions@),
            iter.seq() == edits@,
            edited_in_order(given, views) == edited_in_order(
                layout_view(current@),
                views.skip(iter.index() as int),
            ),
    {
        proof {
            assert(views.skip(iter.index() as int).skip(1) =~= views.skip(iter.index() + 1));
        }
        if !edit.fits(&current) {
            return None;
        }
        let _ = edit.apply_to(&mut current);
    }
    Some(current)
}

/// An edit changes no name and adds no region: every region of the edited
/// layout bears the name of a region of the layout before, a layout without
/// two regions of one name stays so, and the layout does not grow.
pub proof fn lemma_edit_keeps_names(layout: Seq<RegionView>, edit: EditView)
    ensures
        edited(layout, edit).len() <= layout.len(),
        forall|i: int|
            0 <= i < edited(layout, edit).len() ==> exists|j: int|
                0 <= j < layout.len() && layout[j].name == (#[trigger] edited(
                    layout,
                    edit,
                )[i]).name,
        names_unique(layout) ==> names_unique(edited(layout, edit)),
{
    match edit {
        EditView::GroupRegions { region_to_insert_as_section, output_region, .. } => {
            lemma_first_match(layout, |r: RegionView| r.name == region_to_insert_as_section);
            if let Some(i) = region_named(layout, region_to_insert_as_section) {
                lemma_first_match(layout.remove(i), |r: RegionView| r.name == output_region);
            }
        },
        EditView::Ignore { region_name, section_name_to_ignore } => {
            lemma_first_match(layout, |r: RegionView| r.name == region_name);
            if let Some(i) = region_named(layout, region_name) {
                lemma_first_match(
                    layout[i].sections,
                    |s: SectionView| s.name == section_name_to_ignore,
                );
            }
        },
    }
}

/// Edits applied in order leave a layout without two regions of one name as
/// such a layout.
pub proof fn lemma_edits_keep_names_unique(layout: Seq<RegionView>, edits: Seq<EditView>)
    requires
        names_unique(layout),
    ensures
        edited_in_order(layout, edits) matches Some(result) ==> names_unique(result),
    decreases edits.len(),
{
    if edits.len() > 0 && edit_fits(layout, edits[0]) {
        lemma_edit_keeps_names(layout, edits[0]);
        lemma_edits_keep_names_unique(edited(layout, edits[0]), edits.skip(1));
    }
}

/// A fold that finds both regions takes the source out of the layout, enters
/// it at the front of the destination as a section of the source's capacity,
/// whatever sections the source held, and lets the destination grow by that
/// capacity. Every other region stays as it is, in its place.
pub proof fn lemma_group_folds(
    layout: Seq<RegionView>,
    source: Seq<char>,
    dest: Seq<char>,
    section: Seq<char>,
)
    requires
        group_applies(layout, source, dest),
    ensures
        ({
            let i = region_named(layout, source)->0;
            let rest = layout.remove(i);
            let j = region_named(rest, dest)->0;
            let after = grouped(layout, source, dest, section);
            &&& 0 <= i < layout.len() && layout[i].name == source
            &&& 0 <= j < rest.len() && rest[j].name == dest
            &&& after.len() == layout.len() - 1
            &&& after[j].name == dest
            &&& after[j].length == rest[j].length + layout[i].length
            &&& after[j].sections.len() == rest[j].sections.len() + 1
            &&& after[j].sections[0] == (SectionView { name: section, size: layout[i].length })
            &&& after[j].sections.skip(1) == rest[j].sections
            &&& forall|k: int| 0 <= k < after.len() && k != j ==> after[k] == rest[k]
        }),
{
    let i = region_named(layout, source)->0;
    let rest = layout.remove(i);
    let j = region_named(rest, dest)->0;
    lemma_first_match(layout, |r: RegionView| r.name == source);
    lemma_first_match(rest, |r: RegionView| r.name == dest);
    assert(grouped(layout, source, dest, section)[j].sections.skip(1) =~= rest[j].sections);
}

/// An edit that does not find all that it names leaves the layout as it is.
pub proof fn lemma_edit_without_match(layout: Seq<RegionView>, edit: EditView)
    requires
        !edit_applies(layout, edit),
    ensures
        edited(layout, edit) == layout,
{
}

/// Once a region has been folded into another, an edit that drops a section
/// from it finds nothing and leaves the layout as it is, in a layout without
/// two regions of one name. Dropping the section first and folding the region
/// afterwards ends in the same layout: only the outcome of the drop differs.
pub proof fn lemma_ignore_after_group(
    layout: Seq<RegionView>,
    source: Seq<char>,
    dest: Seq<char>,
    section: Seq<char>,
    ignored: Seq<char>,
)
    requires
        names_unique(layout),
        group_applies(layout, source, dest),
    ensures
        ({
            let group = EditView::GroupRegions {
                region_to_insert_as_section: source,
                output_region: dest,
                output_section_name: section,
            };
            let ignore = EditView::Ignore {
                region_name: source,
                section_name_to_ignore: ignored,
            };
            &&& !edit_applies(edited(layout, group), ignore)
            &&& edited(edited(layout, group), ignore) == edited(layout, group)
            &&& edited(edited(layout, ignore), group) == edited(layout, group)
        }),
{
    let group = EditView::GroupRegions {
        region_to_insert_as_section: source,
        output_region: dest,
        output_section_name: section,
    };
    let ignore = EditView::Ignore { region_name: source, section_name_to_ignore: ignored };
    let is_source = |r: RegionView| r.name == source;
    let i = region_named(layout, source)->0;
    lemma_first_match(layout, is_source);
    lemma_first_match(layout.remove(i), |r: RegionView| r.name == dest);
    // No region of the layout after the fold is called `source`.
    lemma_first_match_none(edited(layout, group), is_source);
    // Dropping the section first changes neither a name nor a capacity.
    let first = edited(layout, ignore);
    lemma_first_match(layout[i].sections, |s: SectionView| s.name == ignored);
    lemma_first_match_is(first, is_source, i);
    assert(first.remove(i) =~= layout.remove(i));
}

} // verus!
