//! From a linker script and the sections of an image to the layout that is
//! reported.

use crate::aggregate::{aggregate, folded, FoldError};
use crate::correlate::{correlate, correlated, rules_view, PlacementRule, PlacementRuleView};
use crate::find::{first_match, lemma_first_match, lemma_first_match_is, lemma_first_match_none};
use crate::edit::{
    apply_edits, edited_in_order, edits_view, lemma_edits_keep_names_unique, EditView,
    SectionEdit,
};
use crate::region::{layout_view, names_unique, DetailedRegion, RegionView};
use crate::script::{
    collect_placement_rules, declared_regions, items_view, memory_block, parse_script,
    placement_rules, script_items, MemoryRegion, MemoryRegionView, ScriptItem, ScriptItemView,
};
use crate::size::{sections_view, Section, SectionView};
use vstd::prelude::*;

verus! {

/// Why no layout could be computed.
#[derive(Debug, Clone, Copy, PartialEq, Eq, Structural)]
pub enum LayoutError {
    /// The linker script does not parse.
    ParseFailure,
    /// The linker script declares no memory regions.
    MissingRegions,
    /// A region that the script declares without capacity holds sections, so
    /// that their shares of it cannot be computed.
    ZeroCapacity,
    /// A size or a capacity that the layout calls for cannot be held: the
    /// folded sections of a region, or the capacity of a region that is
    /// entered as a section, exceed what a section's size holds, or the
    /// capacity of a region that another is folded into exceeds 64 bits.
    Overflow,
}

/// The reason for which no layout is computed where folding fails.
pub open spec fn fold_failure(error: FoldError) -> LayoutError {
    match error {
        FoldError::ZeroCapacity => LayoutError::ZeroCapacity,
        FoldError::Overflow => LayoutError::Overflow,
    }
}

/// The region that `declared` becomes: with the samples that the rules place
/// in it, the small ones folded, or the reason why they cannot be folded.
pub open spec fn resolved_region(
    declared: MemoryRegionView,
    samples: Seq<SectionView>,
    rules: Seq<PlacementRuleView>,
) -> Result<RegionView, LayoutError> {
    match folded(correlated(samples, rules, declared.name), declared.length) {
        Ok(sections) => Ok(
            RegionView { name: declared.name, length: declared.length, sections: sections },
        ),
        Err(error) => Err(fold_failure(error)),
    }
}

/// The regions that all of `declared` become, in order, or the reason why the
/// first of them that cannot be built cannot.
pub open spec fn resolved_regions(
    declared: Seq<MemoryRegionView>,
    samples: Seq<SectionView>,
    rules: Seq<PlacementRuleView>,
) -> Result<Seq<RegionView>, LayoutError> {
    match first_match(
        declared,
        |d: MemoryRegionView| resolved_region(d, samples, rules) is Err,
    ) {
        Some(k) => Err(resolved_region(declared[k], samples, rules)->Err_0),
        None => Ok(
            declared.map_values(|d: MemoryRegionView| resolved_region(d, samples, rules)->Ok_0),
        ),
    }
}

/// The layout that the items of a script, the samples of an image and a list
/// of edits give: the declared regions of the first `MEMORY` block, each with
/// its samples and the small ones folded, then edited in the order of the
/// edits.
pub open spec fn resolved(
    items: Seq<ScriptItemView>,
    samples: Seq<SectionView>,
    edits: Seq<EditView>,
) -> Result<Seq<RegionView>, LayoutError> {
    match memory_block(items) {
        None => Err(LayoutError::MissingRegions),
        Some(declared) => match resolved_regions(declared, samples, placement_rules(items)) {
            Err(error) => Err(error),
            Ok(layout) => match edited_in_order(layout, edits) {
                None => Err(LayoutError::Overflow),
                Some(result) => Ok(result),
            },
        },
    }
}

/// The layout that the text of a script, the samples of an image and a list
/// of edits give.
pub open spec fn script_layout(
    text: Seq<char>,
    samples: Seq<SectionView>,
    edits: Seq<EditView>,
) -> Result<Seq<RegionView>, LayoutError> {
    match script_items(text) {
        None => Err(LayoutError::ParseFailure),
        Some(items) => resolved(items, samples, edits),
    }
}

/// The view of a layout or the reason why there is none.
pub open spec fn outcome_view(
    outcome: Result<Vec<DetailedRegion>, LayoutError>,
) -> Result<Seq<RegionView>, LayoutError> {
    match outcome {
        Ok(regions) => Ok(layout_view(regions@)),
        Err(e) => Err(e),
    }
}

/// Builds the region that `declared` becomes: the samples that the rules
/// place in it, with the small ones folded.
pub fn resolve_region(
    declared: &MemoryRegion,
    samples: &[Section],
    rules: &[PlacementRule],
) -> (region: Result<DetailedRegion, LayoutError>)
    ensures
        match region {
            Ok(r) => resolved_region(declared@, sections_view(samples@), rules_view(rules@))
                == Ok::<RegionView, LayoutError>(r@),
            Err(e) => resolved_region(declared@, sections_view(samples@), rules_view(rules@))
                == Err::<RegionView, LayoutError>(e),
        },
{
    let found = correlate(samples, rules, &declared.name);
    match aggregate(found, declared.length) {
        Ok(sections) => Ok(
            DetailedRegion { name: declared.name.clone(), length: declared.length, sections },
        ),
        Err(FoldError::ZeroCapacity) => Err(LayoutError::ZeroCapacity),
        Err(FoldError::Overflow) => Err(LayoutError::Overflow),
    }
}

/// Computes the layout from the items of a linker script, the sections of the
/// image and the edits to apply.
///
/// The regions are those of the first `MEMORY` block, in its order; without
/// such a block there is no layout. Each region holds the sections that the
/// script places in it, those below the threshold folded into one entry; then
/// the edits are applied in their order. A region without capacity that holds
/// sections, and a size or a capacity that cannot be held, are errors.
pub fn resolve_layout(
    items: &Vec<ScriptItem>,
    sections_sizes: &[Section],
    edits: Vec<SectionEdit>,
) -> (outcome: Result<Vec<DetailedRegion>, LayoutError>)
    ensures
        outcome_view(outcome) == resolved(
            items_view(items@),
            sections_view(sections_sizes@),
            edits_view(edits@),
        ),
{
    let declared = match declared_regions(items) {
        Some(regions) => regions,
        None => {
            return Err(LayoutError::MissingRegions);
        },
    };
    let rules = collect_placement_rules(items);
    let ghost samples = sections_view(sections_sizes@);
    let ghost declared_views = declared@.map_values(|r: MemoryRegion| r@);
    let ghost fails = |d: MemoryRegionView| resolved_region(d, samples, rules_view(rules@)) is Err;
    let mut regions: Vec<DetailedRegion> = Vec::new();
    let mut i: usize = 0;
    while i < declared.len()
        invariant
            i <= declared.len(),
            samples == sections_view(sections_sizes@),
            declared_views == declared@.map_values(|r: MemoryRegion| r@),
            fails == (|d: MemoryRegionView|
                resolved_region(d, samples, rules_view(rules@)) is Err),
            memory_block(items_view(items@)) == Some(declared_views),
            rules_view(rules@) == placement_rules(items_view(items@)),
            regions@.len() == i,
            forall|k: int|
                0 <= k < i ==> resolved_region(
                    #[trigger] declared_views[k],
                    samples,
                    rules_view(rules@),
                ) == Ok::<RegionView, LayoutError>(regions@[k]@),
        decreases declared.len() - i,
    {
        match resolve_region(&declared[i], sections_sizes, rules.as_slice()) {
            Ok(region) => {
                regions.push(region);
            },
            Err(error) => {
                proof {
                    lemma_first_match_is(declared_views, fails, i as int);
                }
                return Err(error);
            },
        }
        i += 1;
    }
    proof {
        lemma_first_match_none(declared_views, fails);
        assert(layout_view(regions@) =~= resolved_regions(
            declared_views,
            samples,
            rules_view(rules@),
        )->Ok_0);
    }
    match apply_edits(regions, edits) {
        Some(result) => Ok(result),
        None => Err(LayoutError::Overflow),
    }
}

/// Computes the layout from the text of a linker script, the sections of the
/// image and the edits to apply: [`resolve_layout`] on the items that the
/// script parses into.
pub fn parse_ld_memory_layout(
    script: &str,
    sections_sizes: &[Section],
    edits: Vec<SectionEdit>,
) -> (outcome: Result<Vec<DetailedRegion>, LayoutError>)
    ensures
        outcome_view(outcome) == script_layout(
            script@,
            sections_view(sections_sizes@),
            edits_view(edits@),
        ),
{
    match parse_script(script) {
        Some(items) => resolve_layout(&items, sections_sizes, edits),
        None => Err(LayoutError::ParseFailure),
    }
}

/// Whether no two of the `declared` regions share a name.
pub open spec fn declared_names_unique(declared: Seq<MemoryRegionView>) -> bool {
    forall|i: int, j: int|
        0 <= i < declared.len() && 0 <= j < declared.len() && i != j ==> (
        #[trigger] declared[i]).name != (#[trigger] declared[j]).name
}

/// Where the script declares no two regions of one name, the layout holds no
/// two regions of one name, whatever the samples and the edits.
pub proof fn lemma_resolved_names_unique(
    items: Seq<ScriptItemView>,
    samples: Seq<SectionView>,
    edits: Seq<EditView>,
)
    requires
        memory_block(items) matches Some(declared) ==> declared_names_unique(declared),
    ensures
        resolved(items, samples, edits) matches Ok(layout) ==> names_unique(layout),
{
    if let Some(declared) = memory_block(items) {
        if let Ok(built) = resolved_regions(declared, samples, placement_rules(items)) {
            lemma_first_match(
                declared,
                |d: MemoryRegionView| resolved_region(d, samples, placement_rules(items)) is Err,
            );
            assert forall|i: int, j: int|
                0 <= i < built.len() && 0 <= j < built.len() && i != j implies (
            #[trigger] built[i]).name != (#[trigger] built[j]).name by {
                assert(built[i].name == declared[i].name);
                assert(built[j].name == declared[j].name);
            }
            lemma_edits_keep_names_unique(built, edits);
        }
    }
}

/// Without edits the layout has one region for each declared region, in the
/// order of the script, with its name, its capacity and the sections that the
/// rules place in it, the small ones folded.
pub proof fn lemma_resolved_follows_declaration(
    items: Seq<ScriptItemView>,
    samples: Seq<SectionView>,
)
    ensures
        resolved(items, samples, Seq::empty()) matches Ok(layout) ==> ({
            let declared = memory_block(items)->0;
            &&& layout.len() == declared.len()
            &&& forall|i: int|
                0 <= i < layout.len() ==> (#[trigger] layout[i]).name == declared[i].name
                    && layout[i].length == declared[i].length && folded(
                    correlated(samples, placement_rules(items), declared[i].name),
                    declared[i].length,
                ) == Ok::<Seq<SectionView>, FoldError>(layout[i].sections)
        }),
{
    if let Some(declared) = memory_block(items) {
        lemma_first_match(
            declared,
            |d: MemoryRegionView| resolved_region(d, samples, placement_rules(items)) is Err,
        );
    }
}

/// A layout is computed only where no declared region without capacity is
/// given a section: where the script declares such a region and the rules
/// place a sample of a size other than zero in it, there is none.
pub proof fn lemma_zero_capacity_is_refused(
    items: Seq<ScriptItemView>,
    samples: Seq<SectionView>,
    edits: Seq<EditView>,
    r: int,
)
    requires
        memory_block(items) matches Some(declared) && 0 <= r < declared.len()
            && declared[r].length == 0 && correlated(
            samples,
            placement_rules(items),
            declared[r].name,
        ).len() > 0,
    ensures
        resolved(items, samples, edits) is Err,
{
    let declared = memory_block(items)->0;
    lemma_first_match(
        declared,
        |d: MemoryRegionView| resolved_region(d, samples, placement_rules(items)) is Err,
    );
}

} // verus!
