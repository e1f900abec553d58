//! Matching the sections of an image with the regions that the placement
//! rules assign them to.

use crate::size::{sections_view, Section, SectionView};
use vstd::prelude::*;

verus! {

/// Where a linker script places an output section: the region of its run-time
/// address and, where it differs, the region that it is loaded from.
#[derive(Debug, Clone)]
pub struct PlacementRule {
    pub section_name: String,
    pub region_name: String,
    pub load_region_name: Option<String>,
}

/// The mathematical value of a [`PlacementRule`].
pub struct PlacementRuleView {
    pub section_name: Seq<char>,
    pub region_name: Seq<char>,
    pub load_region_name: Option<Seq<char>>,
}

impl View for PlacementRule {
    type V = PlacementRuleView;

    open spec fn view(&self) -> PlacementRuleView {
        PlacementRuleView {
            section_name: self.section_name@,
            region_name: self.region_name@,
            load_region_name: match self.load_region_name {
                Some(name) => Some(name@),
                None => None,
            },
        }
    }
}

/// The values of a sequence of rules, in order.
pub open spec fn rules_view(rules: Seq<PlacementRule>) -> Seq<PlacementRuleView> {
    rules.map_values(|r: PlacementRule| r@)
}

/// Whether `rule` puts the section called `section` into the region called
/// `region`, by its run-time address or by its load address.
pub open spec fn rule_places(
    rule: PlacementRuleView,
    section: Seq<char>,
    region: Seq<char>,
) -> bool {
    rule.section_name == section && (rule.region_name == region || rule.load_region_name
        == Some(region))
}

/// Whether some rule puts the section called `section` into the region called
/// `region`.
pub open spec fn placed_in(
    rules: Seq<PlacementRuleView>,
    section: Seq<char>,
    region: Seq<char>,
) -> bool {
    exists|i: int| 0 <= i < rules.len() && rule_places(#[trigger] rules[i], section, region)
}

/// Whether the region called `region` reports `sample`: its size is not zero
/// and some rule places it there.
pub open spec fn resides_in(
    rules: Seq<PlacementRuleView>,
    region: Seq<char>,
    sample: SectionView,
) -> bool {
    sample.size != 0 && placed_in(rules, sample.name, region)
}

/// The sections that the region called `region` reports, in the order of
/// `samples`.
pub open spec fn correlated(
    samples: Seq<SectionView>,
    rules: Seq<PlacementRuleView>,
    region: Seq<char>,
) -> Seq<SectionView> {
    samples.filter(|s: SectionView| resides_in(rules, region, s))
}

impl PlacementRule {
    /// Whether this rule puts the section called `section` into the region
    /// called `region`.
    pub fn places(&self, section: &String, region: &String) -> (yes: bool)
        ensures
            yes == rule_places(self@, section@, region@),
    {
        if self.section_name != *section {
            return false;
        }
        if self.region_name == *region {
            return true;
        }
        match &self.load_region_name {
            Some(load) => *load == *region,
            None => false,
        }
    }
}

/// Whether some rule of `rules` puts the section called `section` into the
/// region called `region`.
pub fn is_placed(rules: &[PlacementRule], section: &String, region: &String) -> (yes: bool)
    ensures
        yes == placed_in(rules_view(rules@), section@, region@),
{
    let ghost views = rules_view(rules@);
    let mut i: usize = 0;
    while i < rules.len()
        invariant
            i <= rules.len(),
            views == rules_view(rules@),
            forall|j: int| 0 <= j < i ==> !rule_places(#[trigger] views[j], section@, region@),
        decreases rules.len() - i,
    {
        if rules[i].places(section, region) {
            assert(rule_places(views[i as int], section@, region@));
            return true;
        }
        i += 1;
    }
    false
}

/// The sections of `samples` that the region called `region` reports: those of
/// a size other than zero that some rule places there, in the order of
/// `samples`. A section that two regions are given, one for its run-time
/// address and one for its load address, is reported by both.
pub fn correlate(samples: &[Section], rules: &[PlacementRule], region: &String) -> (found:
    Vec<Section>)
    ensures
        sections_view(found@) == correlated(
            sections_view(samples@),
            rules_view(rules@),
            region@,
        ),
{
    let ghost views = sections_view(samples@);
    let ghost keep = |s: SectionView| resides_in(rules_view(rules@), region@, s);
    let mut found: Vec<Section> = Vec::new();
    let mut i: usize = 0;
    proof {
        reveal(Seq::filter);
    }
    while i < samples.len()
        invariant
            i <= samples.len(),
            views == sections_view(samples@),
            keep == (|s: SectionView| resides_in(rules_view(rules@), region@, s)),
            sections_view(found@) == views.take(i as int).filter(keep),
        decreases samples.len() - i,
    {
        let sample = &samples[i];
        proof {
            reveal(Seq::filter);
            assert(views.take(i + 1).drop_last() =~= views.take(i as int));
        }
        if sample.1 != 0 && is_placed(rules, &sample.0, region) {
            found.push(sample.duplicate());
        }
        i += 1;
    }
    proof {
        assert(views.take(i as int) =~= views);
    }
    found
}

/// A region reports exactly the samples of a size other than zero that some
/// rule places in it: every such sample is among its sections, and each of its
/// sections is such a sample.
pub proof fn lemma_correlated_exactly(
    samples: Seq<SectionView>,
    rules: Seq<PlacementRuleView>,
    region: Seq<char>,
    sample: SectionView,
)
    ensures
        correlated(samples, rules, region).contains(sample) <==> samples.contains(sample)
            && sample.size != 0 && placed_in(rules, sample.name, region),
{
    let keep = |s: SectionView| resides_in(rules, region, s);
    if correlated(samples, rules, region).contains(sample) {
        samples.lemma_filter_contains_rev(keep, sample);
    }
    if samples.contains(sample) && resides_in(rules, region, sample) {
        let i = choose|i: int| 0 <= i < samples.len() && samples[i] == sample;
        samples.lemma_filter_contains(keep, i);
    }
}

/// A sample whose rule names one region for its run-time address and another
/// for its load address is reported by both.
pub proof fn lemma_correlated_in_both(
    samples: Seq<SectionView>,
    rules: Seq<PlacementRuleView>,
    rule: PlacementRuleView,
    sample: SectionView,
)
    requires
        samples.contains(sample),
        sample.size != 0,
        rules.contains(rule),
        rule.section_name == sample.name,
    ensures
        correlated(samples, rules, rule.region_name).contains(sample),
        rule.load_region_name matches Some(load) ==> correlated(samples, rules, load).contains(
            sample,
        ),
{
    let k = choose|k: int| 0 <= k < rules.len() && rules[k] == rule;
    lemma_correlated_exactly(samples, rules, rule.region_name, sample);
    if let Some(load) = rule.load_region_name {
        lemma_correlated_exactly(samples, rules, load, sample);
    }
}

} // verus!
