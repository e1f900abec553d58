//! What a linker script declares: its memory regions and the regions that it
//! assigns its output sections to.

use crate::correlate::{rules_view, PlacementRule, PlacementRuleView};
use crate::find::{first_match, lemma_first_match_is, lemma_first_match_none};
use ldscript_parser::{RootItem, SectionCommand};
use vstd::prelude::*;

verus! {

/// A memory region as a linker script declares it.
#[derive(Debug, Clone)]
pub struct MemoryRegion {
    pub name: String,
    pub length: u64,
}

/// The mathematical value of a [`MemoryRegion`].
pub struct MemoryRegionView {
    pub name: Seq<char>,
    pub length: nat,
}

impl View for MemoryRegion {
    type V = MemoryRegionView;

    open spec fn view(&self) -> MemoryRegionView {
        MemoryRegionView { name: self.name@, length: self.length as nat }
    }
}

/// One entry of a `SECTIONS` block.
#[derive(Debug, Clone)]
pub enum SectionsEntry {
    /// An output section with the regions that the script assigns it to.
    OutputSection { name: String, region: Option<String>, lma_region: Option<String> },
    /// Anything else: a statement or a command.
    Other,
}

/// The mathematical value of a [`SectionsEntry`].
pub enum SectionsEntryView {
    OutputSection { name: Seq<char>, region: Option<Seq<char>>, lma_region: Option<Seq<char>> },
    Other,
}

/// The view of an optional name.
pub open spec fn name_view(name: Option<String>) -> Option<Seq<char>> {
    match name {
        Some(n) => Some(n@),
        None => None,
    }
}

impl View for SectionsEntry {
    type V = SectionsEntryView;

    open spec fn view(&self) -> SectionsEntryView {
        match self {
            SectionsEntry::OutputSection { name, region, lma_region } => {
                SectionsEntryView::OutputSection {
                    name: name@,
                    region: name_view(*region),
                    lma_region: name_view(*lma_region),
                }
            },
            SectionsEntry::Other => SectionsEntryView::Other,
        }
    }
}

/// One top-level item of a linker script.
#[derive(Debug, Clone)]
pub enum ScriptItem {
    /// A `MEMORY` block with the regions that it declares.
    Memory { regions: Vec<MemoryRegion> },
    /// A `SECTIONS` block with its entries.
    Sections { list: Vec<SectionsEntry> },
    /// Anything else: a statement or a command.
    Other,
}

/// The mathematical value of a [`ScriptItem`].
pub enum ScriptItemView {
    Memory { regions: Seq<MemoryRegionView> },
    Sections { list: Seq<SectionsEntryView> },
    Other,
}

impl View for ScriptItem {
    type V = ScriptItemView;

    open spec fn view(&self) -> ScriptItemView {
        match self {
            ScriptItem::Memory { regions } => ScriptItemView::Memory {
                regions: regions@.map_values(|r: MemoryRegion| r@),
            },
            ScriptItem::Sections { list } => ScriptItemView::Sections {
                list: list@.map_values(|e: SectionsEntry| e@),
            },
            ScriptItem::Other => ScriptItemView::Other,
        }
    }
}

/// The values of a sequence of script items, in order.
pub open spec fn items_view(items: Seq<ScriptItem>) -> Seq<ScriptItemView> {
    items.map_values(|i: ScriptItem| i@)
}

/// The view of what parsing a script gives.
pub open spec fn parsed_view(items: Option<Vec<ScriptItem>>) -> Option<Seq<ScriptItemView>> {
    match items {
        Some(list) => Some(items_view(list@)),
        None => None,
    }
}

/// The items that the linker script parser reads from `text`, or nothing
/// where it rejects the text.
pub uninterp spec fn parsed_script(text: Seq<char>) -> Option<Seq<ScriptItemView>>;

/// Whether `c` is a decimal digit.
pub open spec fn is_digit(c: char) -> bool {
    '0' <= c && c <= '9'
}

/// The number that the decimal digit `c` stands for.
pub open spec fn digit_value(c: char) -> nat
    recommends
        is_digit(c),
{
    (c as u32 - '0' as u32) as nat
}

/// Whether `c` may stand in a number: a digit, a hexadecimal digit, or one of
/// the letters that end a number.
pub open spec fn is_number_char(c: char) -> bool {
    is_digit(c) || ('A' <= c && c <= 'F') || ('a' <= c && c <= 'f') || c == 'h' || c == 'H' || c
        == 'o' || c == 'O' || c == 'k' || c == 'K' || c == 'm' || c == 'M'
}

/// What a number that ends in `c` is multiplied by: 2^10 for `K`, 2^20 for
/// `M`. No scale for another character.
pub open spec fn scale_of(c: char) -> Option<nat> {
    if c == 'k' || c == 'K' {
        Some(1024)
    } else if c == 'm' || c == 'M' {
        Some(1048576)
    } else {
        None
    }
}

/// The decimal value of the digits that stand in `text` directly before index
/// `at`, and zero where there is none.
pub open spec fn run_value(text: Seq<char>, at: int) -> nat
    decreases at,
{
    if at <= 0 || at > text.len() || !is_digit(text[at - 1]) {
        0
    } else {
        run_value(text, at - 1) * 10 + digit_value(text[at - 1])
    }
}

/// Whether a number of `text` ends at index `at` in a scale that takes the
/// decimal value of the digits before it beyond 64 bits.
pub open spec fn oversized_at(text: Seq<char>, at: int) -> bool {
    &&& 0 <= at < text.len()
    &&& scale_of(text[at]) matches Some(scale) && run_value(text, at) * scale > u64::MAX
    &&& at + 1 == text.len() || !is_number_char(text[at + 1])
}

/// Whether `text` holds a number whose scale takes the decimal value of its
/// digits beyond 64 bits.
pub open spec fn has_oversized_number(text: Seq<char>) -> bool {
    exists|at: int| oversized_at(text, at)
}

/// The items of the script `text`: what the parser reads from it, and nothing
/// where it rejects the text or where the text holds a number too large for
/// its scale.
pub open spec fn script_items(text: Seq<char>) -> Option<Seq<ScriptItemView>> {
    if has_oversized_number(text) {
        None
    } else {
        parsed_script(text)
    }
}

/// Calls `ldscript_parser::parse` and copies each item that it returns into a
/// [`ScriptItem`]: the regions of a `MEMORY` block with name and length, the
/// output sections of a `SECTIONS` block with name, region and load region.
///
/// Assumed, not proved: the parser returns, and what it returns depends on
/// the text alone. It multiplies the decimal or octal number before a `K` by
/// 1024 and the one before an `M` by 1024 twice without a check, which is why
/// texts with an oversized number are left out: the number that it multiplies
/// is never more than the decimal value of the digits before the letter.
#[verifier::external_body]
fn parse_items(text: &str) -> (items: Option<Vec<ScriptItem>>)
    requires
        !has_oversized_number(text@),
    ensures
        parsed_view(items) == parsed_script(text@),
{
    let parsed = ldscript_parser::parse(text).ok()?;
    Some(parsed.into_iter().map(|item| match item {
        RootItem::Memory { regions } => ScriptItem::Memory {
            regions: regions.into_iter().map(|r| MemoryRegion { name: r.name, length: r.length }).collect(),
        },
        RootItem::Sections { list } => ScriptItem::Sections {
            list: list.into_iter().map(|entry| match entry {
                SectionCommand::OutputSection { name, region, lma_region, .. } => SectionsEntry::OutputSection { name, region, lma_region },
                SectionCommand::Statement(_) | SectionCommand::Command(_) => SectionsEntry::Other,
            }).collect(),
        },
        RootItem::Statement(_) | RootItem::Command(_) => ScriptItem::Other,
    }).collect())
}

/// Whether `text` holds a number whose scale takes the decimal value of its
/// digits beyond 64 bits.
pub fn holds_oversized_number(text: &str) -> (found: bool)
    ensures
        found == has_oversized_number(text@),
{
    let limit: u128 = 0x1_0000_0000_0000_0000;
    let mut value: u128 = 0;
    let mut pending = false;
    for c in iter: text.chars()
        invariant
            iter.seq() == text@,
            limit == 0x1_0000_0000_0000_0000,
            value == if run_value(text@, iter.index() as int) >= limit {
                limit as nat
            } else {
                run_value(text@, iter.index() as int)
            },
            pending == (iter.index() > 0 && (scale_of(text@[iter.index() - 1]) matches Some(scale)
                && run_value(text@, iter.index() - 1) * scale > u64::MAX)),
            forall|at: int| 0 <= at < iter.index() - 1 ==> !oversized_at(text@, at),
            !pending && iter.index() > 0 ==> !oversized_at(text@, iter.index() - 1),
    {
        let in_number = ('0' <= c && c <= '9') || ('A' <= c && c <= 'F') || ('a' <= c && c <= 'f')
            || c == 'h' || c == 'H' || c == 'o' || c == 'O' || c == 'k' || c == 'K' || c == 'm'
            || c == 'M';
        if pending && !in_number {
            assert(oversized_at(text@, iter.index() - 1));
            return true;
        }
        pending = if c == 'k' || c == 'K' {
            value * 1024 > u64::MAX as u128
        } else if c == 'm' || c == 'M' {
            value * 1048576 > u64::MAX as u128
        } else {
            false
        };
        if '0' <= c && c <= '9' {
            let digit = (c as u32 - '0' as u32) as u128;
            value = value * 10 + digit;
            if value > limit {
                value = limit;
            }
        } else {
            value = 0;
        }
    }
    if pending {
        assert(oversized_at(text@, text@.len() - 1));
    }
    pending
}

/// Parses a linker script into its items. Nothing is returned where the
/// parser rejects the text, or where the text holds a number too large for
/// its scale.
pub fn parse_script(text: &str) -> (items: Option<Vec<ScriptItem>>)
    ensures
        parsed_view(items) == script_items(text@),
{
    if holds_oversized_number(text) {
        None
    } else {
        parse_items(text)
    }
}

/// The regions of the first `MEMORY` block among `items`, where there is one.
pub open spec fn memory_block(items: Seq<ScriptItemView>) -> Option<Seq<MemoryRegionView>> {
    match first_match(items, |i: ScriptItemView| i is Memory) {
        Some(k) => Some(items[k]->regions),
        None => None,
    }
}

/// The placement rule that `entry` states: that of an output section which
/// the script assigns to a region for its run-time address.
pub open spec fn placement_of(entry: SectionsEntryView) -> Option<PlacementRuleView> {
    match entry {
        SectionsEntryView::OutputSection { name, region: Some(region), lma_region } => Some(
            PlacementRuleView {
                section_name: name,
                region_name: region,
                load_region_name: lma_region,
            },
        ),
        _ => None,
    }
}

/// The placement rules that the entries of one `SECTIONS` block state, in
/// order.
pub open spec fn block_rules(list: Seq<SectionsEntryView>) -> Seq<PlacementRuleView>
    decreases list.len(),
{
    if list.len() == 0 {
        Seq::empty()
    } else {
        match placement_of(list.last()) {
            Some(rule) => block_rules(list.drop_last()).push(rule),
            None => block_rules(list.drop_last()),
        }
    }
}

/// The placement rules that `item` states: those of its entries where it is a
/// `SECTIONS` block, and none otherwise.
pub open spec fn item_rules(item: ScriptItemView) -> Seq<PlacementRuleView> {
    match item {
        ScriptItemView::Sections { list } => block_rules(list),
        _ => Seq::empty(),
    }
}

/// The placement rules of all `SECTIONS` blocks among `items`, in the order of
/// the script.
pub open spec fn placement_rules(items: Seq<ScriptItemView>) -> Seq<PlacementRuleView>
    decreases items.len(),
{
    if items.len() == 0 {
        Seq::empty()
    } else {
        placement_rules(items.drop_last()) + item_rules(items.last())
    }
}

/// The regions of the first `MEMORY` block among `items`, where there is one.
pub fn declared_regions(items: &Vec<ScriptItem>) -> (found: Option<&Vec<MemoryRegion>>)
    ensures
        match found {
            Some(regions) => memory_block(items_view(items@)) == Some(
                regions@.map_values(|r: MemoryRegion| r@),
            ),
            None => memory_block(items_view(items@)) is None,
        },
{
    let ghost views = items_view(items@);
    let ghost wanted = |i: ScriptItemView| i is Memory;
    let mut i: usize = 0;
    while i < items.len()
        invariant
            i <= items.len(),
            views == items_view(items@),
            wanted == (|i: ScriptItemView| i is Memory),
            forall|j: int| 0 <= j < i ==> !wanted(#[trigger] views[j]),
        decreases items.len() - i,
    {
        match &items[i] {
            ScriptItem::Memory { regions } => {
                proof {
                    lemma_first_match_is(views, wanted, i as int);
                }
                return Some(regions);
            },
            _ => {},
        }
        i += 1;
    }
    proof {
        lemma_first_match_none(views, wanted);
    }
    None
}

/// A copy of an optional name.
fn duplicate_name(name: &Option<String>) -> (copy: Option<String>)
    ensures
        name_view(copy) == name_view(*name),
{
    match name {
        Some(n) => Some(n.clone()),
        None => None,
    }
}

/// The placement rules of all `SECTIONS` blocks among `items`, in the order of
/// the script: one for each output section that the script assigns to a region
/// for its run-time address.
pub fn collect_placement_rules(items: &Vec<ScriptItem>) -> (rules: Vec<PlacementRule>)
    ensures
        rules_view(rules@) == placement_rules(items_view(items@)),
{
    let ghost views = items_view(items@);
    let mut rules: Vec<PlacementRule> = Vec::new();
    let mut i: usize = 0;
    while i < items.len()
        invariant
            i <= items.len(),
            views == items_view(items@),
            rules_view(rules@) == placement_rules(views.take(i as int)),
        decreases items.len() - i,
    {
        proof {
            assert(views.take(i + 1).drop_last() =~= views.take(i as int));
        }
        match &items[i] {
            ScriptItem::Sections { list } => {
                let ghost entries = list@.map_values(|e: SectionsEntry| e@);
                let ghost before = rules_view(rules@);
                let mut j: usize = 0;
                while j < list.len()
                    invariant
                        j <= list.len(),
                        entries == list@.map_values(|e: SectionsEntry| e@),
                        rules_view(rules@) == before + block_rules(
                            entries.take(j as int),
                        ),
                    decreases list.len() - j,
                {
                    proof {
                        assert(entries.take(j + 1).drop_last() =~= entries.take(j as int));
                    }
                    match &list[j] {
                        SectionsEntry::OutputSection { name, region: Some(region), lma_region } => {
                            let ghost so_far = rules@;
                            let rule = PlacementRule {
                                section_name: name.clone(),
                                region_name: region.clone(),
                                load_region_name: duplicate_name(lma_region),
                            };
                            rules.push(rule);
                            proof {
                                assert(rules_view(rules@) =~= rules_view(so_far).push(rule@));
                            }
                        },
                        _ => {},
                    }
                    j += 1;
                }
                proof {
                    assert(entries.take(j as int) =~= entries);
                }
            },
            _ => {},
        }
        i += 1;
    }
    proof {
        assert(views.take(i as int) =~= views);
    }
    rules
}

} // verus!
