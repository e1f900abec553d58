//! What a report line is made of before it is coloured and printed: the
//! widths of its columns, the title column, the bytes that a region has in
//! use, and the sign and magnitude of a change.

use crate::diff::{deltas_view, SectionDelta};
use crate::size::Section;
use crate::total::{as_values, checked_sum_of, sum};
use vstd::prelude::*;
use vstd::string::StringExecFns;

verus! {

/// The width of the title column, in characters.
pub const TITLE_WIDTH: usize = 18;

/// The width of the column that holds the percentage, in characters.
pub const USAGE_WIDTH: usize = 7;

/// The width of one size, in characters.
pub const SINGLE_SIZE_WIDTH: usize = 10;

/// What ends every title.
pub const TITLE_SUFFIX: &'static str = ": ";

/// What stands for the part of a title that does not fit.
pub const ELLIPSIS: &'static str = "\u{2026}";

/// The width of the column that holds two sizes and what separates them.
pub const SIZE_INFO_WIDTH: usize = 2 * SINGLE_SIZE_WIDTH + 5;

/// The width of a report line, which is the number of cells of a usage bar.
pub const FULL_LINE_WIDTH: usize = TITLE_WIDTH + SIZE_INFO_WIDTH + USAGE_WIDTH;

/// The number of characters of a title that the title column has room for
/// before the suffix.
pub const MAX_TITLE_LENGTH: usize = TITLE_WIDTH - 2;

/// The text of the title column for `title`: the title and the suffix, with
/// the end of a title that is too long replaced by an ellipsis.
pub open spec fn title_text(title: Seq<char>) -> Seq<char> {
    if title.len() > MAX_TITLE_LENGTH {
        title.take(MAX_TITLE_LENGTH - 1) + ELLIPSIS@ + TITLE_SUFFIX@
    } else {
        title + TITLE_SUFFIX@
    }
}

/// The text of the title column for `title`. A title of more than
/// [`MAX_TITLE_LENGTH`] characters is cut to one less than that many, and an
/// ellipsis follows it; every title is followed by [`TITLE_SUFFIX`].
pub fn title_format(title: &str) -> (text: String)
    ensures
        text@ == title_text(title@),
{
    if title.unicode_len() > MAX_TITLE_LENGTH {
        let kept = title.substring_char(0, MAX_TITLE_LENGTH - 1);
        let mut text = String::from_str(kept);
        text.append(ELLIPSIS);
        text.append(TITLE_SUFFIX);
        text
    } else {
        let mut text = String::from_str(title);
        text.append(TITLE_SUFFIX);
        text
    }
}

/// The title column never holds more than [`TITLE_WIDTH`] characters, and
/// holds exactly that many for a title that was cut.
pub proof fn lemma_title_fits(title: Seq<char>)
    ensures
        title_text(title).len() <= TITLE_WIDTH,
        title.len() > MAX_TITLE_LENGTH ==> title_text(title).len() == TITLE_WIDTH,
        title.len() <= MAX_TITLE_LENGTH ==> title_text(title).len() == title.len() + 2,
{
    reveal_strlit(": ");
    reveal_strlit("\u{2026}");
}

/// The sum of the sizes of the sections in `sections`.
pub open spec fn used_space(sections: Seq<SectionDelta>) -> nat {
    sum(sections.map_values(|d: SectionDelta| d.section.size))
}

/// The bytes that the sections of a region take up together, unless the sum
/// exceeds 32 bits.
pub fn total_usage(sections: &[(Section, i64)]) -> (total: Option<u32>)
    ensures
        match total {
            Some(t) => t == used_space(deltas_view(sections@)),
            None => used_space(deltas_view(sections@)) > u32::MAX,
        },
{
    let measure = |entry: &(Section, i64)| -> (size: u32)
        ensures
            size == entry.0.1,
        { entry.0.1 };
    let total = checked_sum_of(sections, measure);
    proof {
        let sizes = choose|sizes: Seq<u32>|
            sizes.len() == sections@.len() && (forall|k: int|
                0 <= k < sizes.len() ==> call_ensures(
                    measure,
                    (&sections@[k],),
                    #[trigger] sizes[k],
                )) && match total {
                Some(t) => t == sum(as_values(sizes)),
                None => sum(as_values(sizes)) > u32::MAX,
            };
        assert(as_values(sizes) =~= deltas_view(sections@).map_values(
            |d: SectionDelta| d.section.size,
        ));
    }
    total
}

/// The sum of the numbers in `cells`.
pub open spec fn cells_total(cells: Seq<u8>) -> nat {
    sum(cells.map_values(|c: u8| c as nat))
}

/// The number of cells of a usage bar that stay unused when each section
/// takes the number of cells that `cells` gives for it: what is left of
/// [`FULL_LINE_WIDTH`], and none where the sections take more than that.
/// Nothing is returned where the cells of the sections add up to more than
/// eight bits hold.
pub fn unused_cells(cells: &[u8]) -> (unused: Option<u8>)
    ensures
        match unused {
            Some(n) => cells_total(cells@) <= u8::MAX && n == if cells_total(cells@)
                <= FULL_LINE_WIDTH {
                FULL_LINE_WIDTH - cells_total(cells@)
            } else {
                0
            },
            None => cells_total(cells@) > u8::MAX,
        },
{
    let measure = |cell: &u8| -> (size: u32)
        ensures
            size == *cell,
        { *cell as u32 };
    let total = checked_sum_of(cells, measure);
    proof {
        let sizes = choose|sizes: Seq<u32>|
            sizes.len() == cells@.len() && (forall|k: int|
                0 <= k < sizes.len() ==> call_ensures(measure, (&cells@[k],), #[trigger] sizes[k]))
                && match total {
                Some(t) => t == sum(as_values(sizes)),
                None => sum(as_values(sizes)) > u32::MAX,
            };
        assert(as_values(sizes) =~= cells@.map_values(|c: u8| c as nat));
    }
    match total {
        Some(used) => {
            if used > u8::MAX as u32 {
                None
            } else if used <= FULL_LINE_WIDTH as u32 {
                Some((FULL_LINE_WIDTH as u32 - used) as u8)
            } else {
                Some(0)
            }
        },
        None => None,
    }
}

/// How a section's size has changed, with the number of bytes.
#[derive(Debug, Clone, Copy, PartialEq, Eq, Structural)]
pub enum Change {
    /// The size is what it was: nothing is shown.
    Same,
    /// The size has grown by so many bytes.
    Grown(u64),
    /// The size has shrunk by so many bytes.
    Shrunk(u64),
}

/// The change that stands for a difference of `delta` bytes: none for zero,
/// and otherwise growth or shrinkage by the magnitude of `delta`.
pub open spec fn change_of(delta: int) -> Change {
    if delta == 0 {
        Change::Same
    } else if delta > 0 {
        Change::Grown(delta as u64)
    } else {
        Change::Shrunk((-delta) as u64)
    }
}

/// Tells whether a difference of `delta` bytes is shown as growth, as
/// shrinkage or not at all, and with what number of bytes.
pub fn classify_change(delta: i64) -> (change: Change)
    ensures
        change == change_of(delta as int),
{
    if delta == 0 {
        Change::Same
    } else if delta > 0 {
        Change::Grown(delta as u64)
    } else {
        Change::Shrunk((-(delta + 1)) as u64 + 1)
    }
}

} // verus!
