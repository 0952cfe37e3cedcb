//! The candidate window: what it shows and how large it is.
use crate::dict;
use crate::numerals;
use crate::numerals::decimal_text;
use crate::skk_format::EntryModel;
use crate::text::concat2;
use crate::CandidateDisplay;
use vstd::prelude::*;

verus! {

/// The height of a row.
pub const ITEM_HEIGHT: i32 = 22;

/// The space around the rows.
pub const PADDING: i32 = 4;

/// The width of the window.
pub const WIDTH: i32 = 200;

/// Where the text of a row starts.
pub const TEXT_X: i32 = 8;

/// The most rows whose window has a height that fits in an `i32`, with the row
/// for the page number.
pub const MAX_ROWS: usize = 97_612_891;

/// The height of a window with `count` rows, and one for the page number where
/// there is more than one page.
pub open spec fn height_of(count: int, total_pages: int) -> int {
    (if total_pages > 1 {
        count + 1
    } else {
        count
    }) * ITEM_HEIGHT + 2 * PADDING
}

/// The text of a row: its number, the word, and the annotation.
pub open spec fn row_text(i: nat, c: EntryModel) -> Seq<char> {
    let start = numerals::decimal(i + 1) + ". "@ + c.word;
    match c.annotation {
        Some(a) => start + " ; "@ + a,
        None => start,
    }
}

/// The height of the window.
pub fn window_height(count: usize, total_pages: usize) -> (r: i32)
    requires
        count <= MAX_ROWS,
    ensures
        r == height_of(count as int, total_pages as int),
{
    let rows: i32 = if total_pages > 1 {
        count as i32 + 1
    } else {
        count as i32
    };
    rows * ITEM_HEIGHT + 2 * PADDING
}

/// The upper edge of a row.
pub fn row_top(i: usize) -> (r: i32)
    requires
        i <= MAX_ROWS,
    ensures
        r == PADDING + i * ITEM_HEIGHT,
{
    PADDING + (i as i32) * ITEM_HEIGHT
}

/// The text of a row: its number, the word, and the annotation.
pub fn candidate_label(i: usize, c: &CandidateDisplay) -> (r: String)
    requires
        i < u64::MAX,
    ensures
        r@ == row_text(
            i as nat,
            EntryModel { word: c.word@, annotation: dict::option_view(c.annotation) },
        ),
{
    let mut out = concat2(decimal_text(i as u64 + 1).as_str(), ". ");
    out.append(c.word.as_str());
    if let Some(a) = &c.annotation {
        out.append(" ; ");
        out.append(a.as_str());
    }
    out
}

/// The page number under the rows.
pub fn page_label(current_page: usize, total_pages: usize) -> (r: String)
    requires
        current_page < u64::MAX,
    ensures
        r@ == "["@ + numerals::decimal((current_page + 1) as nat) + "/"@ + numerals::decimal(
            total_pages as nat,
        ) + "]"@,
{
    let mut out = concat2("[", decimal_text(current_page as u64 + 1).as_str());
    out.append("/");
    out.append(decimal_text(total_pages as u64).as_str());
    out.append("]");
    out
}

/// Rows do not overlap and all of them lie within the window, with the row for
/// the page number where there is one.
pub proof fn law_rows_fit(count: int, total_pages: int, i: int)
    requires
        0 <= i < count,
    ensures
        PADDING + i * ITEM_HEIGHT + ITEM_HEIGHT == PADDING + (i + 1) * ITEM_HEIGHT,
        PADDING + i * ITEM_HEIGHT + ITEM_HEIGHT <= height_of(count, total_pages) - PADDING,
        total_pages > 1 ==> PADDING + count * ITEM_HEIGHT + ITEM_HEIGHT == height_of(
            count,
            total_pages,
        ) - PADDING,
        total_pages <= 1 ==> PADDING + count * ITEM_HEIGHT == height_of(count, total_pages) - PADDING,
{
}

/// A row shows its number, counted from one, a point and the word, and behind a
/// semicolon the annotation where there is one.
pub proof fn law_row(i: nat, word: Seq<char>, annotation: Seq<char>)
    ensures
        row_text(i, EntryModel { word, annotation: None }) == numerals::decimal(i + 1) + seq![
            '.',
            ' ',
        ] + word,
        row_text(i, EntryModel { word, annotation: Some(annotation) }) == row_text(
            i,
            EntryModel { word, annotation: None },
        ) + seq![' ', ';', ' '] + annotation,
{
    reveal_strlit(". ");
    reveal_strlit(" ; ");
    assert(". "@ =~= seq!['.', ' ']);
    assert(" ; "@ =~= seq![' ', ';', ' ']);
}

} // verus!
