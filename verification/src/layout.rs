//! Sizes on screen: how wide the display is, how a progress bar splits its width, and how
//! much space separates the text of a row from its percentage.

use vstd::prelude::*;
use vstd::string::StringSliceAdditionalSpecFns;

verus! {

/// How a bar of some width is drawn: `filled` full cells, then one head cell when the bar is
/// not full, then `remaining` empty cells.
#[derive(Clone, Copy, PartialEq, Eq, Debug)]
pub struct BarLayout {
    pub filled: usize,
    pub head: bool,
    pub remaining: usize,
}

/// Splits a bar of `width` cells of which `filled_cells` should be full (at most `width` are).
pub fn bar_layout(width: usize, filled_cells: usize) -> (r: BarLayout)
    ensures
        r.filled == (if filled_cells < width { filled_cells } else { width }),
        r.head == (r.filled < width),
        r.remaining == (if r.filled < width { width - r.filled - 1 } else { 0 }),
        r.filled + (if r.head { 1int } else { 0int }) + r.remaining == width,
{
    let filled = if filled_cells < width { filled_cells } else { width };
    if filled < width {
        BarLayout { filled, head: true, remaining: width - (filled + 1) }
    } else {
        BarLayout { filled, head: false, remaining: 0 }
    }
}

/// Spaces between a row's text and its percentage so that the row spans `width`: the width
/// less the bytes of `label`, the characters of `detail` and the bytes of `pct`, or none when
/// they do not fit.
pub fn row_padding(width: usize, label: &str, detail: &str, pct: &str) -> (pad: usize)
    requires
        label.spec_bytes().len() + detail@.len() + pct.spec_bytes().len() <= usize::MAX,
    ensures
        ({
            let used = label.spec_bytes().len() + detail@.len() + pct.spec_bytes().len();
            pad == (if used < width { width - used } else { 0 })
        }),
{
    let used = label.len() + detail.unicode_len() + pct.len();
    if used < width {
        width - used
    } else {
        0
    }
}

/// Width of the inline display: the terminal's columns (80 when unknown), at most 72.
pub fn inline_width(term_columns: Option<u16>) -> (r: usize)
    ensures
        r == (match term_columns {
            Some(w) => if w < 72 { w as int } else { 72 },
            None => 72,
        }),
{
    let term_width: usize = match term_columns {
        Some(w) => w as usize,
        None => 80,
    };
    if term_width < 72 {
        term_width
    } else {
        72
    }
}

/// Width of the full-screen panel in an area `area_width` cells wide: four cells less, at
/// most 72.
pub fn tui_content_width(area_width: u16) -> (r: u16)
    ensures
        r == (if area_width < 4 { 0 } else if area_width - 4 < 72 { area_width - 4 } else { 72 }),
{
    let inner = if area_width < 4 { 0 } else { area_width - 4 };
    if inner < 72 {
        inner
    } else {
        72
    }
}

/// Height of the full-screen panel with `n_items` rows: border (2), top padding (1),
/// title (2), three lines per row, and the footer (1), taken modulo 2^16.
pub fn tui_content_height(n_items: usize) -> (r: u16)
    requires
        3 * n_items + 6 <= usize::MAX,
    ensures
        r == (3 * n_items + 6) % 65536,
{
    let h: usize = 2 + 1 + 2 + n_items * 3 + 1;
    (h % 65536) as u16
}

} // verus!
