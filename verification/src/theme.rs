//! Color themes: the palette of each part of the display, and the choice between the dark
//! and the light palette.

use vstd::prelude::*;
use crate::text::{
    decimal, is_digit, last_piece, last_split_piece, lemma_decimal_reads_back, lemma_last_piece_after_sep,
    lemma_parse_decimal, lemma_trimmed_unchanged, parse_unsigned, parse_unsigned_decimal, trim, trimmed,
};

verus! {

/// A terminal color, with the same variants as the colors of the rendering library.
#[derive(Clone, Copy, PartialEq, Eq, Debug, Structural)]
pub enum Color {
    Reset,
    Black,
    Red,
    Green,
    Yellow,
    Blue,
    Magenta,
    Cyan,
    Gray,
    DarkGray,
    LightRed,
    LightGreen,
    LightYellow,
    LightBlue,
    LightMagenta,
    LightCyan,
    White,
    Rgb(u8, u8, u8),
    Indexed(u8),
}

/// The palette of the display.
#[derive(Clone, Copy, PartialEq, Eq, Debug)]
pub struct Theme {
    pub title_accent: Color,
    pub timestamp: Color,
    pub detail_text: Color,
    pub footer: Color,
    pub tui_bg: Color,
    pub tui_border: Color,
    /// (bar_color, track_color) for Hour / Day / Week / Month / Year / Life
    pub items: [(Color, Color); 6],
}

pub open spec fn dark_palette() -> Theme {
    Theme {
        title_accent: Color::Rgb(180, 140, 255),
        timestamp: Color::Rgb(100, 100, 120),
        detail_text: Color::Rgb(140, 140, 160),
        footer: Color::Rgb(60, 60, 80),
        tui_bg: Color::Rgb(16, 16, 20),
        tui_border: Color::Rgb(140, 140, 160),
        items: [
            (Color::Rgb(0, 210, 210), Color::Rgb(0, 80, 80)),
            (Color::Rgb(90, 140, 255), Color::Rgb(30, 50, 100)),
            (Color::Rgb(210, 90, 210), Color::Rgb(85, 30, 85)),
            (Color::Rgb(230, 190, 0), Color::Rgb(90, 75, 0)),
            (Color::Rgb(80, 210, 80), Color::Rgb(25, 85, 25)),
            (Color::Rgb(255, 110, 110), Color::Rgb(90, 35, 35)),
        ],
    }
}

pub open spec fn light_palette() -> Theme {
    Theme {
        title_accent: Color::Rgb(100, 60, 200),
        timestamp: Color::Rgb(110, 110, 130),
        detail_text: Color::Rgb(80, 80, 100),
        footer: Color::Rgb(160, 160, 180),
        tui_bg: Color::Rgb(248, 248, 252),
        tui_border: Color::Rgb(190, 190, 210),
        items: [
            (Color::Rgb(0, 150, 150), Color::Rgb(180, 230, 230)),
            (Color::Rgb(50, 100, 220), Color::Rgb(195, 215, 255)),
            (Color::Rgb(160, 50, 160), Color::Rgb(230, 185, 230)),
            (Color::Rgb(160, 120, 0), Color::Rgb(250, 235, 170)),
            (Color::Rgb(30, 150, 30), Color::Rgb(185, 235, 185)),
            (Color::Rgb(200, 50, 50), Color::Rgb(245, 195, 195)),
        ],
    }
}

/// A `COLORFGBG` value (`"fg;bg"`) asks for the light palette when its last `;`-separated
/// piece, trimmed, reads as a number from 8 to 255.
pub open spec fn colorfgbg_is_light(val: Seq<char>) -> bool {
    match parse_unsigned(trimmed(last_piece(val, ';')), 255) {
        Some(bg) => bg >= 8,
        None => false,
    }
}

/// The palette chosen from the `COLORFGBG` value, if any: light when it says so, dark otherwise.
pub open spec fn detected_palette(colorfgbg: Option<Seq<char>>) -> Theme {
    match colorfgbg {
        Some(v) => if colorfgbg_is_light(v) { light_palette() } else { dark_palette() },
        None => dark_palette(),
    }
}

/// A `COLORFGBG` value `fg;bg` whose background is the decimal number `bg` picks the light
/// palette exactly when `8 <= bg <= 255`, whatever the foreground part; an unset value picks the
/// dark palette.
pub proof fn lemma_detect_by_background(fg: Seq<char>, bg: nat)
    ensures
        detected_palette(Some(fg + seq![';'] + decimal(bg))) == (if 8 <= bg <= 255 {
            light_palette()
        } else {
            dark_palette()
        }),
        detected_palette(None) == dark_palette(),
{
    let q = decimal(bg);
    lemma_decimal_reads_back(bg);
    assert forall|i: int| 0 <= i < q.len() implies #[trigger] q[i] != ';' by {
        assert(is_digit(q[i]));
    }
    lemma_last_piece_after_sep(fg, ';', q);
    lemma_trimmed_unchanged(q);
    lemma_parse_decimal(bg, 255);
}

pub fn dark_theme() -> (r: Theme)
    ensures
        r == dark_palette(),
{
    Theme {
        title_accent: Color::Rgb(180, 140, 255),
        timestamp: Color::Rgb(100, 100, 120),
        detail_text: Color::Rgb(140, 140, 160),
        footer: Color::Rgb(60, 60, 80),
        tui_bg: Color::Rgb(16, 16, 20),
        tui_border: Color::Rgb(140, 140, 160),
        items: [
            (Color::Rgb(0, 210, 210), Color::Rgb(0, 80, 80)),
            (Color::Rgb(90, 140, 255), Color::Rgb(30, 50, 100)),
            (Color::Rgb(210, 90, 210), Color::Rgb(85, 30, 85)),
            (Color::Rgb(230, 190, 0), Color::Rgb(90, 75, 0)),
            (Color::Rgb(80, 210, 80), Color::Rgb(25, 85, 25)),
            (Color::Rgb(255, 110, 110), Color::Rgb(90, 35, 35)),
        ],
    }
}

pub fn light_theme() -> (r: Theme)
    ensures
        r == light_palette(),
{
    Theme {
        title_accent: Color::Rgb(100, 60, 200),
        timestamp: Color::Rgb(110, 110, 130),
        detail_text: Color::Rgb(80, 80, 100),
        footer: Color::Rgb(160, 160, 180),
        tui_bg: Color::Rgb(248, 248, 252),
        tui_border: Color::Rgb(190, 190, 210),
        items: [
            (Color::Rgb(0, 150, 150), Color::Rgb(180, 230, 230)),
            (Color::Rgb(50, 100, 220), Color::Rgb(195, 215, 255)),
            (Color::Rgb(160, 50, 160), Color::Rgb(230, 185, 230)),
            (Color::Rgb(160, 120, 0), Color::Rgb(250, 235, 170)),
            (Color::Rgb(30, 150, 30), Color::Rgb(185, 235, 185)),
            (Color::Rgb(200, 50, 50), Color::Rgb(245, 195, 195)),
        ],
    }
}

/// Picks the palette from the terminal's `COLORFGBG` value (`None` when it is not set).
/// Format is "fg;bg" where bg >= 8 typically means a light background; the dark palette is
/// the fallback when the value is unset or ambiguous.
pub fn detect_theme(colorfgbg: Option<&str>) -> (r: Theme)
    ensures
        r == detected_palette(
            match colorfgbg {
                Some(v) => Some(v@),
                None => None,
            },
        ),
{
    match colorfgbg {
        Some(val) => {
            let piece = last_split_piece(val, ';');
            let bg_str = trim(piece);
            match parse_unsigned_decimal(bg_str, 255) {
                Some(bg) => {
                    if bg >= 8 {
                        light_theme()
                    } else {
                        dark_theme()
                    }
                },
                None => dark_theme(),
            }
        },
        None => dark_theme(),
    }
}

/// The red, green and blue parts of a color; white for a color that is not given as RGB.
pub fn rgb(c: Color) -> (r: (u8, u8, u8))
    ensures
        r == (match c {
            Color::Rgb(red, green, blue) => (red, green, blue),
            _ => (255u8, 255u8, 255u8),
        }),
{
    match c {
        Color::Rgb(red, green, blue) => (red, green, blue),
        _ => (255, 255, 255),
    }
}

} // verus!
