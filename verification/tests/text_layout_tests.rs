use hourglass::layout::{bar_layout, inline_width, row_padding, tui_content_height, tui_content_width};
use hourglass::text::{parse_unsigned_decimal, push_decimal, push_signed_decimal, push_zero_padded2, trim, last_split_piece};
use hourglass::theme::{dark_theme, detect_theme, light_theme, rgb, Color};
use hourglass::watch::{step_on_key, Key, KeyAction, Step};

#[test]
fn bar_fills_its_width() {
    for width in 0..10usize {
        for filled in 0..12usize {
            let b = bar_layout(width, filled);
            assert_eq!(b.filled + b.head as usize + b.remaining, width);
        }
    }
    let b = bar_layout(72, 36);
    assert_eq!((b.filled, b.head, b.remaining), (36, true, 35));
    let b = bar_layout(72, 100);
    assert_eq!((b.filled, b.head, b.remaining), (72, false, 0));
}

#[test]
fn row_padding_spans_width() {
    assert_eq!(row_padding(72, "Hour  ", "13:45:30", "76.3%"), 72 - 6 - 8 - 5);
    // the division slash counts as one character
    assert_eq!(row_padding(40, "Week  ", "Thu  4 \u{2215} 7", "50.0%"), 40 - 6 - 10 - 5);
    assert_eq!(row_padding(10, "Hour  ", "13:45:30", "76.3%"), 0);
}

#[test]
fn widths() {
    assert_eq!(inline_width(None), 72);
    assert_eq!(inline_width(Some(50)), 50);
    assert_eq!(inline_width(Some(200)), 72);
    assert_eq!(tui_content_width(3), 0);
    assert_eq!(tui_content_width(60), 56);
    assert_eq!(tui_content_width(300), 72);
    assert_eq!(tui_content_height(5), 21);
    assert_eq!(tui_content_height(6), 24);
}

#[test]
fn decimal_text() {
    let mut s = String::new();
    push_decimal(&mut s, 0);
    s.push_str(",");
    push_decimal(&mut s, 1234567890);
    s.push_str(",");
    push_zero_padded2(&mut s, 7);
    s.push_str(",");
    push_zero_padded2(&mut s, 42);
    s.push_str(",");
    push_signed_decimal(&mut s, -2024);
    s.push_str(",");
    push_signed_decimal(&mut s, i32::MIN);
    assert_eq!(s, "0,1234567890,07,42,-2024,-2147483648");
}

#[test]
fn unsigned_numbers_parse_like_std() {
    for s in ["0", "7", "+8", "255", "256", "", "+", "-1", "-0", " 8", "8 ", "1e3", "0008", "٣", "4294967295", "4294967296"] {
        assert_eq!(parse_unsigned_decimal(s, 255), s.parse::<u8>().ok().map(|v| v as u32), "{s}");
        assert_eq!(parse_unsigned_decimal(s, u32::MAX), s.parse::<u32>().ok(), "{s}");
    }
}

#[test]
fn trim_and_split_like_std() {
    for s in ["", "  ", " a b ", "\u{3000}x\u{2029}", "\tfoo\n", "x", "\u{85}y\u{a0}"] {
        assert_eq!(trim(s), s.trim(), "{s:?}");
    }
    for s in ["", "0;15", "15", "a;b;c", ";", "x;"] {
        assert_eq!(last_split_piece(s, ';'), s.split(';').last().unwrap(), "{s:?}");
    }
}

#[test]
fn theme_detection() {
    assert_eq!(detect_theme(None), dark_theme());
    assert_eq!(detect_theme(Some("0;15")), light_theme());
    assert_eq!(detect_theme(Some("15;0")), dark_theme());
    assert_eq!(detect_theme(Some("0;default;8")), light_theme());
    assert_eq!(detect_theme(Some("0; 12 ")), light_theme());
    assert_eq!(detect_theme(Some("0;7")), dark_theme());
    assert_eq!(detect_theme(Some("0;256")), dark_theme());
    assert_eq!(detect_theme(Some("garbage")), dark_theme());
    assert_eq!(detect_theme(Some("")), dark_theme());
}

#[test]
fn rgb_parts() {
    assert_eq!(rgb(Color::Rgb(1, 2, 3)), (1, 2, 3));
    assert_eq!(rgb(Color::Red), (255, 255, 255));
    assert_eq!(rgb(Color::Indexed(4)), (255, 255, 255));
    assert_eq!(rgb(dark_theme().title_accent), (180, 140, 255));
}

#[test]
fn quit_keys() {
    assert_eq!(step_on_key(KeyAction::Press, Key::Char('q')), Step::Quit);
    assert_eq!(step_on_key(KeyAction::Press, Key::Esc), Step::Quit);
    assert_eq!(step_on_key(KeyAction::Press, Key::Char('Q')), Step::Continue);
    assert_eq!(step_on_key(KeyAction::Release, Key::Char('q')), Step::Continue);
    assert_eq!(step_on_key(KeyAction::Repeat, Key::Esc), Step::Continue);
    assert_eq!(step_on_key(KeyAction::Press, Key::Other), Step::Continue);
}
