use hourglass::clock::{CalendarDate, LocalDateTime, TimeOfDay};
use hourglass::progress::{
    day_fraction, days_in_current_month, get_progress_items, life_fraction, Fraction, Label,
};
use hourglass::theme::{dark_theme, light_theme};

fn as_f64(f: Fraction) -> f64 {
    f.num as f64 / f.den as f64
}

fn date(y: i32, m: u32, d: u32) -> CalendarDate {
    CalendarDate::from_ymd_opt(y, m, d).unwrap()
}

fn hms(h: u32, m: u32, s: u32) -> TimeOfDay {
    TimeOfDay::from_hms_opt(h, m, s).unwrap()
}

// --- days_in_current_month ---

#[test]
fn days_in_december() {
    let dt = LocalDateTime::from_ymd_hms(2024, 12, 15, 0, 0, 0).unwrap();
    assert_eq!(days_in_current_month(&dt), 31);
}

#[test]
fn days_in_february_leap_year() {
    let dt = LocalDateTime::from_ymd_hms(2024, 2, 1, 0, 0, 0).unwrap();
    assert_eq!(days_in_current_month(&dt), 29);
}

#[test]
fn days_in_february_non_leap_year() {
    let dt = LocalDateTime::from_ymd_hms(2023, 2, 1, 0, 0, 0).unwrap();
    assert_eq!(days_in_current_month(&dt), 28);
}

#[test]
fn days_in_other_months() {
    let lengths = [31, 28, 31, 30, 31, 30, 31, 31, 30, 31, 30, 31];
    for (i, len) in lengths.iter().enumerate() {
        let dt = LocalDateTime::from_ymd_hms(2100, i as u32 + 1, 1, 0, 0, 0).unwrap();
        assert_eq!(days_in_current_month(&dt), *len);
    }
    let dt = LocalDateTime::from_ymd_hms(2000, 2, 10, 0, 0, 0).unwrap();
    assert_eq!(days_in_current_month(&dt), 29);
}

// --- life fraction ---

fn life_frac(today: CalendarDate, birth: CalendarDate, lifespan: u32) -> f64 {
    as_f64(life_fraction(&today, &birth, lifespan))
}

#[test]
fn life_frac_future_birth_clamps_to_zero() {
    let today = date(2026, 1, 1);
    let birth = date(2030, 6, 1);
    assert_eq!(life_frac(today, birth, 80), 0.0);
}

#[test]
fn life_frac_exceeds_lifespan_clamps_to_one() {
    let today = date(2026, 1, 1);
    let birth = date(1900, 1, 1);
    assert_eq!(life_frac(today, birth, 80), 1.0);
}

#[test]
fn life_frac_midpoint() {
    let today = date(2026, 1, 1);
    let birth = date(1986, 1, 1);
    let f = life_frac(today, birth, 80);
    assert!((f - 0.5).abs() < 0.01, "expected ~0.5, got {f}");
}

#[test]
fn life_frac_exact_value() {
    // 14610 days lived out of 80 * 365.25 = 29220 days.
    let f = life_fraction(&date(2026, 1, 1), &date(1986, 1, 1), 80);
    assert_eq!(f, Fraction { num: 4 * 14610, den: 1461 * 80 });
    let f = life_fraction(&date(2026, 1, 1), &date(2026, 1, 2), 0);
    assert_eq!(f, Fraction { num: 0, den: 0 });
    let f = life_fraction(&date(2026, 1, 2), &date(2026, 1, 1), 0);
    assert_eq!(f, Fraction { num: 1, den: 1 });
}

// --- day fraction ---

#[test]
fn day_frac_defaults_to_full_day() {
    let now = hms(12, 0, 0);
    let midnight = hms(0, 0, 0);
    assert_eq!(as_f64(day_fraction(now, midnight, midnight)), 0.5);
}

#[test]
fn day_frac_before_start_clamps_to_zero() {
    let now = hms(7, 30, 0);
    let start = hms(8, 0, 0);
    let end = hms(23, 0, 0);
    assert_eq!(as_f64(day_fraction(now, start, end)), 0.0);
}

#[test]
fn day_frac_after_end_clamps_to_one() {
    let now = hms(23, 30, 0);
    let start = hms(8, 0, 0);
    let end = hms(23, 0, 0);
    assert_eq!(as_f64(day_fraction(now, start, end)), 1.0);
}

#[test]
fn day_frac_inside_custom_window() {
    let now = hms(15, 30, 0);
    let start = hms(9, 0, 0);
    let end = hms(21, 0, 0);
    let f = as_f64(day_fraction(now, start, end));
    assert!((f - 0.541_666_666_7).abs() < 1e-9, "expected ~0.5417, got {f}");
}

#[test]
fn day_frac_wraps_past_midnight() {
    let now = hms(1, 0, 0);
    let start = hms(18, 0, 0);
    let end = hms(2, 0, 0);
    let f = as_f64(day_fraction(now, start, end));
    assert!((f - 0.875).abs() < 1e-9, "expected 0.875, got {f}");
}

#[test]
fn day_frac_wrap_gap_clamps_to_zero() {
    let now = hms(10, 0, 0);
    let start = hms(18, 0, 0);
    let end = hms(2, 0, 0);
    assert_eq!(as_f64(day_fraction(now, start, end)), 0.0);
}

#[test]
fn day_frac_wrap_evening_part() {
    let f = day_fraction(hms(20, 0, 0), hms(18, 0, 0), hms(2, 0, 0));
    assert_eq!(f, Fraction { num: 7200, den: 8 * 3600 });
}

#[test]
fn day_frac_is_monotone_in_a_window() {
    let start = hms(9, 0, 0);
    let end = hms(17, 0, 0);
    let mut last = 0.0;
    for h in 0..24 {
        let f = as_f64(day_fraction(hms(h, 0, 0), start, end));
        assert!(f >= last && f <= 1.0);
        last = f;
    }
}

// --- calendar facts through chrono ---

#[test]
fn weekday_ordinal_and_leap_year() {
    assert_eq!(date(2024, 1, 1).weekday_from_monday(), 0);
    assert_eq!(date(1970, 1, 1).weekday_from_monday(), 3);
    assert_eq!(date(1, 1, 1).weekday_from_monday(), 0);
    assert_eq!(date(0, 1, 1).weekday_from_monday(), 5);
    assert_eq!(date(-4, 2, 29).ordinal(), 60);
    assert_eq!(date(2024, 12, 31).ordinal(), 366);
    assert_eq!(date(2023, 3, 1).ordinal(), 60);
    assert!(date(2000, 5, 5).leap_year());
    assert!(!date(1900, 5, 5).leap_year());
    assert_eq!(date(2024, 3, 1).days_since(&date(2024, 2, 1)), 29);
    assert_eq!(date(1, 1, 1).days_since(&date(0, 1, 1)), 366);
}

#[test]
fn invalid_dates_and_times_are_refused() {
    assert!(CalendarDate::from_ymd_opt(2023, 2, 29).is_none());
    assert!(CalendarDate::from_ymd_opt(2023, 13, 1).is_none());
    assert!(CalendarDate::from_ymd_opt(262143, 1, 1).is_none());
    assert!(CalendarDate::from_ymd_opt(262142, 12, 31).is_some());
    assert!(CalendarDate::from_ymd_opt(-262143, 1, 1).is_some());
    assert!(CalendarDate::from_ymd_opt(-262144, 12, 31).is_none());
    assert!(TimeOfDay::from_hms_opt(24, 0, 0).is_none());
    assert!(TimeOfDay::from_hms_opt(23, 59, 60).is_none());
}

// --- progress rows ---

#[test]
fn rows_at_a_known_moment() {
    // Thursday 2024-02-29, 13:45:30
    let now = LocalDateTime::from_ymd_hms(2024, 2, 29, 13, 45, 30).unwrap();
    let theme = dark_theme();
    let midnight = hms(0, 0, 0);
    let items = get_progress_items(&theme, &now, None, 80, midnight, midnight);
    assert_eq!(items.len(), 5);
    let secs = 13 * 3600 + 45 * 60 + 30;

    assert_eq!(items[0].label, Label::Hour);
    assert_eq!(items[0].detail, "13:45:30");
    assert_eq!(items[0].fraction, Fraction { num: 45 * 60 + 30, den: 3600 });
    assert_eq!(items[0].color, theme.items[0].0);
    assert_eq!(items[0].dim_color, theme.items[0].1);

    assert_eq!(items[1].label, Label::Day);
    assert_eq!(items[1].detail, "Thu 13:45");
    assert_eq!(items[1].fraction, Fraction { num: secs, den: 86400 });

    assert_eq!(items[2].label, Label::Week);
    assert_eq!(items[2].detail, "Thu  4 \u{2215} 7");
    assert_eq!(items[2].fraction, Fraction { num: 3 * 86400 + secs, den: 7 * 86400 });

    assert_eq!(items[3].label, Label::Month);
    assert_eq!(items[3].detail, "Feb  29 \u{2215} 29");
    assert_eq!(items[3].fraction, Fraction { num: 28 * 86400 + secs, den: 29 * 86400 });

    assert_eq!(items[4].label, Label::Year);
    assert_eq!(items[4].detail, "2024  60 \u{2215} 366");
    assert_eq!(items[4].fraction, Fraction { num: 59 * 86400 + secs, den: 366 * 86400 });
}

#[test]
fn rows_with_a_birth_date() {
    let now = LocalDateTime::from_ymd_hms(2026, 1, 1, 0, 0, 5).unwrap();
    let theme = light_theme();
    let items = get_progress_items(&theme, &now, Some(date(1986, 1, 1)), 80, hms(8, 0, 0), hms(20, 0, 0));
    assert_eq!(items.len(), 6);
    assert_eq!(items[0].detail, "00:00:05");
    assert_eq!(items[1].fraction, Fraction { num: 0, den: 12 * 3600 });
    assert_eq!(items[4].detail, "2026  1 \u{2215} 365");
    assert_eq!(items[5].label, Label::Life);
    assert_eq!(items[5].detail, "1986  40 \u{2215} 80");
    assert_eq!(items[5].fraction, Fraction { num: 4 * 14610, den: 1461 * 80 });
    assert_eq!(items[5].color, theme.items[5].0);
}

#[test]
fn rows_for_negative_years() {
    let now = LocalDateTime::from_ymd_hms(-44, 3, 15, 9, 5, 7).unwrap();
    let theme = dark_theme();
    let midnight = hms(0, 0, 0);
    let items = get_progress_items(&theme, &now, None, 80, midnight, midnight);
    assert!(items[4].detail.starts_with("-44  "));
    assert_eq!(items[0].detail, "09:05:07");
}

#[test]
fn labels_are_padded_to_six() {
    assert_eq!(Label::Hour.padded(), "Hour  ");
    assert_eq!(Label::Month.padded(), "Month ");
    assert_eq!(Label::Life.as_str(), "Life");
}

#[test]
fn rows_never_go_back_within_their_period() {
    let theme = dark_theme();
    let midnight = hms(0, 0, 0);
    let row = |y, mo, d, h, mi, s, i: usize| {
        let now = LocalDateTime::from_ymd_hms(y, mo, d, h, mi, s).unwrap();
        as_f64(get_progress_items(&theme, &now, None, 80, midnight, midnight)[i].fraction)
    };
    assert!(row(2024, 5, 7, 10, 5, 0, 0) < row(2024, 5, 7, 10, 59, 59, 0));
    assert!(row(2024, 5, 6, 0, 0, 0, 2) < row(2024, 5, 12, 23, 59, 59, 2));
    assert!(row(2024, 5, 1, 12, 0, 0, 3) < row(2024, 5, 31, 0, 0, 0, 3));
    assert!(row(2024, 1, 1, 0, 0, 0, 4) < row(2024, 12, 31, 23, 0, 0, 4));
}
