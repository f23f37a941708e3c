//! The progress rows: how far the current hour, day, week, month and year (and, given a
//! birth date, a life) have gone, as exact fractions, with the text shown beside each bar.

use vstd::prelude::*;
use crate::calendar::{
    day_number, is_valid_date, lemma_day_number_bounds, lemma_month_step, lemma_ordinal_within_year, lemma_year_step,
    month_length, ordinal_of, weekday_of, year_length, MAX_YEAR,
};
use crate::clock::{CalendarDate, LocalDateTime, TimeOfDay};
use crate::text::{
    decimal, digits_value, lemma_zero_padded2, push_decimal, push_signed_decimal, push_zero_padded2, signed_decimal, zero_padded2,
};
use crate::theme::{Color, Theme};

verus! {

/// An exact fraction `num / den`.
#[derive(Clone, Copy, PartialEq, Eq, Debug)]
pub struct Fraction {
    pub num: u64,
    pub den: u64,
}

impl Fraction {
    /// This fraction is written `p.0 / p.1`.
    pub open spec fn is(self, p: (int, int)) -> bool {
        self.num == p.0 && self.den == p.1
    }
}

/// The name of a progress row.
#[derive(Clone, Copy, PartialEq, Eq, Debug, Structural)]
pub enum Label {
    Hour,
    Day,
    Week,
    Month,
    Year,
    Life,
}

/// `s` followed by spaces up to `width` characters (as `{:<width}` writes it).
pub open spec fn pad_right(s: Seq<char>, width: nat) -> Seq<char> {
    if s.len() < width {
        s + Seq::new((width - s.len()) as nat, |i: int| ' ')
    } else {
        s
    }
}

impl Label {
    pub open spec fn text(self) -> Seq<char> {
        match self {
            Label::Hour => "Hour"@,
            Label::Day => "Day"@,
            Label::Week => "Week"@,
            Label::Month => "Month"@,
            Label::Year => "Year"@,
            Label::Life => "Life"@,
        }
    }

    pub fn as_str(&self) -> (r: &'static str)
        ensures
            r@ == self.text(),
    {
        match self {
            Label::Hour => "Hour",
            Label::Day => "Day",
            Label::Week => "Week",
            Label::Month => "Month",
            Label::Year => "Year",
            Label::Life => "Life",
        }
    }

    /// The name padded with spaces to six characters, as it heads its row.
    pub fn padded(&self) -> (r: &'static str)
        ensures
            r@ == pad_right(self.text(), 6),
    {
        match self {
            Label::Hour => {
                proof {
                    reveal_strlit("Hour");
                    reveal_strlit("Hour  ");
                    assert("Hour  "@ =~= pad_right("Hour"@, 6));
                }
                "Hour  "
            },
            Label::Day => {
                proof {
                    reveal_strlit("Day");
                    reveal_strlit("Day   ");
                    assert("Day   "@ =~= pad_right("Day"@, 6));
                }
                "Day   "
            },
            Label::Week => {
                proof {
                    reveal_strlit("Week");
                    reveal_strlit("Week  ");
                    assert("Week  "@ =~= pad_right("Week"@, 6));
                }
                "Week  "
            },
            Label::Month => {
                proof {
                    reveal_strlit("Month");
                    reveal_strlit("Month ");
                    assert("Month "@ =~= pad_right("Month"@, 6));
                }
                "Month "
            },
            Label::Year => {
                proof {
                    reveal_strlit("Year");
                    reveal_strlit("Year  ");
                    assert("Year  "@ =~= pad_right("Year"@, 6));
                }
                "Year  "
            },
            Label::Life => {
                proof {
                    reveal_strlit("Life");
                    reveal_strlit("Life  ");
                    assert("Life  "@ =~= pad_right("Life"@, 6));
                }
                "Life  "
            },
        }
    }
}

/// One progress row: its name, how far it has gone, its text and its two colors.
#[derive(PartialEq, Eq, Debug)]
pub struct ProgressItem {
    pub label: Label,
    pub fraction: Fraction,
    pub detail: String,
    pub color: Color,
    pub dim_color: Color,
}

/// Short English name of a day of the week (0 = Monday).
pub open spec fn weekday_name(wd: int) -> Seq<char> {
    if wd == 0 { "Mon"@ }
    else if wd == 1 { "Tue"@ }
    else if wd == 2 { "Wed"@ }
    else if wd == 3 { "Thu"@ }
    else if wd == 4 { "Fri"@ }
    else if wd == 5 { "Sat"@ }
    else { "Sun"@ }
}

/// Short English name of a month (1 = January).
pub open spec fn month_name(m: int) -> Seq<char> {
    if m == 1 { "Jan"@ }
    else if m == 2 { "Feb"@ }
    else if m == 3 { "Mar"@ }
    else if m == 4 { "Apr"@ }
    else if m == 5 { "May"@ }
    else if m == 6 { "Jun"@ }
    else if m == 7 { "Jul"@ }
    else if m == 8 { "Aug"@ }
    else if m == 9 { "Sep"@ }
    else if m == 10 { "Oct"@ }
    else if m == 11 { "Nov"@ }
    else { "Dec"@ }
}

fn weekday_abbr(wd: u32) -> (r: &'static str)
    ensures
        r@ == weekday_name(wd as int),
{
    if wd == 0 { "Mon" }
    else if wd == 1 { "Tue" }
    else if wd == 2 { "Wed" }
    else if wd == 3 { "Thu" }
    else if wd == 4 { "Fri" }
    else if wd == 5 { "Sat" }
    else { "Sun" }
}

fn month_abbr(m: u32) -> (r: &'static str)
    ensures
        r@ == month_name(m as int),
{
    if m == 1 { "Jan" }
    else if m == 2 { "Feb" }
    else if m == 3 { "Mar" }
    else if m == 4 { "Apr" }
    else if m == 5 { "May" }
    else if m == 6 { "Jun" }
    else if m == 7 { "Jul" }
    else if m == 8 { "Aug" }
    else if m == 9 { "Sep" }
    else if m == 10 { "Oct" }
    else if m == 11 { "Nov" }
    else { "Dec" }
}

/// How far the active part of the day has gone at second `now` of the day, for an active
/// window from second `start` to second `end` (as `(elapsed, total)` seconds). Equal ends
/// mean the whole day; a window with `start > end` runs past midnight; outside the window the
/// fraction holds at 0 before it starts and at 1 after it ends.
pub open spec fn day_fraction_of(now: int, start: int, end: int) -> (int, int) {
    if start == end {
        (now, 86400int)
    } else if start < end {
        let total = end - start;
        let elapsed = if now <= start {
            0
        } else if now >= end {
            total
        } else {
            now - start
        };
        (elapsed, total)
    } else {
        let total = 86400 - start + end;
        let elapsed = if now >= start {
            now - start
        } else if now <= end {
            86400 - start + now
        } else {
            0
        };
        (elapsed, total)
    }
}

/// Fraction of the current hour gone at second `s` of the day.
pub open spec fn hour_fraction_of(s: int) -> (int, int) {
    (((s / 60) % 60) * 60 + s % 60, 3600int)
}

/// Fraction of the week gone at second `s` of weekday `wd` (0 = Monday).
pub open spec fn week_fraction_of(wd: int, s: int) -> (int, int) {
    (wd * 86400 + s, 604800int)
}

/// Fraction of the month gone at second `s` of day `d` of a month of `len` days.
pub open spec fn month_fraction_of(d: int, len: int, s: int) -> (int, int) {
    ((d - 1) * 86400 + s, len * 86400)
}

/// Fraction of the year gone at second `s` of day `ord` of a year of `len` days.
pub open spec fn year_fraction_of(ord: int, len: int, s: int) -> (int, int) {
    ((ord - 1) * 86400 + s, len * 86400)
}

/// Days lived, never below zero.
pub open spec fn days_lived(days: int) -> int {
    if days > 0 { days } else { 0 }
}

/// Fraction of a life of `lifespan` years of 365.25 days gone after `days` days, kept
/// between 0 and 1. With a lifespan of 0 years it is 1 once a day has been lived, and the
/// undefined `0 / 0` before.
pub open spec fn life_fraction_of(days: int, lifespan: int) -> (int, int) {
    let lived = days_lived(days);
    if lifespan == 0 {
        if lived > 0 { (1, 1) } else { (0, 0) }
    } else {
        let total = 1461 * lifespan;
        (if 4 * lived < total { 4 * lived } else { total }, total)
    }
}

/// Whole years of 365.25 days in `days` days lived.
pub open spec fn age_of(days: int) -> int {
    (4 * days_lived(days)) / 1461
}

pub open spec fn hour_detail(s: int) -> Seq<char> {
    zero_padded2((s / 3600) as nat) + ":"@ + zero_padded2(((s / 60) % 60) as nat) + ":"@
        + zero_padded2((s % 60) as nat)
}

pub open spec fn day_detail(wd: int, s: int) -> Seq<char> {
    weekday_name(wd) + " "@ + zero_padded2((s / 3600) as nat) + ":"@ + zero_padded2(
        ((s / 60) % 60) as nat,
    )
}

pub open spec fn week_detail(wd: int) -> Seq<char> {
    weekday_name(wd) + "  "@ + decimal((wd + 1) as nat) + " \u{2215} 7"@
}

pub open spec fn month_detail(m: int, d: int, len: int) -> Seq<char> {
    month_name(m) + "  "@ + decimal(d as nat) + " \u{2215} "@ + decimal(len as nat)
}

pub open spec fn year_detail(y: int, ord: int, len: int) -> Seq<char> {
    signed_decimal(y) + "  "@ + decimal(ord as nat) + " \u{2215} "@ + decimal(len as nat)
}

pub open spec fn life_detail(birth_year: int, age: int, lifespan: int) -> Seq<char> {
    signed_decimal(birth_year) + "  "@ + decimal(age as nat) + " \u{2215} "@ + decimal(
        lifespan as nat,
    )
}

/// `item` shows the row `label` with fraction `frac`, text `detail` and colors `colors`.
pub open spec fn item_is(
    item: ProgressItem,
    label: Label,
    frac: (int, int),
    detail: Seq<char>,
    colors: (Color, Color),
) -> bool {
    &&& item.label == label
    &&& item.fraction.is(frac)
    &&& item.detail@ == detail
    &&& item.color == colors.0
    &&& item.dim_color == colors.1
}

/// How far the active part of the day has gone at `now`, for the window from `day_start` to
/// `day_end` (the whole day when they are equal, past midnight when the start is later).
pub fn day_fraction(now: TimeOfDay, day_start: TimeOfDay, day_end: TimeOfDay) -> (r: Fraction)
    ensures
        r.is(day_fraction_of(now.secs(), day_start.secs(), day_end.secs())),
        0 < r.den,
        r.num <= r.den,
        ({
            let n = now.secs();
            let a = day_start.secs();
            let b = day_end.secs();
            &&& a == b ==> r.num == n && r.den == 86400
            &&& (a < b && a <= n <= b) ==> r.num == n - a && r.den == b - a
            &&& (a < b && n < a) ==> r.num == 0 && r.den == b - a
            &&& (a < b && n > b) ==> r.num == b - a && r.den == b - a
            &&& (a > b && n >= a) ==> r.num == n - a && r.den == 86400 - a + b
            &&& (a > b && n <= b) ==> r.num == 86400 - a + n && r.den == 86400 - a + b
            &&& (a > b && b < n < a) ==> r.num == 0 && r.den == 86400 - a + b
        }),
{
    let now_secs = now.num_seconds_from_midnight() as u64;
    let start_secs = day_start.num_seconds_from_midnight() as u64;
    let end_secs = day_end.num_seconds_from_midnight() as u64;

    if start_secs == end_secs {
        return Fraction { num: now_secs, den: 86_400 };
    }
    if start_secs < end_secs {
        let total = end_secs - start_secs;
        let elapsed = if now_secs <= start_secs {
            0
        } else if now_secs >= end_secs {
            total
        } else {
            now_secs - start_secs
        };
        return Fraction { num: elapsed, den: total };
    }
    let total = 86_400 - start_secs + end_secs;
    let elapsed = if now_secs >= start_secs {
        now_secs - start_secs
    } else if now_secs <= end_secs {
        86_400 - start_secs + now_secs
    } else {
        0
    };
    Fraction { num: elapsed, den: total }
}

/// Number of days of the month that `dt` falls in.
pub fn days_in_current_month(dt: &LocalDateTime) -> (r: u32)
    requires
        !(dt.date.m() == 12 && dt.date.y() == MAX_YEAR),
    ensures
        r == month_length(dt.date.y(), dt.date.m()),
        28 <= r <= 31,
{
    let year = dt.date.year();
    let month = dt.date.month();
    let next = if month == 12 {
        CalendarDate::from_ymd_opt(year + 1, 1, 1)
    } else {
        CalendarDate::from_ymd_opt(year, month + 1, 1)
    };
    let next = next.unwrap();
    let first = CalendarDate::from_ymd_opt(year, month, 1).unwrap();
    let days = next.days_since(&first);
    proof {
        lemma_month_step(year as int, month as int);
    }
    days as u32
}

/// How far a life of `lifespan` years has gone on `today` for someone born on `birth`,
/// kept between 0 and 1.
pub fn life_fraction(today: &CalendarDate, birth: &CalendarDate, lifespan: u32) -> (r: Fraction)
    ensures
        r.is(life_fraction_of(today.number() - birth.number(), lifespan as int)),
{
    let days = today.days_since(birth);
    let ty = today.year();
    let by = birth.year();
    proof {
        lemma_day_number_bounds(ty as int, today.m(), today.d());
        lemma_day_number_bounds(by as int, birth.m(), birth.d());
    }
    let lived: u64 = if days > 0 { days as u64 } else { 0 };
    if lifespan == 0 {
        if lived > 0 {
            Fraction { num: 1, den: 1 }
        } else {
            Fraction { num: 0, den: 0 }
        }
    } else {
        let total = 1461 * lifespan as u64;
        let num = if 4 * lived < total { 4 * lived } else { total };
        Fraction { num, den: total }
    }
}

fn hour_detail_text(t: &TimeOfDay) -> (r: String)
    ensures
        r@ == hour_detail(t.secs()),
{
    let mut out = String::new();
    push_zero_padded2(&mut out, t.hour() as u64);
    out.append(":");
    push_zero_padded2(&mut out, t.minute() as u64);
    out.append(":");
    push_zero_padded2(&mut out, t.second() as u64);
    assert(out@ =~= hour_detail(t.secs()));
    out
}

fn day_detail_text(wd: u32, t: &TimeOfDay) -> (r: String)
    ensures
        r@ == day_detail(wd as int, t.secs()),
{
    let mut out = String::from_str(weekday_abbr(wd));
    out.append(" ");
    push_zero_padded2(&mut out, t.hour() as u64);
    out.append(":");
    push_zero_padded2(&mut out, t.minute() as u64);
    assert(out@ =~= day_detail(wd as int, t.secs()));
    out
}

fn week_detail_text(wd: u32) -> (r: String)
    requires
        wd < 7,
    ensures
        r@ == week_detail(wd as int),
{
    let mut out = String::from_str(weekday_abbr(wd));
    out.append("  ");
    push_decimal(&mut out, (wd + 1) as u64);
    out.append(" \u{2215} 7");
    assert(out@ =~= week_detail(wd as int));
    out
}

fn month_detail_text(m: u32, d: u32, len: u32) -> (r: String)
    ensures
        r@ == month_detail(m as int, d as int, len as int),
{
    let mut out = String::from_str(month_abbr(m));
    out.append("  ");
    push_decimal(&mut out, d as u64);
    out.append(" \u{2215} ");
    push_decimal(&mut out, len as u64);
    assert(out@ =~= month_detail(m as int, d as int, len as int));
    out
}

fn year_detail_text(y: i32, ord: u32, len: u32) -> (r: String)
    ensures
        r@ == year_detail(y as int, ord as int, len as int),
{
    let mut out = String::new();
    push_signed_decimal(&mut out, y);
    out.append("  ");
    push_decimal(&mut out, ord as u64);
    out.append(" \u{2215} ");
    push_decimal(&mut out, len as u64);
    assert(out@ =~= year_detail(y as int, ord as int, len as int));
    out
}

fn life_detail_text(birth_year: i32, age: u32, lifespan: u32) -> (r: String)
    ensures
        r@ == life_detail(birth_year as int, age as int, lifespan as int),
{
    let mut out = String::new();
    push_signed_decimal(&mut out, birth_year);
    out.append("  ");
    push_decimal(&mut out, age as u64);
    out.append(" \u{2215} ");
    push_decimal(&mut out, lifespan as u64);
    assert(out@ =~= life_detail(birth_year as int, age as int, lifespan as int));
    out
}

/// Whole years of 365.25 days in `days` days lived.
fn age_from_days(days: i64) -> (r: u32)
    requires
        -200_000_000 < days < 200_000_000,
    ensures
        r == age_of(days as int),
        r * 1461 <= 4 * (if days > 0 { days as int } else { 0 }) < (r + 1) * 1461,
{
    proof {
        lemma_age_is_completed_years(days as int);
    }
    let lived: u64 = if days > 0 { days as u64 } else { 0 };
    (4 * lived / 1461) as u32
}

/// The progress rows at the local time `now`: Hour, Day, Week, Month and Year, then Life when
/// a birth date is given. The day row measures the window from `day_start` to `day_end`.
pub fn get_progress_items(
    theme: &Theme,
    now: &LocalDateTime,
    birth: Option<CalendarDate>,
    lifespan: u32,
    day_start: TimeOfDay,
    day_end: TimeOfDay,
) -> (items: Vec<ProgressItem>)
    requires
        !(now.date.m() == 12 && now.date.y() == MAX_YEAR),
    ensures
        items.len() == (if birth is Some { 6int } else { 5int }),
        ({
            let y = now.date.y();
            let m = now.date.m();
            let d = now.date.d();
            let s = now.time.secs();
            let wd = weekday_of(y, m, d);
            let ord = ordinal_of(y, m, d);
            &&& item_is(items@[0], Label::Hour, hour_fraction_of(s), hour_detail(s), theme.items@[0])
            &&& item_is(
                items@[1],
                Label::Day,
                day_fraction_of(s, day_start.secs(), day_end.secs()),
                day_detail(wd, s),
                theme.items@[1],
            )
            &&& item_is(items@[2], Label::Week, week_fraction_of(wd, s), week_detail(wd), theme.items@[2])
            &&& item_is(
                items@[3],
                Label::Month,
                month_fraction_of(d, month_length(y, m), s),
                month_detail(m, d, month_length(y, m)),
                theme.items@[3],
            )
            &&& item_is(
                items@[4],
                Label::Year,
                year_fraction_of(ord, year_length(y), s),
                year_detail(y, ord, year_length(y)),
                theme.items@[4],
            )
        }),
        birth matches Some(b) ==> item_is(
            items@[5],
            Label::Life,
            life_fraction_of(now.date.number() - b.number(), lifespan as int),
            life_detail(b.y(), age_of(now.date.number() - b.number()), lifespan as int),
            theme.items@[5],
        ),
{
    let date = &now.date;
    let time = &now.time;
    let y = date.year();
    let m = date.month();
    let d = date.day();
    let secs = time.num_seconds_from_midnight() as u64;
    let wd = date.weekday_from_monday();
    let ord = date.ordinal();
    let dim = days_in_current_month(now);
    let diy: u32 = if date.leap_year() { 366 } else { 365 };

    let mut items: Vec<ProgressItem> = Vec::new();
    items.push(ProgressItem {
        label: Label::Hour,
        fraction: Fraction { num: time.minute() as u64 * 60 + time.second() as u64, den: 3600 },
        detail: hour_detail_text(time),
        color: theme.items[0].0,
        dim_color: theme.items[0].1,
    });
    items.push(ProgressItem {
        label: Label::Day,
        fraction: day_fraction(now.time, day_start, day_end),
        detail: day_detail_text(wd, time),
        color: theme.items[1].0,
        dim_color: theme.items[1].1,
    });
    items.push(ProgressItem {
        label: Label::Week,
        fraction: Fraction { num: wd as u64 * 86400 + secs, den: 7 * 86400 },
        detail: week_detail_text(wd),
        color: theme.items[2].0,
        dim_color: theme.items[2].1,
    });
    items.push(ProgressItem {
        label: Label::Month,
        fraction: Fraction { num: (d as u64 - 1) * 86400 + secs, den: dim as u64 * 86400 },
        detail: month_detail_text(m, d, dim),
        color: theme.items[3].0,
        dim_color: theme.items[3].1,
    });
    items.push(ProgressItem {
        label: Label::Year,
        fraction: Fraction { num: (ord as u64 - 1) * 86400 + secs, den: diy as u64 * 86400 },
        detail: year_detail_text(y, ord, diy),
        color: theme.items[4].0,
        dim_color: theme.items[4].1,
    });

    if let Some(b) = birth {
        let fraction = life_fraction(date, &b, lifespan);
        let days = date.days_since(&b);
        let by = b.year();
        proof {
            lemma_day_number_bounds(y as int, m as int, d as int);
            lemma_day_number_bounds(by as int, b.m(), b.d());
        }
        let age = age_from_days(days);
        items.push(ProgressItem {
            label: Label::Life,
            fraction,
            detail: life_detail_text(by, age, lifespan),
            color: theme.items[5].0,
            dim_color: theme.items[5].1,
        });
    }
    items
}

/// Within a window that does not pass midnight (or the whole day, when its ends are equal),
/// the day row never goes back as the time of day goes on.
pub proof fn lemma_day_fraction_monotone(now1: int, now2: int, start: int, end: int)
    requires
        0 <= now1 <= now2 < 86400,
        0 <= start <= end < 86400,
    ensures
        day_fraction_of(now1, start, end).1 == day_fraction_of(now2, start, end).1,
        day_fraction_of(now1, start, end).0 <= day_fraction_of(now2, start, end).0,
{
}

/// The day row over an active window is the time spent in the window over the window's
/// length, to the second: `(now - start) / (end - start)` inside a window that does not pass
/// midnight, counted across midnight for one that does, 0 before the window starts and full
/// after it ends; the whole day `now / 86400` when the two ends are equal.
pub proof fn lemma_day_window_exact(n: int, a: int, b: int)
    requires
        0 <= n < 86400,
        0 <= a < 86400,
        0 <= b < 86400,
    ensures
        a == b ==> day_fraction_of(n, a, b) == (n, 86400int),
        (a < b && a <= n <= b) ==> day_fraction_of(n, a, b) == (n - a, b - a),
        (a < b && n < a) ==> day_fraction_of(n, a, b) == (0int, b - a),
        (a < b && n > b) ==> day_fraction_of(n, a, b) == (b - a, b - a),
        (a > b && n >= a) ==> day_fraction_of(n, a, b) == (n - a, 86400 - a + b),
        (a > b && n <= b) ==> day_fraction_of(n, a, b) == (86400 - a + n, 86400 - a + b),
        (a > b && b < n < a) ==> day_fraction_of(n, a, b) == (0int, 86400 - a + b),
{
}

/// The age shown on the life row is the number of completed years of 365.25 days:
/// `age * 365.25 <= days lived < (age + 1) * 365.25`, with no day lived before the birth date.
pub proof fn lemma_age_is_completed_years(days: int)
    ensures
        age_of(days) * 1461 <= 4 * (if days > 0 { days } else { 0 }) < (age_of(days) + 1) * 1461,
        age_of(days) >= 0,
{
    let lived = if days > 0 { days } else { 0 };
    vstd::arithmetic::div_mod::lemma_fundamental_div_mod(4 * lived, 1461);
    vstd::arithmetic::div_mod::lemma_mod_bound(4 * lived, 1461);
    vstd::arithmetic::div_mod::lemma_div_pos_is_pos(4 * lived, 1461);
    vstd::arithmetic::mul::lemma_mul_is_commutative(1461, age_of(days));
    vstd::arithmetic::mul::lemma_mul_is_distributive_add_other_way(1461, age_of(days), 1);
}

/// The life row is the days lived over the days of the lifespan (`lifespan * 365.25`) while
/// that is below 1, and exactly full from then on.
pub proof fn lemma_life_fraction_exact(days: int, lifespan: int)
    requires
        lifespan > 0,
    ensures
        (days >= 0 && 4 * days <= 1461 * lifespan) ==> life_fraction_of(days, lifespan) == (
            4 * days,
            1461 * lifespan,
        ),
        4 * days >= 1461 * lifespan ==> life_fraction_of(days, lifespan) == (
            1461 * lifespan,
            1461 * lifespan,
        ),
        days <= 0 ==> life_fraction_of(days, lifespan) == (0int, 1461 * lifespan),
{
}

/// The English abbreviations of the twelve months, January first, and of the seven days of the
/// week, Monday first, as the rows show them.
pub proof fn lemma_names()
    ensures
        month_name(1) == seq!['J', 'a', 'n'],
        month_name(2) == seq!['F', 'e', 'b'],
        month_name(3) == seq!['M', 'a', 'r'],
        month_name(4) == seq!['A', 'p', 'r'],
        month_name(5) == seq!['M', 'a', 'y'],
        month_name(6) == seq!['J', 'u', 'n'],
        month_name(7) == seq!['J', 'u', 'l'],
        month_name(8) == seq!['A', 'u', 'g'],
        month_name(9) == seq!['S', 'e', 'p'],
        month_name(10) == seq!['O', 'c', 't'],
        month_name(11) == seq!['N', 'o', 'v'],
        month_name(12) == seq!['D', 'e', 'c'],
        weekday_name(0) == seq!['M', 'o', 'n'],
        weekday_name(1) == seq!['T', 'u', 'e'],
        weekday_name(2) == seq!['W', 'e', 'd'],
        weekday_name(3) == seq!['T', 'h', 'u'],
        weekday_name(4) == seq!['F', 'r', 'i'],
        weekday_name(5) == seq!['S', 'a', 't'],
        weekday_name(6) == seq!['S', 'u', 'n'],
        Label::Hour.text() == seq!['H', 'o', 'u', 'r'],
        Label::Day.text() == seq!['D', 'a', 'y'],
        Label::Week.text() == seq!['W', 'e', 'e', 'k'],
        Label::Month.text() == seq!['M', 'o', 'n', 't', 'h'],
        Label::Year.text() == seq!['Y', 'e', 'a', 'r'],
        Label::Life.text() == seq!['L', 'i', 'f', 'e'],
{
    reveal_strlit("Jan");
    reveal_strlit("Feb");
    reveal_strlit("Mar");
    reveal_strlit("Apr");
    reveal_strlit("May");
    reveal_strlit("Jun");
    reveal_strlit("Jul");
    reveal_strlit("Aug");
    reveal_strlit("Sep");
    reveal_strlit("Oct");
    reveal_strlit("Nov");
    reveal_strlit("Dec");
    reveal_strlit("Mon");
    reveal_strlit("Tue");
    reveal_strlit("Wed");
    reveal_strlit("Thu");
    reveal_strlit("Fri");
    reveal_strlit("Sat");
    reveal_strlit("Sun");
    reveal_strlit("Hour");
    reveal_strlit("Day");
    reveal_strlit("Week");
    reveal_strlit("Month");
    reveal_strlit("Year");
    reveal_strlit("Life");
    assert(month_name(1) =~= seq!['J', 'a', 'n']);
    assert(month_name(2) =~= seq!['F', 'e', 'b']);
    assert(month_name(3) =~= seq!['M', 'a', 'r']);
    assert(month_name(4) =~= seq!['A', 'p', 'r']);
    assert(month_name(5) =~= seq!['M', 'a', 'y']);
    assert(month_name(6) =~= seq!['J', 'u', 'n']);
    assert(month_name(7) =~= seq!['J', 'u', 'l']);
    assert(month_name(8) =~= seq!['A', 'u', 'g']);
    assert(month_name(9) =~= seq!['S', 'e', 'p']);
    assert(month_name(10) =~= seq!['O', 'c', 't']);
    assert(month_name(11) =~= seq!['N', 'o', 'v']);
    assert(month_name(12) =~= seq!['D', 'e', 'c']);
    assert(weekday_name(0) =~= seq!['M', 'o', 'n']);
    assert(weekday_name(1) =~= seq!['T', 'u', 'e']);
    assert(weekday_name(2) =~= seq!['W', 'e', 'd']);
    assert(weekday_name(3) =~= seq!['T', 'h', 'u']);
    assert(weekday_name(4) =~= seq!['F', 'r', 'i']);
    assert(weekday_name(5) =~= seq!['S', 'a', 't']);
    assert(weekday_name(6) =~= seq!['S', 'u', 'n']);
    assert(Label::Hour.text() =~= seq!['H', 'o', 'u', 'r']);
    assert(Label::Day.text() =~= seq!['D', 'a', 'y']);
    assert(Label::Week.text() =~= seq!['W', 'e', 'e', 'k']);
    assert(Label::Month.text() =~= seq!['M', 'o', 'n', 't', 'h']);
    assert(Label::Year.text() =~= seq!['Y', 'e', 'a', 'r']);
    assert(Label::Life.text() =~= seq!['L', 'i', 'f', 'e']);
}

/// Each row counts the seconds gone since its period began over the seconds of the whole
/// period: the hour row the seconds since the full hour over 3600, the month row the seconds
/// since midnight of the 1st over the days until the 1st of the next month, the year row the
/// seconds since midnight of January 1 over the days until the next January 1.
pub proof fn lemma_rows_measure_time_since_period_start(y: int, m: int, d: int, s: int)
    requires
        is_valid_date(y, m, d),
        0 <= s < 86400,
    ensures
        hour_fraction_of(s) == (s % 3600, 3600int),
        (0 <= weekday_of(y, m, d) < 7) && week_fraction_of(weekday_of(y, m, d), s).1 == 7 * 86400
            && week_fraction_of(weekday_of(y, m, d), s).1 - week_fraction_of(weekday_of(y, m, d), s).0
            == (7 - weekday_of(y, m, d)) * 86400 - s,
        month_fraction_of(d, month_length(y, m), s).0 == (day_number(y, m, d) - day_number(y, m, 1))
            * 86400 + s,
        m < 12 ==> month_fraction_of(d, month_length(y, m), s).1 == (day_number(y, m + 1, 1)
            - day_number(y, m, 1)) * 86400,
        m == 12 ==> month_fraction_of(d, month_length(y, m), s).1 == (day_number(y + 1, 1, 1)
            - day_number(y, m, 1)) * 86400,
        year_fraction_of(ordinal_of(y, m, d), year_length(y), s).0 == (day_number(y, m, d)
            - day_number(y, 1, 1)) * 86400 + s,
        year_fraction_of(ordinal_of(y, m, d), year_length(y), s).1 == (day_number(y + 1, 1, 1)
            - day_number(y, 1, 1)) * 86400,
{
    vstd::arithmetic::div_mod::lemma_fundamental_div_mod(s, 60);
    vstd::arithmetic::div_mod::lemma_fundamental_div_mod(s / 60, 60);
    vstd::arithmetic::div_mod::lemma_fundamental_div_mod(s, 3600);
    vstd::arithmetic::div_mod::lemma_mod_bound(s, 3600);
    vstd::arithmetic::div_mod::lemma_mod_bound(s, 60);
    vstd::arithmetic::div_mod::lemma_mod_bound(s / 60, 60);
    vstd::arithmetic::div_mod::lemma_div_denominator(s, 60, 60);
    assert(((s / 60) % 60) * 60 + s % 60 == s % 3600);
    lemma_month_step(y, m);
    lemma_year_step(y);
}

/// The hour row's text is eight characters `HH:MM:SS` whose three numbers read back as the
/// hour, minute and second of the time of day.
pub proof fn lemma_hour_detail_reads_back(s: int)
    requires
        0 <= s < 86400,
    ensures
        hour_detail(s).len() == 8,
        hour_detail(s)[2] == ':',
        hour_detail(s)[5] == ':',
        digits_value(hour_detail(s).subrange(0, 2)) == s / 3600,
        digits_value(hour_detail(s).subrange(3, 5)) == (s / 60) % 60,
        digits_value(hour_detail(s).subrange(6, 8)) == s % 60,
{
    reveal_strlit(":");
    let h = zero_padded2((s / 3600) as nat);
    let mi = zero_padded2(((s / 60) % 60) as nat);
    let se = zero_padded2((s % 60) as nat);
    lemma_zero_padded2((s / 3600) as nat);
    lemma_zero_padded2(((s / 60) % 60) as nat);
    lemma_zero_padded2((s % 60) as nat);
    let t = hour_detail(s);
    assert(t =~= h + seq![':'] + mi + seq![':'] + se);
    assert(t.subrange(0, 2) =~= h);
    assert(t.subrange(3, 5) =~= mi);
    assert(t.subrange(6, 8) =~= se);
}

/// The moment at second `s1` of day `n1` (a day count) is not later than second `s2` of day `n2`.
pub open spec fn not_later(n1: int, s1: int, n2: int, s2: int) -> bool {
    n1 < n2 || (n1 == n2 && s1 <= s2)
}

/// Within one clock hour, one Monday-based week, one calendar month and one calendar year,
/// the Hour, Week, Month and Year rows never go back as time goes on: between two moments in
/// the same period, the later one's row has the same denominator and a numerator at least as
/// large.
pub proof fn lemma_rows_monotone_within_period(
    y1: int,
    m1: int,
    d1: int,
    s1: int,
    y2: int,
    m2: int,
    d2: int,
    s2: int,
)
    requires
        is_valid_date(y1, m1, d1),
        is_valid_date(y2, m2, d2),
        0 <= s1 < 86400,
        0 <= s2 < 86400,
        not_later(day_number(y1, m1, d1), s1, day_number(y2, m2, d2), s2),
    ensures
        (y1 == y2 && m1 == m2 && d1 == d2 && s1 / 3600 == s2 / 3600) ==> ({
            let a = hour_fraction_of(s1);
            let b = hour_fraction_of(s2);
            a.1 == b.1 && a.0 <= b.0
        }),
        (day_number(y1, m1, d1) - 1) / 7 == (day_number(y2, m2, d2) - 1) / 7 ==> ({
            let a = week_fraction_of(weekday_of(y1, m1, d1), s1);
            let b = week_fraction_of(weekday_of(y2, m2, d2), s2);
            a.1 == b.1 && a.0 <= b.0
        }),
        (y1 == y2 && m1 == m2) ==> ({
            let a = month_fraction_of(d1, month_length(y1, m1), s1);
            let b = month_fraction_of(d2, month_length(y2, m2), s2);
            a.1 == b.1 && a.0 <= b.0
        }),
        y1 == y2 ==> ({
            let a = year_fraction_of(ordinal_of(y1, m1, d1), year_length(y1), s1);
            let b = year_fraction_of(ordinal_of(y2, m2, d2), year_length(y2), s2);
            a.1 == b.1 && a.0 <= b.0
        }),
{
    let n1 = day_number(y1, m1, d1);
    let n2 = day_number(y2, m2, d2);
    if s1 / 3600 == s2 / 3600 && n1 == n2 {
        vstd::arithmetic::div_mod::lemma_fundamental_div_mod(s1, 60);
        vstd::arithmetic::div_mod::lemma_fundamental_div_mod(s2, 60);
        vstd::arithmetic::div_mod::lemma_fundamental_div_mod(s1 / 60, 60);
        vstd::arithmetic::div_mod::lemma_fundamental_div_mod(s2 / 60, 60);
        assert(((s1 / 60) % 60) * 60 + s1 % 60 == s1 - (s1 / 3600) * 3600);
        assert(((s2 / 60) % 60) * 60 + s2 % 60 == s2 - (s2 / 3600) * 3600);
    }
    if (n1 - 1) / 7 == (n2 - 1) / 7 {
        vstd::arithmetic::div_mod::lemma_fundamental_div_mod(n1 - 1, 7);
        vstd::arithmetic::div_mod::lemma_fundamental_div_mod(n2 - 1, 7);
        vstd::arithmetic::div_mod::lemma_mod_bound(n1 - 1, 7);
        vstd::arithmetic::div_mod::lemma_mod_bound(n2 - 1, 7);
        assert(weekday_of(y2, m2, d2) - weekday_of(y1, m1, d1) == n2 - n1);
    }
}

/// Every row is a fraction between 0 and 1 with a positive denominator, at any time of any
/// supported date and for any day window; the life row too, except with a lifespan of 0 years
/// before any day has been lived. A life row is 0 until the birth date and 1 from
/// `lifespan * 365.25` days on.
pub proof fn lemma_rows_within_bounds(
    y: int,
    m: int,
    d: int,
    s: int,
    start: int,
    end: int,
    days: int,
    lifespan: int,
)
    requires
        is_valid_date(y, m, d),
        0 <= s < 86400,
        0 <= start < 86400,
        0 <= end < 86400,
        lifespan >= 0,
    ensures
        ({
            let h = hour_fraction_of(s);
            0 <= h.0 <= h.1 && h.1 > 0
        }),
        ({
            let f = day_fraction_of(s, start, end);
            0 <= f.0 <= f.1 && f.1 > 0
        }),
        ({
            let w = week_fraction_of(weekday_of(y, m, d), s);
            0 <= w.0 <= w.1 && w.1 > 0
        }),
        ({
            let f = month_fraction_of(d, month_length(y, m), s);
            0 <= f.0 <= f.1 && f.1 > 0
        }),
        ({
            let f = year_fraction_of(ordinal_of(y, m, d), year_length(y), s);
            0 <= f.0 <= f.1 && f.1 > 0
        }),
        ({
            let f = life_fraction_of(days, lifespan);
            &&& 0 <= f.0 <= f.1
            &&& (lifespan > 0 || days > 0) ==> f.1 > 0
            &&& days <= 0 ==> f.0 == 0
            &&& (lifespan > 0 && 4 * days >= 1461 * lifespan) ==> f.0 == f.1
        }),
{
    lemma_ordinal_within_year(y, m, d);
}

} // verus!
