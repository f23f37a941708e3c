//! The proleptic Gregorian calendar as mathematics: leap years, month
//! lengths, and a day count that starts with 1 on January 1 of year 1.

use vstd::prelude::*;

verus! {

/// Smallest year that a calendar date of this library may carry.
pub const MIN_YEAR: i32 = -262143i32;

/// Largest year that a calendar date of this library may carry.
pub const MAX_YEAR: i32 = 262142i32;

pub open spec fn is_leap_year(y: int) -> bool {
    y % 4 == 0 && (y % 100 != 0 || y % 400 == 0)
}

pub open spec fn leap_days(y: int) -> int {
    if is_leap_year(y) { 1 } else { 0 }
}

/// Number of days of month `m` (1 = January) of year `y`.
pub open spec fn month_length(y: int, m: int) -> int {
    if m == 2 {
        28 + leap_days(y)
    } else if m == 4 || m == 6 || m == 9 || m == 11 {
        30
    } else {
        31
    }
}

/// Number of days of year `y`.
pub open spec fn year_length(y: int) -> int {
    365 + leap_days(y)
}

/// Days of year `y` that come before the first day of month `m`.
pub open spec fn days_before_month(y: int, m: int) -> int {
    let l = leap_days(y);
    if m <= 1 { 0 }
    else if m == 2 { 31 }
    else if m == 3 { 59 + l }
    else if m == 4 { 90 + l }
    else if m == 5 { 120 + l }
    else if m == 6 { 151 + l }
    else if m == 7 { 181 + l }
    else if m == 8 { 212 + l }
    else if m == 9 { 243 + l }
    else if m == 10 { 273 + l }
    else if m == 11 { 304 + l }
    else { 334 + l }
}

/// Days from January 1 of year 1 to January 1 of year `y`.
pub open spec fn days_before_year(y: int) -> int {
    let p = y - 1;
    365 * p + p / 4 - p / 100 + p / 400
}

/// Day count of a date: January 1 of year 1 is day 1.
pub open spec fn day_number(y: int, m: int, d: int) -> int {
    days_before_year(y) + days_before_month(y, m) + d
}

/// Day of the year of a date, counting January 1 as 1.
pub open spec fn ordinal_of(y: int, m: int, d: int) -> int {
    days_before_month(y, m) + d
}

/// Day of the week of a date: 0 for Monday up to 6 for Sunday.
/// January 1 of year 1 was a Monday.
pub open spec fn weekday_of(y: int, m: int, d: int) -> int {
    (day_number(y, m, d) - 1) % 7
}

/// `(y, m, d)` names a day of the calendar within the supported years.
pub open spec fn is_valid_date(y: int, m: int, d: int) -> bool {
    &&& MIN_YEAR <= y <= MAX_YEAR
    &&& 1 <= m <= 12
    &&& 1 <= d <= month_length(y, m)
}

proof fn lemma_floor_step(x: int, k: int)
    requires
        k > 0,
    ensures
        (x + 1) / k - x / k == (if (x + 1) % k == 0 { 1int } else { 0int }),
{
    vstd::arithmetic::div_mod::lemma_fundamental_div_mod(x, k);
    vstd::arithmetic::div_mod::lemma_fundamental_div_mod(x + 1, k);
    vstd::arithmetic::div_mod::lemma_mod_bound(x, k);
    vstd::arithmetic::div_mod::lemma_mod_bound(x + 1, k);
    let q = x / k;
    let r = x % k;
    vstd::arithmetic::mul::lemma_mul_is_commutative(k, q);
    vstd::arithmetic::mul::lemma_mul_is_distributive_add_other_way(k, q, 1);
    assert(x == q * k + r);
    assert((q + 1) * k == q * k + k);
    if r + 1 < k {
        vstd::arithmetic::div_mod::lemma_fundamental_div_mod_converse(x + 1, k, q, r + 1);
    } else {
        vstd::arithmetic::div_mod::lemma_fundamental_div_mod_converse(x + 1, k, q + 1, 0);
    }
}

/// The first day of year `y + 1` comes `year_length(y)` days after the first day of year `y`.
pub proof fn lemma_year_step(y: int)
    ensures
        days_before_year(y + 1) - days_before_year(y) == year_length(y),
{
    lemma_floor_step(y - 1, 4);
    lemma_floor_step(y - 1, 100);
    lemma_floor_step(y - 1, 400);
}

/// The first day of the month after month `m` of year `y` comes `month_length(y, m)` days
/// after the first day of month `m`.
pub proof fn lemma_month_step(y: int, m: int)
    requires
        1 <= m <= 12,
    ensures
        m < 12 ==> day_number(y, m + 1, 1) - day_number(y, m, 1) == month_length(y, m),
        m == 12 ==> day_number(y + 1, 1, 1) - day_number(y, m, 1) == month_length(y, m),
{
    if m == 12 {
        lemma_year_step(y);
    }
}

/// Day counts of supported dates stay well within 32-bit integers.
pub proof fn lemma_day_number_bounds(y: int, m: int, d: int)
    requires
        is_valid_date(y, m, d),
    ensures
        -100_000_000 < day_number(y, m, d) < 100_000_000,
{
    let p = y - 1;
    vstd::arithmetic::div_mod::lemma_fundamental_div_mod(p, 4);
    vstd::arithmetic::div_mod::lemma_fundamental_div_mod(p, 100);
    vstd::arithmetic::div_mod::lemma_fundamental_div_mod(p, 400);
    vstd::arithmetic::div_mod::lemma_mod_bound(p, 4);
    vstd::arithmetic::div_mod::lemma_mod_bound(p, 100);
    vstd::arithmetic::div_mod::lemma_mod_bound(p, 400);
    vstd::arithmetic::mul::lemma_mul_is_commutative(4, p / 4);
    vstd::arithmetic::mul::lemma_mul_is_commutative(100, p / 100);
    vstd::arithmetic::mul::lemma_mul_is_commutative(400, p / 400);
}

/// The day of the year of a supported date lies between 1 and the length of the year.
pub proof fn lemma_ordinal_within_year(y: int, m: int, d: int)
    requires
        is_valid_date(y, m, d),
    ensures
        1 <= ordinal_of(y, m, d) <= year_length(y),
{
}

/// The twelve months of a year together are exactly as long as the year.
pub proof fn lemma_months_fill_year(y: int)
    ensures
        month_length(y, 1) + month_length(y, 2) + month_length(y, 3) + month_length(y, 4)
            + month_length(y, 5) + month_length(y, 6) + month_length(y, 7) + month_length(y, 8)
            + month_length(y, 9) + month_length(y, 10) + month_length(y, 11) + month_length(y, 12)
            == year_length(y),
        days_before_month(y, 12) + month_length(y, 12) == year_length(y),
{
}

} // verus!
