//! Calendar parts of a Unix timestamp in milliseconds (UTC, proleptic
//! Gregorian calendar), used to name date partitions such as `dt=1970-01-02`.
use crate::text::{decimal, push_zero_padded, string_push, zero_padded};
use vstd::prelude::*;

verus! {

pub const MILLIS_PER_DAY: i64 = 86_400_000;

pub const MILLIS_PER_HOUR: i64 = 3_600_000;

/// The current time in milliseconds since the Unix epoch.
/// Trusted: reads the system clock through `SystemTime::now`; nothing is
/// claimed of the value, which depends on the clock.
#[verifier::external_body]
pub fn now_ms() -> i64 {
    match std::time::SystemTime::now().duration_since(std::time::UNIX_EPOCH) {
        Ok(d) => d.as_millis() as i64,
        Err(_) => 0,
    }
}

pub open spec fn is_leap(y: int) -> bool {
    (y % 4 == 0 && y % 100 != 0) || y % 400 == 0
}

pub open spec fn year_len(y: int) -> int {
    if is_leap(y) {
        366
    } else {
        365
    }
}

pub open spec fn month_len(y: int, m: int) -> int {
    if m == 2 {
        if is_leap(y) {
            29
        } else {
            28
        }
    } else if m == 4 || m == 6 || m == 9 || m == 11 {
        30
    } else {
        31
    }
}

/// Walks forward from day `d` (zero-based) of year `y` to the year that holds it.
pub open spec fn forward_year(y: int, d: int) -> (int, int)
    decreases d,
{
    if d < year_len(y) {
        (y, d)
    } else {
        forward_year(y + 1, d - year_len(y))
    }
}

/// Walks backward from a negative day offset `d` in year `y`.
pub open spec fn backward_year(y: int, d: int) -> (int, int)
    decreases (if d < 0 { -d } else { 0 }),
{
    if d >= 0 {
        (y, d)
    } else if d + year_len(y - 1) >= 0 {
        (y - 1, d + year_len(y - 1))
    } else {
        backward_year(y - 1, d + year_len(y - 1))
    }
}

/// The year and zero-based day of the year of day number `days` (day 0 is 1970-01-01).
pub open spec fn year_and_day(days: int) -> (int, int) {
    if days >= 0 {
        forward_year(1970, days)
    } else {
        backward_year(1970, days)
    }
}

/// The month (from `m` on) and one-based day of zero-based day `d` of year `y`.
pub open spec fn month_and_day(y: int, m: int, d: int) -> (int, int)
    decreases 12 - m,
{
    if m >= 12 || d < month_len(y, m) {
        (m, d + 1)
    } else {
        month_and_day(y, m + 1, d - month_len(y, m))
    }
}

/// Year, month and day of day number `days`.
pub open spec fn civil_date(days: int) -> (int, int, int) {
    let (y, d) = year_and_day(days);
    let (m, dd) = month_and_day(y, 1, d);
    (y, m, dd)
}

pub open spec fn day_number(ms: int) -> int {
    ms / (MILLIS_PER_DAY as int)
}

pub open spec fn hour_of(ms: int) -> int {
    (ms % (MILLIS_PER_DAY as int)) / (MILLIS_PER_HOUR as int)
}

/// A year as `%Y` writes it: at least four digits, with `-` before a negative year.
pub open spec fn year_text(y: int) -> Seq<char> {
    if y >= 0 {
        zero_padded(decimal(y as nat), 4)
    } else {
        seq!['-'] + zero_padded(decimal((-y) as nat), 4)
    }
}

/// `YYYY-MM-DD` for the day that holds instant `ms`.
pub open spec fn date_text(ms: int) -> Seq<char> {
    let (y, m, d) = civil_date(day_number(ms));
    year_text(y) + seq!['-'] + zero_padded(decimal(m as nat), 2) + seq!['-'] + zero_padded(
        decimal(d as nat),
        2,
    )
}

/// The date and hour of an instant.
#[derive(Debug, Clone, PartialEq, Eq)]
pub struct TimePart {
    pub event_date: String,
    pub hour: u32,
}

fn is_leap_year(y: i64) -> (r: bool)
    requires
        -1_000_000_000_000 < y < 1_000_000_000_000,
    ensures
        r == is_leap(y as int),
{
    let s: i64 = y + 1_000_000_000_000;
    proof {
        assert((s as int) % 4 == (y as int) % 4);
        assert((s as int) % 100 == (y as int) % 100);
        assert((s as int) % 400 == (y as int) % 400);
    }
    (s % 4 == 0 && s % 100 != 0) || s % 400 == 0
}

fn year_length(y: i64) -> (r: i64)
    requires
        -1_000_000_000_000 < y < 1_000_000_000_000,
    ensures
        r == year_len(y as int),
{
    if is_leap_year(y) {
        366
    } else {
        365
    }
}

fn month_length(y: i64, m: i64) -> (r: i64)
    requires
        -1_000_000_000_000 < y < 1_000_000_000_000,
    ensures
        r == month_len(y as int, m as int),
{
    if m == 2 {
        if is_leap_year(y) {
            29
        } else {
            28
        }
    } else if m == 4 || m == 6 || m == 9 || m == 11 {
        30
    } else {
        31
    }
}

/// Day number and millisecond of the day of `ms`, rounding toward negative infinity.
fn split_day(ms: i64) -> (r: (i64, i64))
    ensures
        r.0 == day_number(ms as int),
        r.1 == ms as int % (MILLIS_PER_DAY as int),
        0 <= r.1 < MILLIS_PER_DAY,
        r.0 * MILLIS_PER_DAY + r.1 == ms,
{
    if ms >= 0 {
        (ms / MILLIS_PER_DAY, ms % MILLIS_PER_DAY)
    } else {
        let a: i64 = -(ms + 1);
        let q = a / MILLIS_PER_DAY;
        let rem = a % MILLIS_PER_DAY;
        (-q - 1, MILLIS_PER_DAY - 1 - rem)
    }
}

fn push_year(out: &mut String, y: i64)
    requires
        y > i64::MIN,
    ensures
        final(out)@ == old(out)@ + year_text(y as int),
{
    if y >= 0 {
        push_zero_padded(out, y as u64, 4);
    } else {
        string_push(out, '-');
        push_zero_padded(out, (-y) as u64, 4);
        assert(final(out)@ =~= old(out)@ + year_text(y as int));
    }
}

/// The calendar date (`YYYY-MM-DD`, UTC) and hour of the instant `ms`.
pub fn time_part(ms: i64) -> (r: TimePart)
    ensures
        r.event_date@ == date_text(ms as int),
        r.hour == hour_of(ms as int),
{
    let (days, rem) = split_day(ms);
    assert(-200_000_000_000 < days < 200_000_000_000);
    let mut y: i64 = 1970;
    let mut d: i64 = days;
    if d >= 0 {
        while d >= year_length(y)
            invariant
                -200_000_000_000 < days < 200_000_000_000,
                1970 <= y <= 1970 + days,
                0 <= d <= days,
                d + (y - 1970) * 365 <= days,
                forward_year(y as int, d as int) == forward_year(1970, days as int),
            decreases d,
        {
            d = d - year_length(y);
            y = y + 1;
        }
    } else {
        while d < 0
            invariant
                -200_000_000_000 < days < 0,
                1970 + days <= y <= 1970,
                d < 366,
                days + (1970 - y) * 365 <= d,
                backward_year(y as int, d as int) == backward_year(1970, days as int),
            decreases (if d < 0 { -d } else { 0 }),
        {
            y = y - 1;
            d = d + year_length(y);
        }
    }
    assert((y as int, d as int) == year_and_day(days as int));
    let mut m: i64 = 1;
    while m < 12 && d >= month_length(y, m)
        invariant
            1 <= m <= 12,
            -1_000_000_000_000 < y < 1_000_000_000_000,
            0 <= d <= 366,
            month_and_day(y as int, m as int, d as int) == month_and_day(
                year_and_day(days as int).0,
                1,
                year_and_day(days as int).1,
            ),
        decreases 12 - m,
    {
        d = d - month_length(y, m);
        m = m + 1;
    }
    let mut date = String::new();
    push_year(&mut date, y);
    string_push(&mut date, '-');
    push_zero_padded(&mut date, m as u64, 2);
    string_push(&mut date, '-');
    push_zero_padded(&mut date, (d + 1) as u64, 2);
    assert(date@ =~= date_text(ms as int));
    TimePart { event_date: date, hour: (rem / MILLIS_PER_HOUR) as u32 }
}

/// The days of year `y` from the first of month `m` to the year's end.
pub open spec fn days_from_month(y: int, m: int) -> int
    decreases 13 - m,
{
    if m > 12 || m < 1 {
        0
    } else {
        month_len(y, m) + days_from_month(y, m + 1)
    }
}

proof fn lemma_forward_year_range(y: int, d: int)
    requires
        d >= 0,
    ensures
        0 <= forward_year(y, d).1 < year_len(forward_year(y, d).0),
    decreases d,
{
    if d >= year_len(y) {
        lemma_forward_year_range(y + 1, d - year_len(y));
    }
}

proof fn lemma_backward_year_range(y: int, d: int)
    requires
        d < year_len(y),
    ensures
        0 <= backward_year(y, d).1 < year_len(backward_year(y, d).0),
    decreases (if d < 0 { -d } else { 0 }),
{
    if d < 0 && d + year_len(y - 1) < 0 {
        lemma_backward_year_range(y - 1, d + year_len(y - 1));
    }
}

proof fn lemma_month_and_day_range(y: int, m: int, d: int)
    requires
        1 <= m <= 12,
        0 <= d < days_from_month(y, m),
    ensures
        1 <= month_and_day(y, m, d).0 <= 12,
        1 <= month_and_day(y, m, d).1 <= month_len(y, month_and_day(y, m, d).0),
    decreases 12 - m,
{
    if m < 12 && d >= month_len(y, m) {
        lemma_month_and_day_range(y, m + 1, d - month_len(y, m));
    } else if m == 12 {
        assert(days_from_month(y, 13) == 0);
    }
}

/// The calendar parts of every instant are a real date and hour: a month
/// from 1 to 12, a day within that month's length (29 February only in
/// leap years), and an hour from 0 to 23.
pub proof fn lemma_date_parts_valid(ms: int)
    ensures
        ({
            let (y, m, d) = civil_date(day_number(ms));
            &&& 1 <= m <= 12
            &&& 1 <= d <= month_len(y, m)
        }),
        0 <= hour_of(ms) < 24,
{
    let days = day_number(ms);
    if days >= 0 {
        lemma_forward_year_range(1970, days);
    } else {
        lemma_backward_year_range(1970, days);
    }
    let (y, d) = year_and_day(days);
    assert(days_from_month(y, 1) == year_len(y)) by {
        reveal_with_fuel(days_from_month, 13);
    }
    lemma_month_and_day_range(y, 1, d);
    assert(0 <= ms % (MILLIS_PER_DAY as int) < MILLIS_PER_DAY as int);
}

// ----- the calendar in closed form ----------------------------------------

/// The number of Gregorian leap years before year `y`, counted from a fixed
/// origin: multiples of 4, less multiples of 100, plus multiples of 400.
/// Only differences of it matter.
pub open spec fn leap_years_before(y: int) -> int {
    (y - 1) / 4 - (y - 1) / 100 + (y - 1) / 400
}

/// 1 when `y` is a Gregorian leap year, else 0, from the closed-form count.
pub open spec fn leap_day(y: int) -> int {
    leap_years_before(y + 1) - leap_years_before(y)
}

/// The days from 1970-01-01 to the first day of year `y`.
pub open spec fn days_before_year(y: int) -> int {
    365 * (y - 1970) + leap_years_before(y) - leap_years_before(1970)
}

/// The days of year `y` before the first of month `m` (1 to 12); for `m` of
/// 13 the length of the year. January 31, February 28 (29 in leap years),
/// March 31, April 30, May 31, June 30, July 31, August 31, September 30,
/// October 31, November 30, December 31.
pub open spec fn days_before_month(y: int, m: int) -> int {
    if m <= 1 {
        0
    } else if m == 2 {
        31
    } else if m == 3 {
        59 + leap_day(y)
    } else if m == 4 {
        90 + leap_day(y)
    } else if m == 5 {
        120 + leap_day(y)
    } else if m == 6 {
        151 + leap_day(y)
    } else if m == 7 {
        181 + leap_day(y)
    } else if m == 8 {
        212 + leap_day(y)
    } else if m == 9 {
        243 + leap_day(y)
    } else if m == 10 {
        273 + leap_day(y)
    } else if m == 11 {
        304 + leap_day(y)
    } else if m == 12 {
        334 + leap_day(y)
    } else {
        365 + leap_day(y)
    }
}

proof fn lemma_floor_step(y: int, d: int)
    requires
        d > 0,
    ensures
        y / d - (y - 1) / d == if y % d == 0 {
            1int
        } else {
            0int
        },
{
    let q = (y - 1) / d;
    let r = (y - 1) % d;
    vstd::arithmetic::div_mod::lemma_fundamental_div_mod(y - 1, d);
    vstd::arithmetic::div_mod::lemma_mod_bound(y - 1, d);
    assert(d * q == q * d) by (nonlinear_arith);
    if r + 1 < d {
        vstd::arithmetic::div_mod::lemma_fundamental_div_mod_converse(y, d, q, r + 1);
    } else {
        assert((q + 1) * d == q * d + d) by (nonlinear_arith);
        vstd::arithmetic::div_mod::lemma_fundamental_div_mod_converse(y, d, q + 1, 0);
    }
}

proof fn lemma_divides_factor(y: int, a: int, b: int)
    requires
        a > 0,
        b > 0,
        y % (a * b) == 0,
    ensures
        y % a == 0,
{
    assert(a * b > 0) by (nonlinear_arith)
        requires
            a > 0,
            b > 0,
    ;
    vstd::arithmetic::div_mod::lemma_fundamental_div_mod(y, a * b);
    let k = y / (a * b);
    assert(y == (k * b) * a) by (nonlinear_arith)
        requires
            y == (a * b) * k + 0,
    ;
    vstd::arithmetic::div_mod::lemma_fundamental_div_mod_converse(y, a, k * b, 0);
}

/// The closed-form leap day agrees with the leap-year rule.
proof fn lemma_leap_day(y: int)
    ensures
        leap_day(y) == if is_leap(y) {
            1int
        } else {
            0int
        },
{
    lemma_floor_step(y, 4);
    lemma_floor_step(y, 100);
    lemma_floor_step(y, 400);
    if y % 400 == 0 {
        lemma_divides_factor(y, 100, 4);
        lemma_divides_factor(y, 4, 100);
    } else if y % 100 == 0 {
        lemma_divides_factor(y, 4, 25);
    }
}

proof fn lemma_year_step(y: int)
    ensures
        days_before_year(y + 1) == days_before_year(y) + year_len(y),
{
    lemma_leap_day(y);
}

proof fn lemma_month_step(y: int, m: int)
    requires
        1 <= m <= 12,
    ensures
        days_before_month(y, m + 1) == days_before_month(y, m) + month_len(y, m),
{
    lemma_leap_day(y);
}

proof fn lemma_forward_year_days(y: int, d: int)
    requires
        d >= 0,
    ensures
        days_before_year(forward_year(y, d).0) + forward_year(y, d).1 == days_before_year(y) + d,
    decreases d,
{
    if d >= year_len(y) {
        lemma_year_step(y);
        lemma_forward_year_days(y + 1, d - year_len(y));
    }
}

proof fn lemma_backward_year_days(y: int, d: int)
    ensures
        days_before_year(backward_year(y, d).0) + backward_year(y, d).1 == days_before_year(y) + d,
    decreases (if d < 0 { -d } else { 0 }),
{
    if d < 0 {
        lemma_year_step(y - 1);
        if d + year_len(y - 1) < 0 {
            lemma_backward_year_days(y - 1, d + year_len(y - 1));
        }
    }
}

proof fn lemma_month_and_day_days(y: int, m: int, d: int)
    requires
        1 <= m <= 12,
        0 <= d < days_from_month(y, m),
    ensures
        days_before_month(y, month_and_day(y, m, d).0) + month_and_day(y, m, d).1 - 1
            == days_before_month(y, m) + d,
        days_before_month(y, month_and_day(y, m, d).0) + month_and_day(y, m, d).1
            <= days_before_month(y, month_and_day(y, m, d).0 + 1),
    decreases 12 - m,
{
    lemma_month_step(y, m);
    if m < 12 && d >= month_len(y, m) {
        lemma_month_and_day_days(y, m + 1, d - month_len(y, m));
    } else if m == 12 {
        assert(days_from_month(y, 13) == 0);
    }
}

/// Day number `days` (day 0 is 1970-01-01) falls on the Gregorian date
/// `civil_date(days)`: a month from 1 to 12, a day within that month's
/// length in the Gregorian table, and exactly `days` days after
/// 1970-01-01 when the years, the months before it and its days are
/// counted.
pub proof fn lemma_civil_date_is_gregorian(days: int)
    ensures
        ({
            let (y, m, d) = civil_date(days);
            &&& 1 <= m <= 12
            &&& 1 <= d
            &&& days_before_month(y, m) + d <= days_before_month(y, m + 1)
            &&& days == days_before_year(y) + days_before_month(y, m) + d - 1
        }),
{
    if days >= 0 {
        lemma_forward_year_days(1970, days);
        lemma_forward_year_range(1970, days);
    } else {
        lemma_backward_year_days(1970, days);
        lemma_backward_year_range(1970, days);
    }
    let (y, d) = year_and_day(days);
    assert(days_from_month(y, 1) == year_len(y)) by {
        reveal_with_fuel(days_from_month, 13);
    }
    lemma_month_and_day_range(y, 1, d);
    lemma_month_and_day_days(y, 1, d);
}

/// The date of an instant is the Gregorian date of the day that holds it:
/// the floor of `ms` over the milliseconds of a day counts the days since
/// 1970-01-01, and the date's parts count the same days.
pub proof fn lemma_date_of_instant_is_gregorian(ms: int)
    ensures
        ({
            let (y, m, d) = civil_date(day_number(ms));
            &&& 1 <= m <= 12
            &&& 1 <= d
            &&& days_before_month(y, m) + d <= days_before_month(y, m + 1)
            &&& ms / 86_400_000 == days_before_year(y) + days_before_month(y, m) + d - 1
        }),
{
    lemma_civil_date_is_gregorian(day_number(ms));
}

} // verus!
