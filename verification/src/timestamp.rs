//! Calendar arithmetic for capture timestamps: the proleptic Gregorian
//! date of a day count since 1970-01-01, and the UTC ISO-8601 text with
//! millisecond precision that the store writes into `created_at`.
//!
//! A date is modelled by three integers; `days_from_civil` counts the days
//! from 1970-01-01 to a date, and the executable conversion is proved to be
//! its inverse.

use vstd::prelude::*;
use crate::text::{char_from_ascii, push_char};

verus! {

// ---------------------------------------------------------------------------
// The calendar
// ---------------------------------------------------------------------------

/// Gregorian leap years: divisible by 4, except centuries not divisible
/// by 400.
pub open spec fn is_leap_year(y: int) -> bool {
    (y % 4 == 0 && y % 100 != 0) || y % 400 == 0
}

/// Number of days of a year.
pub open spec fn year_length(y: int) -> int {
    if is_leap_year(y) {
        366
    } else {
        365
    }
}

/// Number of days of month `m` (1 to 12) of year `y`.
pub open spec fn days_in_month(y: int, m: int) -> int {
    if m == 2 {
        if is_leap_year(y) {
            29
        } else {
            28
        }
    } else if m == 4 || m == 6 || m == 9 || m == 11 {
        30
    } else {
        31
    }
}

/// `(y, m, d)` names a day of the calendar.
pub open spec fn valid_date(y: int, m: int, d: int) -> bool {
    1 <= m <= 12 && 1 <= d <= days_in_month(y, m)
}

/// The leap years before year `y`, counted from a fixed origin: the
/// multiples of 4, less those of 100, plus those of 400, below `y`.
pub open spec fn leaps_before(y: int) -> int {
    (y - 1) / 4 - (y - 1) / 100 + (y - 1) / 400
}

/// Days from 1970-01-01 to January 1 of year `y` (negative before 1970).
pub open spec fn days_before_year(y: int) -> int {
    365 * (y - 1970) + leaps_before(y) - leaps_before(1970)
}

/// Days from January 1 to the first day of month `m` of year `y`.
pub open spec fn days_before_month(y: int, m: int) -> int {
    let leap_day: int = if m > 2 && is_leap_year(y) {
        1
    } else {
        0
    };
    let table: int = if m <= 1 {
        0
    } else if m == 2 {
        31
    } else if m == 3 {
        59
    } else if m == 4 {
        90
    } else if m == 5 {
        120
    } else if m == 6 {
        151
    } else if m == 7 {
        181
    } else if m == 8 {
        212
    } else if m == 9 {
        243
    } else if m == 10 {
        273
    } else if m == 11 {
        304
    } else {
        334
    };
    table + leap_day
}

/// Days from 1970-01-01 to the date `(y, m, d)`.
pub open spec fn days_from_civil(y: int, m: int, d: int) -> int {
    days_before_year(y) + days_before_month(y, m) + d - 1
}

/// The date that lies `z` days after 1970-01-01.
pub open spec fn civil_date(z: int) -> (int, int, int) {
    choose|t: (int, int, int)| valid_date(t.0, t.1, t.2) && days_from_civil(t.0, t.1, t.2) == z
}

// ---------------------------------------------------------------------------
// Lemmas
// ---------------------------------------------------------------------------

/// One year later is `year_length` days later.
proof fn lemma_next_year(y: int)
    ensures
        days_before_year(y + 1) == days_before_year(y) + year_length(y),
{
    assert(leaps_before(y + 1) - leaps_before(y) == (if is_leap_year(y) {
        1int
    } else {
        0int
    })) by (nonlinear_arith);
}

/// 400 years are 146097 days.
proof fn lemma_four_centuries(e: int)
    ensures
        days_before_year(1970 + 400 * e) == 146097 * e,
{
    assert((1969 + 400 * e) / 4 == 492 + 100 * e) by (nonlinear_arith);
    assert((1969 + 400 * e) / 100 == 19 + 4 * e) by (nonlinear_arith);
    assert((1969 + 400 * e) / 400 == 4 + e) by (nonlinear_arith);
}

/// Years later begin later.
proof fn lemma_days_before_year_monotone(a: int, b: int)
    requires
        a < b,
    ensures
        days_before_year(a) + year_length(a) <= days_before_year(b),
    decreases b - a,
{
    lemma_next_year(a);
    if a + 1 < b {
        lemma_days_before_year_monotone(a + 1, b);
        lemma_next_year(a + 1);
    }
}

/// The months of a year tile it.
proof fn lemma_month_step(y: int, m: int)
    requires
        1 <= m <= 12,
    ensures
        m < 12 ==> days_before_month(y, m + 1) == days_before_month(y, m) + days_in_month(y, m),
        m == 12 ==> days_before_month(y, m) + days_in_month(y, m) == year_length(y),
        0 <= days_before_month(y, m),
{
}

/// Within a year, a valid month and day fall in `[0, year_length)`.
proof fn lemma_day_of_year_range(y: int, m: int, d: int)
    requires
        valid_date(y, m, d),
    ensures
        0 <= days_before_month(y, m) + d - 1 < year_length(y),
    decreases 12 - m,
{
    lemma_month_step(y, m);
    if m < 12 {
        lemma_month_step(y, m + 1);
        lemma_day_of_year_range(y, m + 1, 1);
    }
}

/// Later months of a year begin after the earlier ones end.
proof fn lemma_days_before_month_monotone(y: int, a: int, b: int)
    requires
        1 <= a < b <= 12,
    ensures
        days_before_month(y, a) + days_in_month(y, a) <= days_before_month(y, b),
    decreases b - a,
{
    lemma_month_step(y, a);
    if a + 1 < b {
        lemma_days_before_month_monotone(y, a + 1, b);
        lemma_month_step(y, a + 1);
    }
}

/// Two valid dates with the same day count are the same date.
pub proof fn lemma_days_from_civil_injective(y1: int, m1: int, d1: int, y2: int, m2: int, d2: int)
    requires
        valid_date(y1, m1, d1),
        valid_date(y2, m2, d2),
        days_from_civil(y1, m1, d1) == days_from_civil(y2, m2, d2),
    ensures
        y1 == y2 && m1 == m2 && d1 == d2,
{
    lemma_day_of_year_range(y1, m1, d1);
    lemma_day_of_year_range(y2, m2, d2);
    if y1 < y2 {
        lemma_days_before_year_monotone(y1, y2);
    } else if y2 < y1 {
        lemma_days_before_year_monotone(y2, y1);
    }
    assert(y1 == y2);
    if m1 < m2 {
        lemma_days_before_month_monotone(y1, m1, m2);
    } else if m2 < m1 {
        lemma_days_before_month_monotone(y1, m2, m1);
    }
}

// ---------------------------------------------------------------------------
// Day count to date
// ---------------------------------------------------------------------------

/// Smallest and largest day counts whose year fits in an `i32`.
pub const MIN_CIVIL_DAYS: i64 = -700_000_000_000;

pub const MAX_CIVIL_DAYS: i64 = 700_000_000_000;

/// The date `z` days after 1970-01-01, as (year, month, day). The year
/// starts from the 400-year cycle that holds `z` (146097 days each) and
/// then advances year by year, then month by month.
pub fn civil_from_days(z: i64) -> (r: (i32, u32, u32))
    requires
        MIN_CIVIL_DAYS <= z <= MAX_CIVIL_DAYS,
    ensures
        valid_date(r.0 as int, r.1 as int, r.2 as int),
        days_from_civil(r.0 as int, r.1 as int, r.2 as int) == z,
        (r.0 as int, r.1 as int, r.2 as int) == civil_date(z as int),
{
    // The cycle: era = floor(z / 146097).
    let era: i64 = if z >= 0 {
        z / 146097
    } else {
        -(((-z) + 146096) / 146097)
    };
    assert(era == (z as int) / 146097) by (nonlinear_arith)
        requires
            z >= 0 ==> era == z / 146097,
            z < 0 ==> era == -(((-z) + 146096) / 146097),
    ;
    assert(0 <= z - era * 146097 < 146097) by (nonlinear_arith)
        requires
            era == (z as int) / 146097,
    ;
    let mut rem: i64 = z - era * 146097;
    let mut y: i64 = 1970 + 400 * era;
    proof {
        lemma_four_centuries(era as int);
    }
    while rem >= year_days(y)
        invariant
            0 <= rem,
            days_before_year(y as int) + rem == z,
            1970 + 400 * era <= y,
            365 * (y - (1970 + 400 * era)) + rem < 146097,
            era * 146097 <= z < era * 146097 + 146097,
            MIN_CIVIL_DAYS <= z <= MAX_CIVIL_DAYS,
        decreases rem,
    {
        let len: i64 = year_days(y);
        proof {
            lemma_next_year(y as int);
        }
        rem = rem - len;
        y = y + 1;
    }
    let ghost start = rem;
    let mut m: i64 = 1;
    while rem >= days_of_month(y, m)
        invariant
            1 <= m <= 12,
            0 <= rem,
            days_before_month(y as int, m as int) + rem == start,
            start < year_length(y as int),
        decreases rem,
    {
        proof {
            lemma_month_step(y as int, m as int);
        }
        rem = rem - days_of_month(y, m);
        m = m + 1;
    }
    proof {
        lemma_month_step(y as int, m as int);
        let t = (y as int, m as int, rem + 1);
        assert(valid_date(t.0, t.1, t.2) && days_from_civil(t.0, t.1, t.2) == z);
        let c = civil_date(z as int);
        lemma_days_from_civil_injective(t.0, t.1, t.2, c.0, c.1, c.2);
    }
    (y as i32, m as u32, (rem + 1) as u32)
}

// ---------------------------------------------------------------------------
// Text
// ---------------------------------------------------------------------------

/// The ASCII digit of `n` (0 to 9).
pub open spec fn digit_char(n: int) -> char {
    ((48 + n) as u32) as char
}

/// The decimal digits of `n`, without leading zeros.
pub open spec fn decimal(n: nat) -> Seq<char>
    decreases n,
{
    if n < 10 {
        seq![digit_char(n as int)]
    } else {
        decimal(n / 10) + seq![digit_char((n % 10) as int)]
    }
}

/// The decimal digits of `n`, left-padded with `0` to at least `width`
/// characters (`{:0width}`).
pub open spec fn zero_padded(n: nat, width: nat) -> Seq<char> {
    let s = decimal(n);
    if s.len() < width {
        Seq::new((width - s.len()) as nat, |i: int| '0') + s
    } else {
        s
    }
}

/// The text of an instant given as its date, second of the day and
/// millisecond: `YYYY-MM-DDTHH:MM:SS.mmmZ`.
pub open spec fn timestamp_text(
    y: nat,
    mo: nat,
    d: nat,
    secs_of_day: nat,
    millis: nat,
) -> Seq<char> {
    zero_padded(y, 4) + seq!['-'] + zero_padded(mo, 2) + seq!['-'] + zero_padded(d, 2)
        + seq!['T'] + zero_padded(secs_of_day / 3600, 2) + seq![':'] + zero_padded(
        (secs_of_day % 3600) / 60,
        2,
    ) + seq![':'] + zero_padded(secs_of_day % 60, 2) + seq!['.'] + zero_padded(millis, 3)
        + seq!['Z']
}

/// The UTC text of the instant `secs` seconds and `millis` milliseconds
/// after 1970-01-01T00:00:00Z.
pub open spec fn rfc3339_text(secs: nat, millis: nat) -> Seq<char> {
    let date = civil_date((secs / 86400) as int);
    timestamp_text(date.0 as nat, date.1 as nat, date.2 as nat, secs % 86400, millis)
}

/// Largest number of seconds whose date `format_rfc3339` renders.
pub const MAX_TIMESTAMP_SECS: u64 = 60_479_999_999_999_999;

/// The ASCII digit of `n`.
fn digit(n: u64) -> (c: char)
    requires
        n < 10,
    ensures
        c == digit_char(n as int),
{
    let b: u8 = 48 + n as u8;
    char_from_ascii(b)
}

/// Appends `zero_padded(n, width)` to `out`.
fn push_padded(out: &mut String, n: u64, width: usize)
    ensures
        final(out)@ == old(out)@ + zero_padded(n as nat, width as nat),
{
    let mut digits: Vec<char> = Vec::new();
    let mut k: u64 = n;
    while k >= 10
        invariant
            decimal(n as nat) == decimal(k as nat) + digits@,
        decreases k,
    {
        let c = digit(k % 10);
        let ghost before = digits@;
        digits.insert(0, c);
        assert(digits@ =~= seq![c] + before);
        assert(decimal(k as nat) == decimal((k / 10) as nat) + seq![c]);
        assert(decimal(n as nat) =~= decimal((k / 10) as nat) + digits@);
        k = k / 10;
    }
    let c = digit(k);
    digits.insert(0, c);
    assert(digits@ =~= decimal(n as nat));
    let ghost before_out = out@;
    let mut fill: usize = digits.len();
    while fill < width
        invariant
            digits.len() <= fill <= width || (fill == digits.len() && width < digits.len()),
            out@ == before_out + Seq::new((fill - digits.len()) as nat, |i: int| '0'),
        decreases width - fill,
    {
        push_char(out, '0');
        fill = fill + 1;
        assert(out@ =~= before_out + Seq::new((fill - digits.len()) as nat, |i: int| '0'));
    }
    let mut i: usize = 0;
    let ghost padded = out@;
    while i < digits.len()
        invariant
            i <= digits.len(),
            out@ == padded + digits@.take(i as int),
        decreases digits.len() - i,
    {
        push_char(out, digits[i]);
        i = i + 1;
        assert(out@ =~= padded + digits@.take(i as int));
    }
    assert(digits@.take(digits.len() as int) =~= digits@);
    if digits.len() < width {
        assert(out@ =~= before_out + zero_padded(n as nat, width as nat));
    } else {
        assert(Seq::new((fill - digits.len()) as nat, |i: int| '0') =~= Seq::<char>::empty());
        assert(out@ =~= before_out + zero_padded(n as nat, width as nat));
    }
}

/// Renders an instant as `YYYY-MM-DDTHH:MM:SS.mmmZ` (UTC): four-digit
/// year (more when larger), two-digit month, day, hour, minute and
/// second, three-digit milliseconds.
pub fn format_rfc3339(secs: u64, millis: u32) -> (r: String)
    requires
        secs <= MAX_TIMESTAMP_SECS,
    ensures
        r@ == rfc3339_text(secs as nat, millis as nat),
{
    let days: u64 = secs / 86400;
    let secs_of_day: u64 = secs % 86400;
    let (year, month, day) = civil_from_days(days as i64);
    proof {
        assert(year >= 1970) by {
            if year < 1970 {
                lemma_days_before_year_monotone(year as int, 1970);
                lemma_day_of_year_range(year as int, month as int, day as int);
            }
        }
    }
    let mut out = String::new();
    push_padded(&mut out, year as u64, 4);
    push_char(&mut out, '-');
    push_padded(&mut out, month as u64, 2);
    push_char(&mut out, '-');
    push_padded(&mut out, day as u64, 2);
    push_char(&mut out, 'T');
    push_padded(&mut out, secs_of_day / 3600, 2);
    push_char(&mut out, ':');
    push_padded(&mut out, (secs_of_day % 3600) / 60, 2);
    push_char(&mut out, ':');
    push_padded(&mut out, secs_of_day % 60, 2);
    push_char(&mut out, '.');
    push_padded(&mut out, millis as u64, 3);
    push_char(&mut out, 'Z');
    assert(out@ =~= rfc3339_text(secs as nat, millis as nat));
    out
}

/// Executable `is_leap_year`.
fn is_leap(y: i64) -> (b: bool)
    ensures
        b == is_leap_year(y as int),
{
    (y % 4 == 0 && y % 100 != 0) || y % 400 == 0
}

/// Executable `year_length`.
fn year_days(y: i64) -> (n: i64)
    ensures
        n == year_length(y as int),
{
    if is_leap(y) {
        366
    } else {
        365
    }
}

/// Executable `days_in_month`.
fn days_of_month(y: i64, m: i64) -> (n: i64)
    ensures
        n == days_in_month(y as int, m as int),
{
    if m == 2 {
        if is_leap(y) {
            29
        } else {
            28
        }
    } else if m == 4 || m == 6 || m == 9 || m == 11 {
        30
    } else {
        31
    }
}

} // verus!
