//! Calendar dates and instants of the proleptic Gregorian calendar.
//!
//! A [`Date`] is held as its day number counted from January 1 of year 1
//! (day 1), the numbering that `chrono` uses for `num_days_from_ce`; a
//! [`Timestamp`] is a UTC instant as seconds and nanoseconds since the Unix
//! epoch. Differences between dates are differences of day numbers.

use vstd::prelude::*;
use chrono::Datelike;

verus! {

/// Earliest year `chrono` can represent.
pub const MIN_YEAR: i32 = -262143;

/// Latest year `chrono` can represent.
pub const MAX_YEAR: i32 = 262142;

/// Day number of January 1 of `MIN_YEAR`.
pub const MIN_DAY: i32 = -95746129;

/// Day number of December 31 of `MAX_YEAR`.
pub const MAX_DAY: i32 = 95745399;

/// Day number of 1970-01-01, the Unix epoch.
pub const UNIX_EPOCH_DAY: i32 = 719163;

/// Seconds in a day.
pub const SECS_PER_DAY: i64 = 86400;

// ---------------------------------------------------------------------------
// Calendar arithmetic (specification)
// ---------------------------------------------------------------------------

/// A leap year of the proleptic Gregorian calendar.
pub open spec fn is_leap_year(y: int) -> bool {
    y % 4 == 0 && (y % 100 != 0 || y % 400 == 0)
}

/// Days in month `m` of year `y`.
pub open spec fn days_in_month(y: int, m: int) -> int {
    if m == 2 {
        if is_leap_year(y) {
            29
        } else {
            28
        }
    } else if m == 4 || m == 6 || m == 9 || m == 11 {
        30
    } else {
        31
    }
}

/// Days of year `y` before the first of month `m`.
pub open spec fn days_before_month(y: int, m: int) -> int {
    let base: int = if m <= 1 {
        0
    } else if m == 2 {
        31
    } else if m == 3 {
        59
    } else if m == 4 {
        90
    } else if m == 5 {
        120
    } else if m == 6 {
        151
    } else if m == 7 {
        181
    } else if m == 8 {
        212
    } else if m == 9 {
        243
    } else if m == 10 {
        273
    } else if m == 11 {
        304
    } else {
        334
    };
    if m > 2 && is_leap_year(y) {
        base + 1
    } else {
        base
    }
}

/// Days from January 1 of year 1 up to (not including) January 1 of year `y`.
pub open spec fn days_before_year(y: int) -> int {
    let p = y - 1;
    365 * p + p / 4 - p / 100 + p / 400
}

/// Day number of a calendar date (January 1 of year 1 is day 1).
pub open spec fn civil_day(y: int, m: int, d: int) -> int {
    days_before_year(y) + days_before_month(y, m) + d
}

/// A calendar date that exists and that `chrono` can represent.
pub open spec fn valid_civil(y: int, m: int, d: int) -> bool {
    &&& MIN_YEAR <= y <= MAX_YEAR
    &&& 1 <= m <= 12
    &&& 1 <= d <= days_in_month(y, m)
}

/// A day number inside the representable range.
pub open spec fn day_in_range(n: int) -> bool {
    MIN_DAY <= n <= MAX_DAY
}

/// Days since Monday (0 for Monday, 6 for Sunday) of a day number; day 1,
/// January 1 of year 1, was a Monday.
pub open spec fn weekday_index(n: int) -> int {
    (n - 1) % 7
}

/// Day number of the UTC date of an instant `secs` seconds after the epoch.
pub open spec fn utc_day(secs: int) -> int {
    UNIX_EPOCH_DAY + secs / (SECS_PER_DAY as int)
}

/// `n` in decimal, padded with leading zeros to at least four digits.
pub open spec fn zero_padded4(n: nat) -> Seq<char> {
    let d = crate::text::decimal(n);
    if d.len() < 4 {
        Seq::new((4 - d.len()) as nat, |i: int| '0') + d
    } else {
        d
    }
}

/// The ISO 8601 text of a calendar date: the year in four digits (with a
/// sign, and at least four digits, outside 0..=9999), then the month and
/// the day in two digits, separated by `-`.
pub open spec fn iso_date_text(y: int, m: int, d: int) -> Seq<char> {
    let year = if 0 <= y <= 9999 {
        zero_padded4(y as nat)
    } else if y < 0 {
        seq!['-'] + zero_padded4((-y) as nat)
    } else {
        seq!['+'] + zero_padded4(y as nat)
    };
    year + seq!['-'] + crate::text::zero_padded2(m as nat) + seq!['-'] + crate::text::zero_padded2(
        d as nat,
    )
}

/// `t` is the ISO 8601 text of the calendar date with day number `day`.
pub open spec fn is_iso_text_of(t: Seq<char>, day: int) -> bool {
    exists|y: int, m: int, d: int|
        valid_civil(y, m, d) && civil_day(y, m, d) == day && t == iso_date_text(y, m, d)
}

/// The ISO 8601 text of the date with day number `day` (one text at most
/// fits, see `lemma_iso_text_unique`).
pub open spec fn date_text(day: int) -> Seq<char> {
    choose|t: Seq<char>| is_iso_text_of(t, day)
}

/// A year has 366 days when it is a leap year and 365 otherwise.
proof fn lemma_year_length(y: int)
    ensures
        days_before_year(y + 1) == days_before_year(y) + (if is_leap_year(y) {
            366int
        } else {
            365int
        }),
{
    let p = y - 1;
    assert((p + 1) / 4 == p / 4 + (if (p + 1) % 4 == 0 { 1int } else { 0int }));
    assert((p + 1) / 100 == p / 100 + (if (p + 1) % 100 == 0 { 1int } else { 0int }));
    assert((p + 1) / 400 == p / 400 + (if (p + 1) % 400 == 0 { 1int } else { 0int }));
}

/// Later years start later.
proof fn lemma_years_ordered(a: int, b: int)
    requires
        a <= b,
    ensures
        days_before_year(a) <= days_before_year(b),
    decreases b - a,
{
    if a < b {
        lemma_year_length(b - 1);
        lemma_years_ordered(a, b - 1);
    }
}

/// The day number of a valid date lies inside its year.
proof fn lemma_day_in_year(y: int, m: int, d: int)
    requires
        valid_civil(y, m, d),
    ensures
        days_before_year(y) < civil_day(y, m, d) <= days_before_year(y + 1),
{
    lemma_year_length(y);
}

/// Months of a year follow each other without gaps.
proof fn lemma_months_ordered(y: int, m1: int, d1: int, m2: int, d2: int)
    requires
        1 <= m1 < m2 <= 12,
        1 <= d1 <= days_in_month(y, m1),
        1 <= d2,
    ensures
        days_before_month(y, m1) + d1 < days_before_month(y, m2) + d2,
{
}

/// Two valid dates with the same day number are the same date.
pub proof fn lemma_civil_day_injective(y1: int, m1: int, d1: int, y2: int, m2: int, d2: int)
    requires
        valid_civil(y1, m1, d1),
        valid_civil(y2, m2, d2),
        civil_day(y1, m1, d1) == civil_day(y2, m2, d2),
    ensures
        y1 == y2 && m1 == m2 && d1 == d2,
{
    lemma_day_in_year(y1, m1, d1);
    lemma_day_in_year(y2, m2, d2);
    if y1 < y2 {
        lemma_years_ordered(y1 + 1, y2);
    } else if y2 < y1 {
        lemma_years_ordered(y2 + 1, y1);
    } else if m1 < m2 {
        lemma_months_ordered(y1, m1, d1, m2, d2);
    } else if m2 < m1 {
        lemma_months_ordered(y1, m2, d2, m1, d1);
    }
}

/// A day number has one ISO 8601 text at most, so any text of it is
/// `date_text`.
pub proof fn lemma_iso_text_unique(t: Seq<char>, day: int)
    requires
        is_iso_text_of(t, day),
    ensures
        t == date_text(day),
{
    let (y1, m1, d1) = choose|y: int, m: int, d: int|
        valid_civil(y, m, d) && civil_day(y, m, d) == day && t == iso_date_text(y, m, d);
    let u = date_text(day);
    let (y2, m2, d2) = choose|y: int, m: int, d: int|
        valid_civil(y, m, d) && civil_day(y, m, d) == day && u == iso_date_text(y, m, d);
    lemma_civil_day_injective(y1, m1, d1, y2, m2, d2);
}

/// The day number of a calendar day, if `chrono` can represent the day
/// (`NaiveDate::from_ymd_opt`, then `num_days_from_ce`). Claims that it
/// exists exactly for valid calendar days in `chrono`'s range, and that it is
/// the proleptic Gregorian day number `civil_day` gives.
#[verifier::external_body]
fn day_number_of(year: i32, month: u32, day: u32) -> (r: Option<i32>)
    ensures
        r is Some <==> valid_civil(year as int, month as int, day as int),
        r matches Some(n) ==> n == civil_day(year as int, month as int, day as int),
{
    match chrono::NaiveDate::from_ymd_opt(year, month, day) {
        Some(d) => Some(d.num_days_from_ce()),
        None => None,
    }
}

/// The text `chrono` displays for the date with day number `day`
/// (`NaiveDate::from_num_days_from_ce_opt`, then `to_string`, which is its
/// `Debug` form). Claims that it is the `YYYY-MM-DD` text of that day's
/// calendar date as `iso_date_text` describes it.
#[verifier::external_body]
fn display_day(day: i32) -> (r: String)
    requires
        day_in_range(day as int),
    ensures
        is_iso_text_of(r@, day as int),
{
    chrono::NaiveDate::from_num_days_from_ce_opt(day).expect("a representable date").to_string()
}

// ---------------------------------------------------------------------------
// Date
// ---------------------------------------------------------------------------

/// A calendar date, held as its day number (January 1 of year 1 is day 1).
#[derive(Debug, Clone, Copy, PartialEq, Eq, Hash, Structural)]
pub struct Date {
    pub day: i32,
}

impl Date {
    /// The date is one that `chrono` can represent.
    pub open spec fn wf(self) -> bool {
        day_in_range(self.day as int)
    }

    /// The date of a calendar day, if it exists and can be represented.
    pub fn from_ymd(year: i32, month: u32, day: u32) -> (r: Option<Date>)
        ensures
            r is Some <==> valid_civil(year as int, month as int, day as int),
            r matches Some(d) ==> d.day == civil_day(year as int, month as int, day as int),
    {
        match day_number_of(year, month, day) {
            Some(n) => Some(Date { day: n }),
            None => None,
        }
    }

    /// Days since Monday of the week holding this date (0 for Monday, 6 for
    /// Sunday).
    pub fn weekday_from_monday(&self) -> (r: u32)
        requires
            self.wf(),
        ensures
            r == weekday_index(self.day as int),
    {
        // A multiple of 7 larger than the magnitude of the earliest day number
        // makes the dividend non-negative without changing the remainder.
        let shifted: u64 = (self.day as i64 - 1 + 7 * 13_678_019) as u64;
        proof {
            vstd::arithmetic::div_mod::lemma_mod_multiples_vanish(
                13_678_019,
                self.day as int - 1,
                7,
            );
        }
        (shifted % 7) as u32
    }

    /// Whole days from `other` to `self` (negative when `self` is earlier).
    pub fn days_since(&self, other: Date) -> (r: i64)
        ensures
            r == self.day - other.day,
    {
        self.day as i64 - other.day as i64
    }

    /// The date `n` days later (earlier when `n` is negative).
    pub fn add_days(&self, n: i64) -> (r: Date)
        requires
            day_in_range(self.day + n),
        ensures
            r.day == self.day + n,
            r.wf(),
    {
        Date { day: (self.day as i64 + n) as i32 }
    }

    /// The date as `chrono` displays it: `YYYY-MM-DD` (see `iso_date_text`).
    pub fn to_text(&self) -> (r: String)
        requires
            self.wf(),
        ensures
            r@ == date_text(self.day as int),
            is_iso_text_of(r@, self.day as int),
    {
        let r = display_day(self.day);
        proof {
            lemma_iso_text_unique(r@, self.day as int);
        }
        r
    }

    /// Today's date in the machine's local time zone
    /// (`chrono::Local::now().date_naive()`). Claims only that it is a date
    /// `chrono` can represent, as every `NaiveDate` is; which date it is
    /// depends on the clock and the time zone.
    #[verifier::external_body]
    pub(crate) fn today_local() -> (r: Date)
        ensures
            r.wf(),
    {
        Date { day: chrono::Local::now().date_naive().num_days_from_ce() }
    }

    /// The ISO week holding this date, as its ISO year and week number
    /// (`NaiveDate::iso_week`, then `year()` and `week()`). Claims that the
    /// week number is between 1 and 53, that the date falls in the seven
    /// days from that week's Monday, and that the week belongs to that ISO
    /// year: its Monday comes before week 1 of the next ISO year.
    #[verifier::external_body]
    pub(crate) fn iso_week(&self) -> (r: (i32, u32))
        requires
            self.wf(),
        ensures
            1 <= r.1 <= 53,
            iso_week_monday(r.0 as int, r.1 as int) <= self.day < iso_week_monday(
                r.0 as int,
                r.1 as int,
            ) + 7,
            iso_week_monday(r.0 as int, r.1 as int) < week1_monday(r.0 + 1),
    {
        let d = chrono::NaiveDate::from_num_days_from_ce_opt(self.day).expect("a representable date");
        (d.iso_week().year(), d.iso_week().week())
    }

    /// Whether `self` is strictly before `other`.
    pub fn is_before(&self, other: Date) -> (r: bool)
        ensures
            r == (self.day < other.day),
    {
        self.day < other.day
    }
}

// ---------------------------------------------------------------------------
// Timestamp
// ---------------------------------------------------------------------------

/// A UTC instant: seconds and nanoseconds since 1970-01-01T00:00:00Z.
#[derive(Debug, Clone, Copy, PartialEq, Eq, Hash, Structural)]
pub struct Timestamp {
    pub secs: i64,
    pub nanos: u32,
}

/// `a` is no later than `b`.
pub open spec fn ts_le(a: Timestamp, b: Timestamp) -> bool {
    a.secs < b.secs || (a.secs == b.secs && a.nanos <= b.nanos)
}

impl Timestamp {
    /// The instant falls on a date that `chrono` can represent.
    pub open spec fn wf(self) -> bool {
        day_in_range(utc_day(self.secs as int))
    }

    /// The UTC calendar date of the instant.
    pub fn date(&self) -> (d: Date)
        requires
            self.wf(),
        ensures
            d.day == utc_day(self.secs as int),
            d.wf(),
    {
        let q: i64 = if self.secs >= 0 {
            self.secs / 86400
        } else {
            -((-(self.secs + 1)) / 86400) - 1
        };
        proof {
            let s = self.secs as int;
            if s < 0 {
                let t = -(s + 1);
                assert(t >= 0);
                vstd::arithmetic::div_mod::lemma_fundamental_div_mod(t, 86400);
                vstd::arithmetic::div_mod::lemma_fundamental_div_mod(s, 86400);
                let qt = t / 86400;
                assert(s == (-qt - 1) * 86400 + (86399 - t % 86400));
                vstd::arithmetic::div_mod::lemma_fundamental_div_mod_converse(
                    s,
                    86400,
                    -qt - 1,
                    86399 - t % 86400,
                );
            }
        }
        Date { day: (UNIX_EPOCH_DAY as i64 + q) as i32 }
    }

    /// The current instant (`chrono::Utc::now()`, its `timestamp()` and
    /// `timestamp_subsec_nanos()`). Claims only that it falls on a date
    /// `chrono` can represent, as every `DateTime` does; which instant it is
    /// depends on the clock.
    #[verifier::external_body]
    pub(crate) fn now() -> (r: Timestamp)
        ensures
            r.wf(),
    {
        let t = chrono::Utc::now();
        Timestamp { secs: t.timestamp(), nanos: t.timestamp_subsec_nanos() }
    }

    /// Whether `self` is no later than `other`.
    pub fn is_at_or_before(&self, other: &Timestamp) -> (r: bool)
        ensures
            r == ts_le(*self, *other),
    {
        self.secs < other.secs || (self.secs == other.secs && self.nanos <= other.nanos)
    }
}

// ---------------------------------------------------------------------------
// ISO weeks
// ---------------------------------------------------------------------------

/// Why a calendar computation failed.
#[derive(Debug, Clone, Copy, PartialEq, Eq, Structural)]
pub enum CalendarError {
    /// The year has no January 4 that can be represented.
    InvalidYear,
}

/// Day number of January 4 of `year`, which always lies in ISO week 1.
pub open spec fn jan4_day(year: int) -> int {
    civil_day(year, 1, 4)
}

/// Day number of the Monday of ISO week 1 of `year`.
pub open spec fn week1_monday(year: int) -> int {
    jan4_day(year) - weekday_index(jan4_day(year))
}

/// Day number of the Monday of ISO week `week` of `year`.
pub open spec fn iso_week_monday(year: int, week: int) -> int {
    week1_monday(year) + 7 * (week - 1)
}

/// The ISO week's Monday can be computed without leaving the representable range.
pub open spec fn iso_week_in_range(year: int, week: int) -> bool {
    MIN_YEAR <= year <= MAX_YEAR ==> (day_in_range(week1_monday(year)) && day_in_range(
        iso_week_monday(year, week),
    ))
}

/// The Monday of ISO week `week` of `year` (week 1 is the week holding January 4).
pub fn iso_week_to_date(year: i32, week: u32) -> (r: Result<Date, CalendarError>)
    requires
        week >= 1,
        iso_week_in_range(year as int, week as int),
    ensures
        r is Ok <==> MIN_YEAR <= year <= MAX_YEAR,
        r matches Ok(d) ==> d.day == iso_week_monday(year as int, week as int),
{
    let jan4 = match Date::from_ymd(year, 1, 4) {
        Some(d) => d,
        None => {
            return Err(CalendarError::InvalidYear);
        },
    };
    proof {
        assert(days_in_month(year as int, 1) == 31);
    }
    let wd = jan4.weekday_from_monday();
    let monday = jan4.add_days(-(wd as i64));
    let target = monday.add_days(7 * ((week - 1) as i64));
    Ok(target)
}

/// The Monday of every ISO week is a Monday, week 1 holds January 4, and
/// consecutive weeks start seven days apart.
pub proof fn lemma_iso_week_monday(year: int, week: int)
    ensures
        weekday_index(iso_week_monday(year, week)) == 0,
        week1_monday(year) <= jan4_day(year) < week1_monday(year) + 7,
        iso_week_monday(year, week + 1) == iso_week_monday(year, week) + 7,
{
    let j = jan4_day(year);
    let m = iso_week_monday(year, week);
    assert(m - 1 == (j - 1) - (j - 1) % 7 + 7 * (week - 1));
    vstd::arithmetic::div_mod::lemma_fundamental_div_mod(j - 1, 7);
    assert((j - 1) - (j - 1) % 7 == 7 * ((j - 1) / 7));
    assert(m - 1 == 7 * ((j - 1) / 7 + week - 1)) by (nonlinear_arith)
        requires
            m - 1 == 7 * ((j - 1) / 7) + 7 * (week - 1),
    ;
    vstd::arithmetic::div_mod::lemma_mod_multiples_basic((j - 1) / 7 + week - 1, 7);
}

} // verus!
