use crate::text::{escape_text, is_line_break, lemma_escape_plain};
use crate::value::PLACEHOLDER;
use vstd::prelude::*;

verus! {

/// The year has a 29th of February.
pub open spec fn is_leap(y: int) -> bool {
    y % 4 == 0 && (y % 100 != 0 || y % 400 == 0)
}

pub open spec fn year_days(y: int) -> int {
    if is_leap(y) {
        366
    } else {
        365
    }
}

pub open spec fn month_days(y: int, m: int) -> int {
    if m == 2 {
        if is_leap(y) {
            29
        } else {
            28
        }
    } else if m == 4 || m == 6 || m == 9 || m == 11 {
        30
    } else {
        31
    }
}

/// The days from the first of January 1970 to the first of January of `y`.
pub open spec fn days_before_year(y: int) -> int
    decreases y - 1970,
{
    if y <= 1970 {
        0
    } else {
        days_before_year(y - 1) + year_days(y - 1)
    }
}

/// The days from the first of January of `y` to the first of month `m` of `y`.
pub open spec fn days_before_month(y: int, m: int) -> int
    decreases m,
{
    if m <= 1 {
        0
    } else {
        days_before_month(y, m - 1) + month_days(y, m - 1)
    }
}

/// A date and a time of day in UTC.
#[derive(Clone, Copy, Debug, PartialEq, Eq, Structural)]
pub struct CivilTime {
    pub year: u32,
    pub month: u8,
    pub day: u8,
    pub hour: u8,
    pub minute: u8,
    pub second: u8,
}

/// The last second of the year 9999, counted from the start of 1970.
pub const MAX_SECONDS: i64 = 253402300799;

/// A date of the calendar between 1970 and 9999, with a time of day.
pub open spec fn is_civil(t: CivilTime) -> bool {
    &&& 1970 <= t.year <= 9999
    &&& 1 <= t.month <= 12
    &&& 1 <= t.day <= month_days(t.year as int, t.month as int)
    &&& t.hour < 24
    &&& t.minute < 60
    &&& t.second < 60
}

/// The days from the first of January 1970 to the date.
pub open spec fn days_of(t: CivilTime) -> int {
    days_before_year(t.year as int) + days_before_month(t.year as int, t.month as int) + t.day
        - 1
}

/// The seconds from the start of 1970 to the date and time.
pub open spec fn seconds_of(t: CivilTime) -> int {
    days_of(t) * 86400 + t.hour * 3600 + t.minute * 60 + t.second
}

/// The date and time that lie the given seconds after the start of 1970.
pub open spec fn civil_of(secs: int) -> CivilTime {
    choose|t: CivilTime| is_civil(t) && seconds_of(t) == secs
}

/// The leap years before the year `y`, counted from the year 1.
pub open spec fn leaps_before(y: int) -> int {
    (y - 1) / 4 - (y - 1) / 100 + (y - 1) / 400
}

/// From one year to the next, the count of the multiples of 4, of 100 and
/// of 400 grows by one where the year is such a multiple.
proof fn lemma_multiples_step(n: int)
    requires
        n >= 1,
    ensures
        n / 4 - (n - 1) / 4 == (if n % 4 == 0 { 1int } else { 0int }),
        n / 100 - (n - 1) / 100 == (if n % 100 == 0 { 1int } else { 0int }),
        n / 400 - (n - 1) / 400 == (if n % 400 == 0 { 1int } else { 0int }),
        n % 400 == 0 ==> n % 100 == 0,
        n % 100 == 0 ==> n % 4 == 0,
{
    assert(n / 4 - (n - 1) / 4 == (if n % 4 == 0 { 1int } else { 0int }));
    assert(n / 100 - (n - 1) / 100 == (if n % 100 == 0 { 1int } else { 0int }));
    assert(n / 400 - (n - 1) / 400 == (if n % 400 == 0 { 1int } else { 0int }));
    assert(n % 400 == 0 ==> n % 100 == 0) by {
        assert(n == 400 * (n / 400) + n % 400);
        assert(400 * (n / 400) == 100 * (4 * (n / 400)));
    }
    assert(n % 100 == 0 ==> n % 4 == 0) by {
        assert(n == 100 * (n / 100) + n % 100);
        assert(100 * (n / 100) == 4 * (25 * (n / 100)));
    }
}

/// The days before a year, in closed form.
pub proof fn lemma_days_before_year(y: int)
    requires
        y >= 1970,
    ensures
        days_before_year(y) == 365 * (y - 1970) + leaps_before(y) - 477,
    decreases y - 1970,
{
    if y > 1970 {
        lemma_days_before_year(y - 1);
        lemma_multiples_step(y - 1);
        assert(leaps_before(y) - leaps_before(y - 1) == year_days(y - 1) - 365);
    }
}

/// A later year begins later.
pub proof fn lemma_years_ascend(a: int, b: int)
    requires
        1970 <= a <= b,
    ensures
        days_before_year(a) + 365 * (b - a) <= days_before_year(b),
    decreases b - a,
{
    if a < b {
        lemma_years_ascend(a, b - 1);
    }
}

/// A later month begins later, and the twelve months fill the year.
pub proof fn lemma_months_ascend(y: int, a: int, b: int)
    requires
        1 <= a <= b <= 13,
    ensures
        days_before_month(y, a) + 28 * (b - a) <= days_before_month(y, b),
        days_before_month(y, b) <= year_days(y),
        days_before_month(y, 13) == year_days(y),
    decreases b - a,
{
    reveal_with_fuel(days_before_month, 14);
    if a < b {
        lemma_months_ascend(y, a, b - 1);
    }
}

/// A date lies within its year.
pub proof fn lemma_day_in_year(t: CivilTime)
    requires
        is_civil(t),
    ensures
        0 <= days_before_month(t.year as int, t.month as int) + t.day - 1 < year_days(
            t.year as int,
        ),
{
    lemma_months_ascend(t.year as int, 1, t.month as int);
    lemma_months_ascend(t.year as int, t.month as int + 1, 13);
}

/// No two dates and times lie the same number of seconds after 1970.
pub proof fn lemma_seconds_injective(a: CivilTime, b: CivilTime)
    requires
        is_civil(a),
        is_civil(b),
        seconds_of(a) == seconds_of(b),
    ensures
        a == b,
{
    lemma_day_in_year(a);
    lemma_day_in_year(b);
    assert(days_of(a) == days_of(b));
    if a.year < b.year {
        lemma_years_ascend(a.year as int + 1, b.year as int);
    } else if b.year < a.year {
        lemma_years_ascend(b.year as int + 1, a.year as int);
    }
    assert(a.year == b.year);
    let y = a.year as int;
    if a.month < b.month {
        lemma_months_ascend(y, a.month as int + 1, b.month as int);
    } else if b.month < a.month {
        lemma_months_ascend(y, b.month as int + 1, a.month as int);
    }
}

/// Every second from 1970 to the end of 9999 is the second of one date and
/// time, and of one only: `civil_of` names it.
pub proof fn lemma_civil_of(t: CivilTime)
    requires
        is_civil(t),
    ensures
        civil_of(seconds_of(t)) == t,
        0 <= seconds_of(t) <= MAX_SECONDS,
{
    let u = civil_of(seconds_of(t));
    lemma_seconds_injective(t, u);
    lemma_day_in_year(t);
    lemma_years_ascend(1970, t.year as int);
    lemma_years_ascend(t.year as int + 1, 10000);
    lemma_days_before_year(10000);
}

/// The year in which the day lies that comes `rest` days after the first of
/// January of `y`.
spec fn year_at(y: int, rest: int) -> int
    decreases rest,
{
    if rest >= year_days(y) {
        year_at(y + 1, rest - year_days(y))
    } else {
        y
    }
}

/// The month in which the day lies that comes `rest` days after the first of
/// month `m` of `y`.
spec fn month_at(y: int, m: int, rest: int) -> int
    decreases 12 - m,
{
    if m < 12 && rest >= month_days(y, m) {
        month_at(y, m + 1, rest - month_days(y, m))
    } else {
        m
    }
}

proof fn lemma_year_at(y: int, rest: int)
    requires
        y >= 1970,
        rest >= 0,
    ensures
        year_at(y, rest) >= y,
        days_before_year(year_at(y, rest)) - days_before_year(y) <= rest,
        rest < days_before_year(year_at(y, rest)) - days_before_year(y) + year_days(
            year_at(y, rest),
        ),
    decreases rest,
{
    if rest >= year_days(y) {
        lemma_year_at(y + 1, rest - year_days(y));
    }
}

proof fn lemma_month_at(y: int, m: int, rest: int)
    requires
        1 <= m <= 12,
        rest >= 0,
        days_before_month(y, m) + rest < year_days(y),
    ensures
        m <= month_at(y, m, rest) <= 12,
        days_before_month(y, month_at(y, m, rest)) - days_before_month(y, m) <= rest,
        rest < days_before_month(y, month_at(y, m, rest)) - days_before_month(y, m) + month_days(
            y,
            month_at(y, m, rest),
        ),
    decreases 12 - m,
{
    if m < 12 && rest >= month_days(y, m) {
        lemma_month_at(y, m + 1, rest - month_days(y, m));
    } else if m == 12 {
        lemma_months_ascend(y, 12, 13);
    }
}

/// Every second from 1970 to the end of 9999 is the second of a date and time.
pub proof fn lemma_civil_exists(secs: int)
    requires
        0 <= secs <= MAX_SECONDS,
    ensures
        is_civil(civil_of(secs)),
        seconds_of(civil_of(secs)) == secs,
{
    let days = secs / 86400;
    let in_day = secs % 86400;
    let year = year_at(1970, days);
    lemma_year_at(1970, days);
    lemma_days_before_year(10000);
    if year >= 10000 {
        lemma_years_ascend(10000, year);
    }
    let in_year = days - days_before_year(year);
    let month = month_at(year, 1, in_year);
    lemma_month_at(year, 1, in_year);
    let day = in_year - days_before_month(year, month) + 1;
    let t = CivilTime {
        year: year as u32,
        month: month as u8,
        day: day as u8,
        hour: (in_day / 3600) as u8,
        minute: (in_day % 3600 / 60) as u8,
        second: (in_day % 60) as u8,
    };
    assert(is_civil(t));
    assert(seconds_of(t) == secs);
}

fn leap_year(y: u32) -> (r: bool)
    ensures
        r == is_leap(y as int),
{
    y % 4 == 0 && (y % 100 != 0 || y % 400 == 0)
}

fn days_in_year(y: u32) -> (r: u64)
    ensures
        r == year_days(y as int),
{
    if leap_year(y) {
        366
    } else {
        365
    }
}

fn days_in_month(y: u32, m: u8) -> (r: u64)
    ensures
        r == month_days(y as int, m as int),
{
    if m == 2 {
        if leap_year(y) {
            29
        } else {
            28
        }
    } else if m == 4 || m == 6 || m == 9 || m == 11 {
        30
    } else {
        31
    }
}

/// The date and time that lie `secs` seconds after the start of 1970, for
/// every second up to the end of the year 9999.
pub fn civil_from_seconds(secs: i64) -> (r: Option<CivilTime>)
    ensures
        r is Some <==> 0 <= secs <= MAX_SECONDS,
        r matches Some(t) ==> is_civil(t) && seconds_of(t) == secs && t == civil_of(secs as int),
{
    if secs < 0 || secs > MAX_SECONDS {
        return None;
    }
    let total: u64 = secs as u64;
    let days: u64 = total / 86400;
    let in_day: u64 = total % 86400;
    let mut year: u32 = 1970;
    let mut rest: u64 = days;
    proof {
        lemma_days_before_year(10000);
    }
    while rest >= days_in_year(year)
        invariant
            1970 <= year <= 9999,
            days_before_year(year as int) + rest == days,
            days < days_before_year(10000),
        decreases rest,
    {
        proof {
            if year == 9999 {
                assert(days_before_year(10000) == days_before_year(9999) + year_days(9999));
            }
        }
        rest = rest - days_in_year(year);
        year = year + 1;
    }
    let mut month: u8 = 1;
    let ghost in_year = rest;
    while rest >= days_in_month(year, month)
        invariant
            1 <= month <= 12,
            days_before_month(year as int, month as int) + rest == in_year,
            in_year < year_days(year as int),
        decreases rest,
    {
        proof {
            lemma_months_ascend(year as int, month as int + 1, 13);
        }
        rest = rest - days_in_month(year, month);
        month = month + 1;
    }
    let t = CivilTime {
        year,
        month,
        day: (rest + 1) as u8,
        hour: (in_day / 3600) as u8,
        minute: (in_day % 3600 / 60) as u8,
        second: (in_day % 60) as u8,
    };
    proof {
        lemma_civil_of(t);
    }
    Some(t)
}

/// The character of a decimal digit.
pub open spec fn digit(n: int) -> char {
    ((48 + n) as u8) as char
}

pub open spec fn two_digits(n: int) -> Seq<char> {
    seq![digit(n / 10), digit(n % 10)]
}

pub open spec fn four_digits(n: int) -> Seq<char> {
    seq![digit(n / 1000), digit(n / 100 % 10), digit(n / 10 % 10), digit(n % 10)]
}

/// The date and time as `YYYY-MM-DDThh:mm:ssZ`.
pub open spec fn civil_text(t: CivilTime) -> Seq<char> {
    four_digits(t.year as int) + seq!['-'] + two_digits(t.month as int) + seq!['-'] + two_digits(
        t.day as int,
    ) + seq!['T'] + two_digits(t.hour as int) + seq![':'] + two_digits(t.minute as int) + seq![
        ':',
    ] + two_digits(t.second as int) + seq!['Z']
}

fn push_digit(s: &mut String, n: u32)
    requires
        n <= 9,
    ensures
        final(s)@ == old(s)@.push(digit(n as int)),
{
    s.push((48u8 + n as u8) as char);
}

fn push_two_digits(s: &mut String, n: u8)
    requires
        n <= 99,
    ensures
        final(s)@ == old(s)@ + two_digits(n as int),
{
    push_digit(s, (n / 10) as u32);
    push_digit(s, (n % 10) as u32);
    assert(s@ =~= old(s)@ + two_digits(n as int));
}

impl CivilTime {
    /// The date and time as text, in the form `YYYY-MM-DDThh:mm:ssZ`.
    pub fn to_string(&self) -> (s: String)
        requires
            is_civil(*self),
        ensures
            s@ == civil_text(*self),
    {
        let mut s = String::new();
        push_digit(&mut s, self.year / 1000);
        push_digit(&mut s, self.year / 100 % 10);
        push_digit(&mut s, self.year / 10 % 10);
        push_digit(&mut s, self.year % 10);
        s.push('-');
        push_two_digits(&mut s, self.month);
        s.push('-');
        push_two_digits(&mut s, self.day);
        s.push('T');
        push_two_digits(&mut s, self.hour);
        s.push(':');
        push_two_digits(&mut s, self.minute);
        s.push(':');
        push_two_digits(&mut s, self.second);
        s.push('Z');
        assert(s@ =~= civil_text(*self));
        s
    }
}

/// The text of the instant `secs` seconds after the start of 1970.
pub open spec fn utc_text(secs: int) -> Seq<char> {
    civil_text(civil_of(secs))
}

/// Writes an instant, given in seconds since the start of 1970, as
/// `YYYY-MM-DDThh:mm:ssZ`; `None` for an instant before 1970 or after 9999.
pub fn format_utc(secs: i64) -> (r: Option<String>)
    ensures
        r is Some <==> 0 <= secs <= MAX_SECONDS,
        r matches Some(s) ==> s@ == utc_text(secs as int),
{
    match civil_from_seconds(secs) {
        Some(t) => Some(t.to_string()),
        None => None,
    }
}

/// The text that a record shows for an instant: its date and time where they
/// can be written, else the placeholder.
pub open spec fn instant_text(secs: i64) -> Seq<char> {
    if 0 <= secs <= MAX_SECONDS {
        utc_text(secs as int)
    } else {
        PLACEHOLDER@
    }
}

pub fn instant_to_string(secs: i64) -> (s: String)
    ensures
        s@ == instant_text(secs),
{
    match format_utc(secs) {
        Some(t) => t,
        None => PLACEHOLDER.to_owned(),
    }
}

/// A date and time as text has twenty characters, none of which needs an
/// escape: a record shows it as it is.
pub proof fn lemma_civil_text_plain(t: CivilTime)
    requires
        is_civil(t),
    ensures
        civil_text(t).len() == 20,
        escape_text(civil_text(t)) == civil_text(t),
{
    let s = civil_text(t);
    assert(s.len() == 20);
    assert forall|i: int| 0 <= i < s.len() implies #[trigger] s[i] != '\\' && s[i] != '"'
        && !is_line_break(s[i]) by {
        lemma_digit(t.year as int / 1000);
        lemma_digit(t.year as int / 100 % 10);
        lemma_digit(t.year as int / 10 % 10);
        lemma_digit(t.year as int % 10);
        lemma_digit(t.month as int / 10);
        lemma_digit(t.month as int % 10);
        lemma_digit(t.day as int / 10);
        lemma_digit(t.day as int % 10);
        lemma_digit(t.hour as int / 10);
        lemma_digit(t.hour as int % 10);
        lemma_digit(t.minute as int / 10);
        lemma_digit(t.minute as int % 10);
        lemma_digit(t.second as int / 10);
        lemma_digit(t.second as int % 10);
    }
    lemma_escape_plain(s);
}

/// A decimal digit is written as one of the characters `0` to `9`.
pub proof fn lemma_digit(n: int)
    requires
        0 <= n <= 9,
    ensures
        '0' <= digit(n) <= '9',
{
}

/// The text that a record shows for an instant needs no escape: the record
/// shows the date and time, or the placeholder, as it is.
pub proof fn law_instant_text_plain(secs: i64)
    ensures
        escape_text(instant_text(secs)) == instant_text(secs),
        0 <= secs <= MAX_SECONDS ==> instant_text(secs).len() == 20,
{
    if 0 <= secs <= MAX_SECONDS {
        lemma_civil_exists(secs as int);
        lemma_civil_text_plain(civil_of(secs as int));
    } else {
        reveal_strlit("None");
        assert forall|i: int| 0 <= i < PLACEHOLDER@.len() implies #[trigger] PLACEHOLDER@[i]
            != '\\' && PLACEHOLDER@[i] != '"' && !is_line_break(PLACEHOLDER@[i]) by {}
        lemma_escape_plain(PLACEHOLDER@);
    }
}

} // verus!
