//! Rendering of integration times (Unix seconds, UTC) as ISO 8601 text.
use chrono::{Datelike, Timelike};
use vstd::prelude::*;

verus! {

/// A calendar date and time of day in UTC, proleptic Gregorian calendar.
#[derive(Clone, Copy, Debug, PartialEq, Eq, Structural)]
pub struct UtcDateTime {
    pub year: i32,
    pub month: u32,
    pub day: u32,
    pub hour: u32,
    pub minute: u32,
    pub second: u32,
}

/// The first year that chrono's dates can hold.
pub const MIN_YEAR: i32 = -262143;

/// The last year that chrono's dates can hold.
pub const MAX_YEAR: i32 = 262142;

pub open spec fn is_leap_year(y: int) -> bool {
    (y % 4 == 0 && y % 100 != 0) || y % 400 == 0
}

pub open spec fn days_in_month(y: int, m: int) -> int {
    if m == 2 {
        if is_leap_year(y) {
            29
        } else {
            28
        }
    } else if m == 4 || m == 6 || m == 9 || m == 11 {
        30
    } else {
        31
    }
}

/// Leap years among the years `1..=y` (extended to all integers with floor
/// division, so that differences count the leap years in between).
pub open spec fn leap_years_through(y: int) -> int {
    y / 4 - y / 100 + y / 400
}

/// Days of year `y` that come before the first day of month `m`.
pub open spec fn days_before_month(y: int, m: int) -> int {
    let common: int = if m <= 1 {
        0
    } else if m == 2 {
        31
    } else if m == 3 {
        59
    } else if m == 4 {
        90
    } else if m == 5 {
        120
    } else if m == 6 {
        151
    } else if m == 7 {
        181
    } else if m == 8 {
        212
    } else if m == 9 {
        243
    } else if m == 10 {
        273
    } else if m == 11 {
        304
    } else {
        334
    };
    if m > 2 && is_leap_year(y) {
        common + 1
    } else {
        common
    }
}

/// Number of days from 1970-01-01 to the date `y-m-d` (negative before it).
pub open spec fn day_number(y: int, m: int, d: int) -> int {
    365 * (y - 1970) + leap_years_through(y - 1) - leap_years_through(1969) + days_before_month(y, m)
        + d - 1
}

/// `t` is a valid date-time and names the instant `secs` seconds after the epoch.
pub open spec fn denotes(t: UtcDateTime, secs: int) -> bool {
    &&& 1 <= t.month <= 12
    &&& 1 <= t.day <= days_in_month(t.year as int, t.month as int)
    &&& t.hour < 24
    &&& t.minute < 60
    &&& t.second < 60
    &&& day_number(t.year as int, t.month as int, t.day as int) * 86400 + t.hour * 3600 + t.minute
        * 60 + t.second == secs
}

/// The first second of the range that can be rendered.
pub open spec fn first_representable() -> int {
    day_number(MIN_YEAR as int, 1, 1) * 86400
}

/// The last second of the range that can be rendered.
pub open spec fn last_representable() -> int {
    day_number(MAX_YEAR as int, 12, 31) * 86400 + 86399
}

pub open spec fn representable(secs: int) -> bool {
    first_representable() <= secs <= last_representable()
}

/// Relies on chrono's `DateTime::<Utc>::from_timestamp(secs, 0)`, which gives the
/// proleptic Gregorian date-time of `secs` when its date lies within
/// `MIN_YEAR..=MAX_YEAR` and `None` otherwise, and on the field getters of
/// `Datelike` and `Timelike`.
#[verifier::external_body]
fn utc_from_timestamp(secs: i64) -> (r: Option<UtcDateTime>)
    ensures
        r is Some <==> representable(secs as int),
        r matches Some(t) ==> denotes(t, secs as int),
{
    chrono::DateTime::<chrono::Utc>::from_timestamp(secs, 0).map(
        |d| UtcDateTime {
            year: d.year(),
            month: d.month(),
            day: d.day(),
            hour: d.hour(),
            minute: d.minute(),
            second: d.second(),
        },
    )
}

proof fn lemma_year_length(y: int)
    ensures
        day_number(y + 1, 1, 1) == day_number(y, 1, 1) + if is_leap_year(y) {
            366int
        } else {
            365int
        },
{
}

proof fn lemma_date_within_year(y: int, m: int, d: int)
    requires
        1 <= m <= 12,
        1 <= d <= days_in_month(y, m),
    ensures
        day_number(y, 1, 1) <= day_number(y, m, d) < day_number(y + 1, 1, 1),
{
    lemma_year_length(y);
}

proof fn lemma_year_starts_ordered(y1: int, y2: int)
    requires
        y1 < y2,
    ensures
        day_number(y1 + 1, 1, 1) <= day_number(y2, 1, 1),
    decreases y2 - y1,
{
    if y1 + 1 < y2 {
        lemma_year_starts_ordered(y1, y2 - 1);
        lemma_year_length(y2 - 1);
    }
}

proof fn lemma_same_day_same_date(y1: int, m1: int, d1: int, y2: int, m2: int, d2: int)
    requires
        1 <= m1 <= 12,
        1 <= d1 <= days_in_month(y1, m1),
        1 <= m2 <= 12,
        1 <= d2 <= days_in_month(y2, m2),
        day_number(y1, m1, d1) == day_number(y2, m2, d2),
    ensures
        y1 == y2 && m1 == m2 && d1 == d2,
{
    lemma_date_within_year(y1, m1, d1);
    lemma_date_within_year(y2, m2, d2);
    if y1 < y2 {
        lemma_year_starts_ordered(y1, y2);
    } else if y2 < y1 {
        lemma_year_starts_ordered(y2, y1);
    }
}

/// A second after the epoch names at most one UTC date-time, so the text that
/// `render_integration_time` gives is determined by its argument.
pub proof fn lemma_denotes_unique(t1: UtcDateTime, t2: UtcDateTime, secs: int)
    requires
        denotes(t1, secs),
        denotes(t2, secs),
    ensures
        t1 == t2,
{
    let n1 = day_number(t1.year as int, t1.month as int, t1.day as int);
    let n2 = day_number(t2.year as int, t2.month as int, t2.day as int);
    assert(n1 == n2);
    lemma_same_day_same_date(
        t1.year as int,
        t1.month as int,
        t1.day as int,
        t2.year as int,
        t2.month as int,
        t2.day as int,
    );
}

/// The decimal digit `d` (`0 <= d < 10`) as a character.
pub open spec fn digit_char(d: int) -> char {
    seq!['0', '1', '2', '3', '4', '5', '6', '7', '8', '9'][d]
}

/// The decimal numeral of `n`, without leading zeros.
pub open spec fn decimal(n: nat) -> Seq<char>
    decreases n,
{
    if n < 10 {
        seq![digit_char(n as int)]
    } else {
        decimal(n / 10).push(digit_char((n % 10) as int))
    }
}

/// The last `w` decimal digits of `n`, with leading zeros.
pub open spec fn fixed_digits(n: nat, w: nat) -> Seq<char>
    decreases w,
{
    if w == 0 {
        Seq::empty()
    } else {
        fixed_digits(n / 10, (w - 1) as nat).push(digit_char((n % 10) as int))
    }
}

/// A year as ISO 8601 writes it: four digits from 0 to 9999, otherwise with a
/// sign, and at least four digits after a minus sign.
pub open spec fn year_text(y: int) -> Seq<char> {
    if y < 0 {
        if -y < 10000 {
            seq!['-'] + fixed_digits((-y) as nat, 4)
        } else {
            seq!['-'] + decimal((-y) as nat)
        }
    } else if y > 9999 {
        seq!['+'] + decimal(y as nat)
    } else {
        fixed_digits(y as nat, 4)
    }
}

/// `t` as `YYYY-MM-DDTHH:MM:SSZ`.
pub open spec fn iso_text(t: UtcDateTime) -> Seq<char> {
    year_text(t.year as int) + seq!['-'] + fixed_digits(t.month as nat, 2) + seq!['-']
        + fixed_digits(t.day as nat, 2) + seq!['T'] + fixed_digits(t.hour as nat, 2) + seq![':']
        + fixed_digits(t.minute as nat, 2) + seq![':'] + fixed_digits(t.second as nat, 2) + seq![
        'Z',
    ]
}

fn push_digit(out: &mut String, d: u64)
    requires
        d < 10,
    ensures
        final(out)@ == old(out)@.push(digit_char(d as int)),
{
    let digits = "0123456789";
    proof {
        reveal_strlit("0123456789");
    }
    let i = d as usize;
    let s = digits.substring_ascii(i, i + 1);
    out.append(s);
    assert(s@ =~= seq![digit_char(d as int)]);
}

pub(crate) fn push_decimal(out: &mut String, n: u64)
    ensures
        final(out)@ == old(out)@ + decimal(n as nat),
    decreases n,
{
    if n >= 10 {
        push_decimal(out, n / 10);
    }
    push_digit(out, n % 10);
    assert(out@ =~= old(out)@ + decimal(n as nat));
}

fn push_fixed_digits(out: &mut String, n: u64, w: u64)
    ensures
        final(out)@ == old(out)@ + fixed_digits(n as nat, w as nat),
    decreases w,
{
    if w > 0 {
        push_fixed_digits(out, n / 10, w - 1);
        push_digit(out, n % 10);
    }
    assert(out@ =~= old(out)@ + fixed_digits(n as nat, w as nat));
}

/// Writes `t` as `YYYY-MM-DDTHH:MM:SSZ` (ISO 8601, UTC).
pub fn format_utc(t: &UtcDateTime) -> (r: String)
    ensures
        r@ == iso_text(*t),
{
    let mut out = String::new();
    let y = t.year as i64;
    if y < 0 {
        out.append("-");
        if -y < 10000 {
            push_fixed_digits(&mut out, (-y) as u64, 4);
        } else {
            push_decimal(&mut out, (-y) as u64);
        }
    } else if y > 9999 {
        out.append("+");
        push_decimal(&mut out, y as u64);
    } else {
        push_fixed_digits(&mut out, y as u64, 4);
    }
    proof {
        reveal_strlit("-");
        reveal_strlit("+");
        reveal_strlit("T");
        reveal_strlit(":");
        reveal_strlit("Z");
    }
    assert(out@ =~= year_text(t.year as int));
    out.append("-");
    push_fixed_digits(&mut out, t.month as u64, 2);
    out.append("-");
    push_fixed_digits(&mut out, t.day as u64, 2);
    out.append("T");
    push_fixed_digits(&mut out, t.hour as u64, 2);
    out.append(":");
    push_fixed_digits(&mut out, t.minute as u64, 2);
    out.append(":");
    push_fixed_digits(&mut out, t.second as u64, 2);
    out.append("Z");
    assert(out@ =~= iso_text(*t));
    out
}

/// Renders an integration time given in Unix seconds as UTC date-time text,
/// or `None` when its date lies outside `MIN_YEAR..=MAX_YEAR`.
pub fn render_integration_time(secs: i64) -> (r: Option<String>)
    ensures
        r is Some <==> representable(secs as int),
        r matches Some(s) ==> exists|t: UtcDateTime| denotes(t, secs as int) && s@ == iso_text(t),
{
    match utc_from_timestamp(secs) {
        Some(t) => {
            let s = format_utc(&t);
            assert(denotes(t, secs as int) && s@ == iso_text(t));
            Some(s)
        },
        None => None,
    }
}

} // verus!
