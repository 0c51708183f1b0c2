use vstd::prelude::*;
use vstd::string::*;
use crate::numbers::{spec_uint_str, zero_pad, u64_to_string, u64_to_string_padded};

verus! {

/// Gregorian leap-year rule.
pub open spec fn is_leap_year(y: int) -> bool {
    y % 4 == 0 && (y % 100 != 0 || y % 400 == 0)
}

pub open spec fn days_in_year(y: int) -> int {
    if is_leap_year(y) {
        366
    } else {
        365
    }
}

/// Length of month `m` of year `y`; months outside 1..=12 fall to the
/// 31-day branch, which keeps the function total.
pub open spec fn days_in_month(y: int, m: int) -> int {
    if m == 2 {
        if is_leap_year(y) {
            29
        } else {
            28
        }
    } else if m == 4 || m == 6 || m == 9 || m == 11 {
        30
    } else {
        31
    }
}

/// Starting from January 1 of year `y` with `rem` whole days left, consume
/// whole years: yields the year the last day falls in and the day offset
/// within that year.
pub open spec fn year_split(y: int, rem: int) -> (int, int)
    decreases rem,
{
    if rem >= days_in_year(y) {
        year_split(y + 1, rem - days_in_year(y))
    } else {
        (y, rem)
    }
}

/// Starting from the first day of month `m` of year `y` with `rem` days left,
/// consume whole months: yields the month and the day offset within it.
pub open spec fn month_split(y: int, m: int, rem: int) -> (int, int)
    decreases rem,
{
    if rem >= days_in_month(y, m) {
        month_split(y, m + 1, rem - days_in_month(y, m))
    } else {
        (m, rem)
    }
}

/// Days from 1970-01-01 to January 1 of year `y`.
pub open spec fn days_before_year(y: int) -> int
    decreases y - 1970,
{
    if y <= 1970 {
        0
    } else {
        days_before_year(y - 1) + days_in_year(y - 1)
    }
}

/// Days from January 1 to the first day of month `m` within year `y`.
pub open spec fn days_before_month(y: int, m: int) -> int
    decreases m,
{
    if m <= 1 {
        0
    } else {
        days_before_month(y, m - 1) + days_in_month(y, m - 1)
    }
}

pub open spec fn valid_date(y: int, m: int, d: int) -> bool {
    y >= 1970 && 1 <= m <= 12 && 1 <= d <= days_in_month(y, m)
}

/// The day number of the calendar date `y-m-d`, counted from 1970-01-01.
pub open spec fn epoch_days(y: int, m: int, d: int) -> int {
    days_before_year(y) + days_before_month(y, m) + (d - 1)
}

proof fn lemma_year_split_correct(y: int, rem: int)
    requires
        y >= 1970,
        rem >= 0,
    ensures
        year_split(y, rem).0 >= y,
        0 <= year_split(y, rem).1 < days_in_year(year_split(y, rem).0),
        days_before_year(year_split(y, rem).0) == days_before_year(y) + rem - year_split(y, rem).1,
    decreases rem,
{
    if rem >= days_in_year(y) {
        lemma_year_split_correct(y + 1, rem - days_in_year(y));
    }
}

proof fn lemma_months_sum_to_year(y: int)
    ensures
        days_before_month(y, 13) == days_in_year(y),
{
    reveal_with_fuel(days_before_month, 13);
}

proof fn lemma_month_split_correct(y: int, m: int, rem: int)
    requires
        1 <= m <= 12,
        0 <= rem,
        days_before_month(y, m) + rem < days_in_year(y),
    ensures
        1 <= month_split(y, m, rem).0 <= 12,
        0 <= month_split(y, m, rem).1 < days_in_month(y, month_split(y, m, rem).0),
        days_before_month(y, month_split(y, m, rem).0) + month_split(y, m, rem).1
            == days_before_month(y, m) + rem,
    decreases rem,
{
    lemma_months_sum_to_year(y);
    if rem >= days_in_month(y, m) {
        if m == 12 {
            assert(days_before_month(y, 13) == days_before_month(y, 12) + days_in_month(y, 12));
            assert(false);
        }
        lemma_month_split_correct(y, m + 1, rem - days_in_month(y, m));
    }
}

/// The two splits together yield a well-formed calendar date, and it is the
/// date whose distance from 1970-01-01 is exactly the given day count: the
/// rendered `YYYY/MM/DD` is the proleptic Gregorian date of the timestamp.
pub proof fn lemma_split_is_calendar_date(days: int)
    requires
        days >= 0,
    ensures
        ({
            let ys = year_split(1970, days);
            let ms = month_split(ys.0, 1, ys.1);
            valid_date(ys.0, ms.0, ms.1 + 1) && epoch_days(ys.0, ms.0, ms.1 + 1) == days
        }),
{
    lemma_year_split_correct(1970, days);
    let ys = year_split(1970, days);
    lemma_month_split_correct(ys.0, 1, ys.1);
}

/// The timestamp `t` (seconds since 1970-01-01T00:00:00 UTC, nonnegative)
/// rendered as `YYYY/MM/DD HH:MM:SS UTC`.
pub open spec fn spec_format_timestamp(t: int) -> Seq<char> {
    let days = t / 86400;
    let secs = t % 86400;
    let ys = year_split(1970, days);
    let ms = month_split(ys.0, 1, ys.1);
    zero_pad(spec_uint_str(ys.0), 4) + seq!['/'] + zero_pad(spec_uint_str(ms.0), 2) + seq!['/']
        + zero_pad(spec_uint_str(ms.1 + 1), 2) + seq![' '] + zero_pad(
        spec_uint_str(secs / 3600),
        2,
    ) + seq![':'] + zero_pad(spec_uint_str((secs / 60) % 60), 2) + seq![':'] + zero_pad(
        spec_uint_str(secs % 60),
        2,
    ) + seq![' ', 'U', 'T', 'C']
}

/// An elapsed span of `diff` seconds rendered as `{days}d {hours}h {minutes}m
/// {seconds}s`, where hours, minutes and seconds wrap at their unit.
pub open spec fn spec_duration_str(diff: int) -> Seq<char> {
    spec_uint_str(diff / 86400) + seq!['d', ' '] + spec_uint_str((diff / 3600) % 24) + seq![
        'h',
        ' ',
    ] + spec_uint_str((diff / 60) % 60) + seq!['m', ' '] + spec_uint_str(diff % 60) + seq!['s']
}

fn days_in_year_x(y: u64) -> (r: u64)
    ensures
        r == days_in_year(y as int),
{
    if y % 4 == 0 && (y % 100 != 0 || y % 400 == 0) {
        366
    } else {
        365
    }
}

fn days_in_month_x(y: u64, m: u64) -> (r: u64)
    ensures
        r == days_in_month(y as int, m as int),
{
    if m == 2 {
        if y % 4 == 0 && (y % 100 != 0 || y % 400 == 0) {
            29
        } else {
            28
        }
    } else if m == 4 || m == 6 || m == 9 || m == 11 {
        30
    } else {
        31
    }
}

/// Renders the timestamp `t` (seconds since the epoch, UTC) as
/// `YYYY/MM/DD HH:MM:SS UTC`.
pub fn format_timestamp(t: i64) -> (r: String)
    requires
        t >= 0,
    ensures
        r@ == spec_format_timestamp(t as int),
{
    let days: u64 = (t / 86400) as u64;
    let secs: u64 = (t % 86400) as u64;
    let mut y: u64 = 1970;
    let mut yrem: u64 = days;
    while yrem >= days_in_year_x(y)
        invariant
            1970 <= y,
            y - 1970 <= days - yrem,
            yrem <= days,
            days <= 0x7fff_ffff_ffff_ffff,
            year_split(1970, days as int) == year_split(y as int, yrem as int),
        decreases yrem,
    {
        let diy = days_in_year_x(y);
        yrem = yrem - diy;
        y = y + 1;
    }
    let ghost ys = year_split(1970, days as int);
    proof {
        assert(ys == (y as int, yrem as int));
    }
    let mut m: u64 = 1;
    let mut mrem: u64 = yrem;
    while mrem >= days_in_month_x(y, m)
        invariant
            1 <= m,
            m - 1 <= yrem - mrem,
            mrem <= yrem,
            yrem <= days,
            month_split(y as int, 1, yrem as int) == month_split(y as int, m as int, mrem as int),
        decreases mrem,
    {
        let dim = days_in_month_x(y, m);
        mrem = mrem - dim;
        m = m + 1;
    }
    let ghost ms = month_split(y as int, 1, yrem as int);
    proof {
        assert(ms == (m as int, mrem as int));
    }
    let mut out = u64_to_string_padded(y, 4);
    out.push('/');
    let mm = u64_to_string_padded(m, 2);
    out.append(mm.as_str());
    out.push('/');
    let dd = u64_to_string_padded(mrem + 1, 2);
    out.append(dd.as_str());
    out.push(' ');
    let hh = u64_to_string_padded(secs / 3600, 2);
    out.append(hh.as_str());
    out.push(':');
    let mi = u64_to_string_padded((secs / 60) % 60, 2);
    out.append(mi.as_str());
    out.push(':');
    let ss = u64_to_string_padded(secs % 60, 2);
    out.append(ss.as_str());
    out.append(" UTC");
    proof {
        reveal_strlit(" UTC");
        assert(" UTC"@ =~= seq![' ', 'U', 'T', 'C']);
        assert(out@ =~= spec_format_timestamp(t as int));
    }
    out
}

/// Renders an elapsed span of `diff` seconds as `{d}d {h}h {m}m {s}s`.
pub fn format_duration(diff: i64) -> (r: String)
    requires
        diff >= 0,
    ensures
        r@ == spec_duration_str(diff as int),
{
    let d = diff as u64;
    let mut out = u64_to_string(d / 86400);
    out.push('d');
    out.push(' ');
    let hh = u64_to_string((d / 3600) % 24);
    out.append(hh.as_str());
    out.push('h');
    out.push(' ');
    let mi = u64_to_string((d / 60) % 60);
    out.append(mi.as_str());
    out.push('m');
    out.push(' ');
    let ss = u64_to_string(d % 60);
    out.append(ss.as_str());
    out.push('s');
    proof {
        assert(out@ =~= spec_duration_str(diff as int));
    }
    out
}

} // verus!
