//! The HTTP date format (`Sun, 06 Nov 1994 08:49:37 GMT`): fixed width, GMT,
//! one-second precision, for times from the Unix epoch on.

use vstd::prelude::*;
use crate::header::{ascii, push_ascii};

verus! {

/// Seconds from the epoch to 10000-01-01T00:00:00Z, the first instant whose
/// year does not fit the format's four digits.
pub const MAX_HTTP_DATE_SECS: u64 = 253402300800;

pub const SECS_PER_DAY: u64 = 86400;

pub open spec fn is_leap_year(y: int) -> bool {
    y % 4 == 0 && (y % 100 != 0 || y % 400 == 0)
}

pub open spec fn days_in_year(y: int) -> nat {
    if is_leap_year(y) {
        366
    } else {
        365
    }
}

/// Days in month `m` (1 to 12) of year `y`.
pub open spec fn days_in_month(y: int, m: int) -> nat {
    if m == 2 {
        if is_leap_year(y) {
            29
        } else {
            28
        }
    } else if m == 4 || m == 6 || m == 9 || m == 11 {
        30
    } else {
        31
    }
}

/// The year and the (zero-based) day within it, `days` days after the start of year `y`.
pub open spec fn year_and_day(days: nat, y: int) -> (int, nat)
    decreases days,
{
    if days < days_in_year(y) {
        (y, days)
    } else {
        year_and_day((days - days_in_year(y)) as nat, y + 1)
    }
}

/// The month and the (one-based) day of month of the zero-based day `d` of
/// year `y`, counting from month `m`.
pub open spec fn month_and_day(d: nat, y: int, m: int) -> (int, nat)
    decreases 12 - m,
{
    if m >= 12 || d < days_in_month(y, m) {
        (m, d + 1)
    } else {
        month_and_day((d - days_in_month(y, m)) as nat, y, m + 1)
    }
}

/// Days from the start of month `m` to the end of year `y`.
pub open spec fn days_from_month(y: int, m: int) -> nat
    decreases 13 - m,
{
    if m > 12 {
        0
    } else {
        days_in_month(y, m) + days_from_month(y, m + 1)
    }
}

/// The months of a year add up to the year.
proof fn lemma_months_fill_year(y: int)
    ensures
        days_from_month(y, 1) == days_in_year(y),
{
    reveal_with_fuel(days_from_month, 13);
}

/// Day of the week, 0 being Thursday (the weekday of 1970-01-01).
pub open spec fn weekday_name(w: int) -> Seq<char> {
    if w == 0 {
        "Thu"@
    } else if w == 1 {
        "Fri"@
    } else if w == 2 {
        "Sat"@
    } else if w == 3 {
        "Sun"@
    } else if w == 4 {
        "Mon"@
    } else if w == 5 {
        "Tue"@
    } else {
        "Wed"@
    }
}

pub open spec fn month_name(m: int) -> Seq<char> {
    if m == 1 {
        "Jan"@
    } else if m == 2 {
        "Feb"@
    } else if m == 3 {
        "Mar"@
    } else if m == 4 {
        "Apr"@
    } else if m == 5 {
        "May"@
    } else if m == 6 {
        "Jun"@
    } else if m == 7 {
        "Jul"@
    } else if m == 8 {
        "Aug"@
    } else if m == 9 {
        "Sep"@
    } else if m == 10 {
        "Oct"@
    } else if m == 11 {
        "Nov"@
    } else {
        "Dec"@
    }
}

pub open spec fn digit(n: int) -> u8 {
    (48 + n % 10) as u8
}

pub open spec fn two_digits(n: int) -> Seq<u8> {
    seq![digit(n / 10), digit(n)]
}

pub open spec fn four_digits(n: int) -> Seq<u8> {
    seq![digit(n / 1000), digit(n / 100), digit(n / 10), digit(n)]
}

/// The HTTP date of the instant `secs` seconds after the epoch.
pub open spec fn http_date(secs: nat) -> Seq<u8> {
    let days = secs / 86400;
    let t = (secs % 86400) as int;
    let (y, doy) = year_and_day(days, 1970);
    let (m, d) = month_and_day(doy, y, 1);
    ascii(weekday_name(days as int % 7)) + ascii(", "@) + two_digits(d as int) + ascii(" "@)
        + ascii(month_name(m)) + ascii(" "@) + four_digits(y) + ascii(" "@) + two_digits(t / 3600)
        + ascii(":"@) + two_digits(t % 3600 / 60) + ascii(":"@) + two_digits(t % 60) + ascii(
        " GMT"@,
    )
}

fn is_leap(y: u64) -> (r: bool)
    ensures
        r == is_leap_year(y as int),
{
    y % 4 == 0 && (y % 100 != 0 || y % 400 == 0)
}

fn year_days(y: u64) -> (r: u64)
    ensures
        r == days_in_year(y as int),
{
    if is_leap(y) {
        366
    } else {
        365
    }
}

fn month_days(y: u64, m: u64) -> (r: u64)
    ensures
        r == days_in_month(y as int, m as int),
{
    if m == 2 {
        if is_leap(y) {
            29
        } else {
            28
        }
    } else if m == 4 || m == 6 || m == 9 || m == 11 {
        30
    } else {
        31
    }
}

fn push_two_digits(out: &mut Vec<u8>, n: u64)
    requires
        n < 100,
    ensures
        final(out)@ == old(out)@ + two_digits(n as int),
{
    out.push((48 + n / 10) as u8);
    out.push((48 + n % 10) as u8);
    assert(out@ =~= old(out)@ + two_digits(n as int));
}

fn push_four_digits(out: &mut Vec<u8>, n: u64)
    ensures
        final(out)@ == old(out)@ + four_digits(n as int),
{
    out.push((48 + n / 1000 % 10) as u8);
    out.push((48 + n / 100 % 10) as u8);
    out.push((48 + n / 10 % 10) as u8);
    out.push((48 + n % 10) as u8);
    assert(out@ =~= old(out)@ + four_digits(n as int));
}

fn weekday_str(w: u64) -> (r: &'static str)
    ensures
        r@ == weekday_name(w as int),
{
    if w == 0 {
        "Thu"
    } else if w == 1 {
        "Fri"
    } else if w == 2 {
        "Sat"
    } else if w == 3 {
        "Sun"
    } else if w == 4 {
        "Mon"
    } else if w == 5 {
        "Tue"
    } else {
        "Wed"
    }
}

fn month_str(m: u64) -> (r: &'static str)
    ensures
        r@ == month_name(m as int),
{
    if m == 1 {
        "Jan"
    } else if m == 2 {
        "Feb"
    } else if m == 3 {
        "Mar"
    } else if m == 4 {
        "Apr"
    } else if m == 5 {
        "May"
    } else if m == 6 {
        "Jun"
    } else if m == 7 {
        "Jul"
    } else if m == 8 {
        "Aug"
    } else if m == 9 {
        "Sep"
    } else if m == 10 {
        "Oct"
    } else if m == 11 {
        "Nov"
    } else {
        "Dec"
    }
}

/// Formats the instant `secs` seconds after the epoch as an HTTP date; `None`
/// from the year 10000 on, which the four-digit year cannot hold.
pub fn format_http_date(secs: u64) -> (r: Option<Vec<u8>>)
    ensures
        r.is_some() <==> secs < MAX_HTTP_DATE_SECS,
        r.is_some() ==> r.unwrap()@ == http_date(secs as nat),
{
    if secs >= MAX_HTTP_DATE_SECS {
        return None;
    }
    let days: u64 = secs / SECS_PER_DAY;
    let t: u64 = secs % SECS_PER_DAY;
    let mut year: u64 = 1970;
    let mut d: u64 = days;
    while d >= year_days(year)
        invariant
            d <= days,
            days < 3000000,
            1970 <= year <= 1970 + (days - d),
            year_and_day(days as nat, 1970) == year_and_day(d as nat, year as int),
        decreases d,
    {
        d = d - year_days(year);
        year = year + 1;
    }
    let ghost doy = d as nat;
    proof {
        lemma_months_fill_year(year as int);
    }
    let mut month: u64 = 1;
    while month < 12 && d >= month_days(year, month)
        invariant
            1 <= month <= 12,
            d < days_from_month(year as int, month as int),
            month_and_day(doy, year as int, 1) == month_and_day(d as nat, year as int, month as int),
        decreases 12 - month,
    {
        d = d - month_days(year, month);
        month = month + 1;
    }
    let ghost ym = year_and_day(days as nat, 1970);
    let ghost md = month_and_day(doy, year as int, 1);
    assert(ym == (year as int, doy));
    assert(md == (month as int, (d + 1) as nat));
    assert(d < 31) by {
        if month == 12 {
            assert(days_from_month(year as int, 13) == 0);
        }
    }
    let mut out: Vec<u8> = Vec::new();
    push_ascii(&mut out, weekday_str(days % 7));
    push_ascii(&mut out, ", ");
    push_two_digits(&mut out, d + 1);
    push_ascii(&mut out, " ");
    push_ascii(&mut out, month_str(month));
    push_ascii(&mut out, " ");
    push_four_digits(&mut out, year);
    push_ascii(&mut out, " ");
    push_two_digits(&mut out, t / 3600);
    push_ascii(&mut out, ":");
    push_two_digits(&mut out, t % 3600 / 60);
    push_ascii(&mut out, ":");
    push_two_digits(&mut out, t % 60);
    push_ascii(&mut out, " GMT");
    assert(out@ =~= http_date(secs as nat));
    Some(out)
}

#[verifier::external_type_specification]
#[verifier::external_body]
pub struct ExSystemTime(std::time::SystemTime);

#[verifier::external_type_specification]
#[verifier::external_body]
pub struct ExSystemTimeError(std::time::SystemTimeError);

/// Relies on `SystemTime::now`: the wall-clock time. Nothing is assumed of its value.
pub assume_specification[ std::time::SystemTime::now ]() -> std::time::SystemTime;

/// Relies on `Duration::as_secs`: the whole seconds of a duration. Nothing is
/// assumed of its value.
pub assume_specification[ core::time::Duration::as_secs ](d: &core::time::Duration) -> u64;

/// Relies on `SystemTime::duration_since` with `UNIX_EPOCH`: the time elapsed
/// since the epoch, or an error where `t` is earlier. Nothing is assumed of it.
#[verifier::external_body]
fn elapsed_since_epoch(t: &std::time::SystemTime) -> Result<
    core::time::Duration,
    std::time::SystemTimeError,
> {
    t.duration_since(std::time::UNIX_EPOCH)
}

/// The wall-clock time in whole seconds since the epoch; `None` where the
/// clock reads earlier than the epoch.
pub fn unix_time_now() -> (r: Option<u64>) {
    let now = std::time::SystemTime::now();
    match elapsed_since_epoch(&now) {
        Ok(d) => Some(d.as_secs()),
        Err(_) => None,
    }
}

} // verus!
