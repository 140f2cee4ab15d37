//! Gregorian calendar dates from day counts, and the UTC timestamps that
//! screenshots are named after.

use vstd::prelude::*;

use vstd::arithmetic::div_mod::lemma_fundamental_div_mod_converse;

use crate::clock::unix_now;
use crate::fmt::{padded, push_padded, string_push};

verus! {

pub open spec fn is_leap(y: int) -> bool {
    y % 4 == 0 && (y % 100 != 0 || y % 400 == 0)
}

pub open spec fn days_in_month(y: int, m: int) -> int {
    if m == 2 {
        if is_leap(y) { 29 } else { 28 }
    } else if m == 4 || m == 6 || m == 9 || m == 11 {
        30
    } else {
        31
    }
}

/// Leap years in 1..=x (counted the same way for years before 1).
pub open spec fn leaps_through(x: int) -> int {
    x / 4 - x / 100 + x / 400
}

/// Days from 1970-01-01 to January 1st of year `y`.
pub open spec fn days_before_year(y: int) -> int {
    365 * (y - 1970) + leaps_through(y - 1) - leaps_through(1969)
}

/// Days from January 1st to the first of month `m` in year `y`.
pub open spec fn days_before_month(y: int, m: int) -> int {
    let base: int = if m == 1 {
        0
    } else if m == 2 {
        31
    } else if m == 3 {
        59
    } else if m == 4 {
        90
    } else if m == 5 {
        120
    } else if m == 6 {
        151
    } else if m == 7 {
        181
    } else if m == 8 {
        212
    } else if m == 9 {
        243
    } else if m == 10 {
        273
    } else if m == 11 {
        304
    } else {
        334
    };
    base + if m > 2 && is_leap(y) { 1int } else { 0int }
}

/// Days since 1970-01-01 of the date `y`-`m`-`d`.
pub open spec fn days_from_civil(y: int, m: int, d: int) -> int {
    days_before_year(y) + days_before_month(y, m) + d - 1
}

/// `(y, m, d)` is a calendar date.
pub open spec fn valid_date(y: int, m: int, d: int) -> bool {
    1 <= m <= 12 && 1 <= d <= days_in_month(y, m)
}

/// Start of the March-based year `yoe` of a 400-year era, in days.
pub open spec fn year_start_in_era(yoe: int) -> int {
    365 * yoe + yoe / 4 - yoe / 100
}

/// Hinnant's year-of-era estimate for day `doe` of an era.
pub open spec fn year_of_era(doe: int) -> int {
    (doe - doe / 1460 + doe / 36_524 - doe / 146_096) / 365
}

/// Within an era, the year estimate picks the year that contains the day.
#[verifier::rlimit(100)]
proof fn lemma_year_of_era(doe: int)
    requires
        0 <= doe <= 146_096,
    ensures
        0 <= year_of_era(doe) <= 399,
        year_start_in_era(year_of_era(doe)) <= doe,
        doe < year_start_in_era(year_of_era(doe) + 1) + (if year_of_era(doe) == 399 {
            1int
        } else {
            0int
        }),
{
}

/// Length of month `mp` of a March-based year (0 = March, 11 = February).
pub open spec fn march_month_len(mp: int, leap: bool) -> int {
    if mp == 11 {
        if leap { 29 } else { 28 }
    } else if mp == 1 || mp == 3 || mp == 6 || mp == 8 {
        30
    } else {
        31
    }
}

/// Within a March-based year, the month estimate picks the month that
/// contains the day.
#[verifier::rlimit(100)]
proof fn lemma_month_of_year(doy: int, leap: bool)
    requires
        0 <= doy < 365 + (if leap { 1int } else { 0int }),
    ensures
        0 <= (5 * doy + 2) / 153 <= 11,
        1 <= doy - (153 * ((5 * doy + 2) / 153) + 2) / 5 + 1 <= march_month_len(
            (5 * doy + 2) / 153,
            leap,
        ),
{
}

proof fn lemma_leap_step(y: int)
    ensures
        leaps_through(y) - leaps_through(y - 1) == (if is_leap(y) { 1int } else { 0int }),
{
}

/// March 1st of year `y`, counted from 1970-01-01.
proof fn lemma_march_first(y: int)
    ensures
        days_before_year(y) + 59 + (if is_leap(y) { 1int } else { 0int }) == 365 * y + y / 4 - y
            / 100 + y / 400 - 719_468,
{
    lemma_leap_step(y);
}

#[verifier::rlimit(50)]
proof fn lemma_era_years(era: int, yoe: int)
    requires
        0 <= yoe < 400,
    ensures
        ({
            let y = era * 400 + yoe;
            365 * y + y / 4 - y / 100 + y / 400 == 146_097 * era + year_start_in_era(yoe)
        }),
        is_leap(era * 400 + yoe + 1) == ((yoe + 1) % 4 == 0 && ((yoe + 1) % 100 != 0 || (yoe
            + 1) % 400 == 0)),
{
    let y = era * 400 + yoe;
    lemma_fundamental_div_mod_converse(y, 4, era * 100 + yoe / 4, yoe % 4);
    lemma_fundamental_div_mod_converse(y, 100, era * 4 + yoe / 100, yoe % 100);
    lemma_fundamental_div_mod_converse(y, 400, era, yoe);
    let z = yoe + 1;
    lemma_fundamental_div_mod_converse(y + 1, 4, era * 100 + z / 4, z % 4);
    lemma_fundamental_div_mod_converse(y + 1, 100, era * 4 + z / 100, z % 100);
    lemma_fundamental_div_mod_converse(y + 1, 400, era + z / 400, z % 400);
}

/// Days since 1970-01-01 -> (year, month, day).
#[verifier::rlimit(100)]
pub fn civil_from_days(z: i64) -> (r: (i64, u32, u32))
    requires
        z <= i64::MAX - 719_468,
    ensures
        valid_date(r.0 as int, r.1 as int, r.2 as int),
        days_from_civil(r.0 as int, r.1 as int, r.2 as int) == z,
{
    let z0 = z;
    let z = z + 719_468;
    let era = if z >= 0 { z } else { z - 146_096 } / 146_097;
    assert(0 <= z - era * 146_097 <= 146_096);
    let doe = z - era * 146_097;
    proof {
        lemma_year_of_era(doe as int);
    }
    let yoe = (doe - doe / 1460 + doe / 36_524 - doe / 146_096) / 365;
    assert(yoe == year_of_era(doe as int));
    let y = yoe + era * 400;
    let doy = doe - (365 * yoe + yoe / 4 - yoe / 100);
    let ghost leap_next = is_leap(y + 1);
    proof {
        lemma_era_years(era as int, yoe as int);
        assert(0 <= doy < 365 + (if leap_next { 1int } else { 0int }));
        lemma_month_of_year(doy as int, leap_next);
    }
    let mp = (5 * doy + 2) / 153;
    let d = (doy - (153 * mp + 2) / 5 + 1) as u32;
    let m = if mp < 10 { mp + 3 } else { mp - 9 } as u32;
    proof {
        lemma_march_first(y as int);
        lemma_march_first(y + 1);
        lemma_leap_step(y + 1);
        assert(days_before_year(y as int) + 59 + (if is_leap(y as int) { 1int } else { 0int })
            == 146_097 * era + year_start_in_era(yoe as int) - 719_468);
    }
    (if m <= 2 { y + 1 } else { y }, m, d)
}


/// `YYYYMMDD-HHMMSS-mmm` for the instant `secs` seconds and `millis`
/// milliseconds after the epoch, in UTC.
pub open spec fn timestamp_text(y: int, m: int, d: int, secs: nat, millis: nat) -> Seq<char> {
    let rem = secs % 86_400;
    padded(y as nat, 4) + padded(m as nat, 2) + padded(d as nat, 2) + seq!['-'] + padded(
        rem / 3600,
        2,
    ) + padded((rem % 3600) / 60, 2) + padded(rem % 60, 2) + seq!['-'] + padded(millis, 3)
}

/// The timestamp text of a given instant.
pub fn utc_timestamp_at(secs: u64, millis: u32) -> (r: String)
    ensures
        exists|y: int, m: int, d: int|
            #![trigger timestamp_text(y, m, d, secs as nat, millis as nat)]
            {
                &&& valid_date(y, m, d)
                &&& days_from_civil(y, m, d) == secs / 86_400
                &&& y >= 1970
                &&& r@ == timestamp_text(y, m, d, secs as nat, millis as nat)
            },
{
    let days = (secs / 86_400) as i64;
    let rem = secs % 86_400;
    let (y, m, d) = civil_from_days(days);
    proof {
        if y < 1970 {
            assert(days_before_year(y as int) < 0);
            assert(days_from_civil(y as int, m as int, d as int) < 0);
        }
    }
    let mut s = String::new();
    push_padded(&mut s, y as u64, 4);
    push_padded(&mut s, m as u64, 2);
    push_padded(&mut s, d as u64, 2);
    string_push(&mut s, '-');
    push_padded(&mut s, rem / 3600, 2);
    push_padded(&mut s, (rem % 3600) / 60, 2);
    push_padded(&mut s, rem % 60, 2);
    string_push(&mut s, '-');
    push_padded(&mut s, millis as u64, 3);
    assert(s@ =~= timestamp_text(y as int, m as int, d as int, secs as nat, millis as nat));
    s
}

/// The current UTC time as `YYYYMMDD-HHMMSS-mmm`.
pub fn utc_timestamp() -> (r: String)
    ensures
        exists|secs: nat, millis: nat, y: int, m: int, d: int|
            #![trigger timestamp_text(y, m, d, secs, millis)]
            {
                &&& millis < 1000
                &&& valid_date(y, m, d)
                &&& days_from_civil(y, m, d) == secs / 86_400
                &&& r@ == timestamp_text(y, m, d, secs, millis)
            },
{
    let (secs, millis) = unix_now();
    utc_timestamp_at(secs, millis)
}

} // verus!
