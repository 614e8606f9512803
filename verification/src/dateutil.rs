//! Proleptic Gregorian calendar arithmetic on day counts since 1970-01-01.
use vstd::prelude::*;
use crate::strutil::{chars_of, fmt_int, parse_i64, parse_int, push_int, split_chars, split_on, string_from_chars};

verus! {

/// Integer division rounding toward zero, as Rust's `/` does on signed integers.
pub open spec fn trunc_div(a: int, b: int) -> int
    recommends
        b > 0,
{
    if a >= 0 {
        a / b
    } else {
        -((-a) / b)
    }
}

/// Number of days from 1970-01-01 to the date `(y, m, d)`, for any integers
/// (months outside 1..=12 and days outside the month are extrapolated linearly,
/// as the closed formula does).
pub open spec fn spec_days_from_civil(y: int, m: int, d: int) -> int {
    let yy = if m <= 2 { y - 1 } else { y };
    let mp = if m > 2 { m - 3 } else { m + 9 };
    365 * yy + yy / 4 - yy / 100 + yy / 400 + trunc_div(153 * mp + 2, 5) + d - 1 - 719468
}

/// Splitting a year count into 400-year eras leaves the leap-day count unchanged.
proof fn lemma_era_split(yy: int, era: int, yoe: int)
    requires
        yy == era * 400 + yoe,
        0 <= yoe < 400,
    ensures
        365 * yy + yy / 4 - yy / 100 + yy / 400 == era * 146097 + 365 * yoe + yoe / 4 - yoe / 100,
{
    assert((era * 400 + yoe) / 4 == era * 100 + yoe / 4);
    assert((era * 400 + yoe) / 100 == era * 4 + yoe / 100);
    assert((era * 400 + yoe) / 400 == era);
}

pub fn days_from_civil(y: i64, m: i64, d: i64) -> (r: i64)
    requires
        -0x4_0000_0000_0000 <= y <= 0x4_0000_0000_0000,
        -0x4_0000_0000_0000 <= m <= 0x4_0000_0000_0000,
        -0x4_0000_0000_0000 <= d <= 0x4_0000_0000_0000,
    ensures
        r == spec_days_from_civil(y as int, m as int, d as int),
{
    let y = if m <= 2 { y - 1 } else { y };
    let era = if y >= 0 { y } else { y - 399 } / 400;
    assert(era == (y as int) / 400);
    let yoe = y - era * 400;
    assert(0 <= yoe < 400);
    let mp = if m > 2 { m - 3 } else { m + 9 };
    let doy = (153 * mp + 2) / 5 + d - 1;
    let doe = yoe * 365 + yoe / 4 - yoe / 100 + doy;
    proof {
        lemma_era_split(y as int, era as int, yoe as int);
    }
    era * 146097 + doe - 719468
}

/// Whether `y` is a leap year of the proleptic Gregorian calendar.
pub open spec fn is_leap_year(y: int) -> bool {
    (y % 4 == 0 && y % 100 != 0) || y % 400 == 0
}

/// Number of days in month `m` (1..=12) of year `y`.
pub open spec fn days_in_month(y: int, m: int) -> int {
    if m == 2 {
        if is_leap_year(y) {
            29
        } else {
            28
        }
    } else if m == 4 || m == 6 || m == 9 || m == 11 {
        30
    } else {
        31
    }
}

/// Whether `(y, m, d)` names a real calendar date.
pub open spec fn is_valid_date(y: int, m: int, d: int) -> bool {
    1 <= m <= 12 && 1 <= d <= days_in_month(y, m)
}

/// Days before March 1st of year `k` of a 400-year era (years counted from March).
spec fn era_year_start(k: int) -> int {
    365 * k + k / 4 - k / 100
}

#[verifier::rlimit(60)]
proof fn lemma_year_of_era(doe: int)
    requires
        0 <= doe <= 146096,
    ensures
        ({
            let yoe = (doe - doe / 1460 + doe / 36524 - doe / 146096) / 365;
            let doy = doe - era_year_start(yoe);
            &&& 0 <= yoe <= 399
            &&& 0 <= doy <= 365
            &&& doy == 365 ==> is_leap_year(yoe + 1)
        }),
{
}

proof fn lemma_month_of_year(doy: int)
    requires
        0 <= doy <= 365,
    ensures
        ({
            let mp = (5 * doy + 2) / 153;
            let d = doy - (153 * mp + 2) / 5 + 1;
            &&& 0 <= mp <= 11
            &&& 1 <= d
            &&& mp != 11 ==> d <= days_in_month(1, if mp < 10 { mp + 3 } else { mp - 9 })
            &&& mp == 11 ==> d <= 28 || (d == 29 && doy == 365)
        }),
{
}

proof fn lemma_leap_era(k: int, e: int)
    ensures
        is_leap_year(k + e * 400) == is_leap_year(k),
{
    assert((k + e * 400) % 4 == k % 4);
    assert((k + e * 400) % 100 == k % 100);
    assert((k + e * 400) % 400 == k % 400);
}

/// The date of the day `doy` days after March 1st of the year `y_march`
/// (years counted from March), as a calendar `(year, month, day)`.
spec fn march_date(y_march: int, doy: int) -> (int, int, int) {
    let mp = (5 * doy + 2) / 153;
    let d = doy - (153 * mp + 2) / 5 + 1;
    let m = if mp < 10 { mp + 3 } else { mp - 9 };
    (if m <= 2 { y_march + 1 } else { y_march }, m, d)
}

proof fn lemma_march_date(era: int, yoe: int, doy: int)
    requires
        0 <= yoe <= 399,
        0 <= doy <= 365,
        doy == 365 ==> is_leap_year(yoe + 1),
    ensures
        ({
            let r = march_date(yoe + era * 400, doy);
            &&& is_valid_date(r.0, r.1, r.2)
            &&& spec_days_from_civil(r.0, r.1, r.2) == era * 146097 + era_year_start(yoe) + doy - 719468
        }),
{
    lemma_month_of_year(doy);
    lemma_era_split(yoe + era * 400, era, yoe);
    lemma_leap_era(yoe + 1, era);
    let r = march_date(yoe + era * 400, doy);
    let mp = (5 * doy + 2) / 153;
    assert(r.1 > 2 ==> r.1 - 3 == mp);
    assert(r.1 <= 2 ==> r.1 + 9 == mp);
    assert(trunc_div(153 * mp + 2, 5) == (153 * mp + 2) / 5);
}

/// The year of a real date is bounded by its day count: about one year per
/// 365 days on either side of 1970.
proof fn lemma_year_bound(y: int, m: int, d: int, b: int)
    requires
        is_valid_date(y, m, d),
        0 <= b,
        -b <= spec_days_from_civil(y, m, d) <= b,
    ensures
        -(b / 365) - 2000 <= y <= b / 365 + 2000,
{
    let yy = if m <= 2 { y - 1 } else { y };
    let mp = if m > 2 { m - 3 } else { m + 9 };
    assert(0 <= mp <= 11);
    assert(0 <= 153 * mp + 2 <= 1685);
    assert(trunc_div(153 * mp + 2, 5) == (153 * mp + 2) / 5);
    let t = (153 * mp + 2) / 5;
    assert(0 <= t <= 337);
    assert(1 <= d <= 31);
    let f = 365 * yy + yy / 4 - yy / 100 + yy / 400;
    assert(spec_days_from_civil(y, m, d) == f + t + d - 1 - 719468);
    if yy >= 0 {
        assert(yy / 4 >= yy / 100);
        assert(yy / 400 >= 0);
        assert(f >= 365 * yy);
        assert(365 * yy <= b + 719468);
        assert(yy <= b / 365 + 1972);
    } else {
        assert(yy / 4 <= yy / 100);
        assert(yy / 400 < 0);
        assert(f <= 365 * yy);
        assert(365 * yy >= -b + 719468 - 367);
        assert(yy >= -(b / 365) - 1);
    }
}

/// The real calendar date whose day count is `n`.
pub open spec fn date_of_day(n: int) -> (int, int, int) {
    choose|t: (int, int, int)| is_valid_date(t.0, t.1, t.2) && spec_days_from_civil(t.0, t.1, t.2) == n
}

/// The Gregorian date `days` days after 1970-01-01 (negative counts go back in time).
pub fn civil_from_days(days: i64) -> (r: (i64, i64, i64))
    requires
        days <= i64::MAX - 719468,
    ensures
        is_valid_date(r.0 as int, r.1 as int, r.2 as int),
        spec_days_from_civil(r.0 as int, r.1 as int, r.2 as int) == days,
        (r.0 as int, r.1 as int, r.2 as int) == date_of_day(days as int),
        ({
            let b = if days < 0 { -days } else { days as int };
            -(b / 365) - 2000 <= r.0 <= b / 365 + 2000
        }),
{
    let z = days + 719468;
    let era = if z >= 0 { z } else { z - 146096 } / 146097;
    assert(era == (z as int) / 146097);
    let doe = z - era * 146097;
    let yoe = (doe - doe / 1460 + doe / 36524 - doe / 146096) / 365;
    proof {
        lemma_year_of_era(doe as int);
    }
    let y = yoe + era * 400;
    let doy = doe - (365 * yoe + yoe / 4 - yoe / 100);
    proof {
        lemma_month_of_year(doy as int);
    }
    let mp = (5 * doy + 2) / 153;
    let d = doy - (153 * mp + 2) / 5 + 1;
    let m = if mp < 10 { mp + 3 } else { mp - 9 };
    let y = if m <= 2 { y + 1 } else { y };
    proof {
        lemma_march_date(era as int, yoe as int, doy as int);
        assert((y as int, m as int, d as int) == march_date(yoe + era * 400, doy as int));
        let t = (y as int, m as int, d as int);
        assert(is_valid_date(t.0, t.1, t.2) && spec_days_from_civil(t.0, t.1, t.2) == days);
        let c = date_of_day(days as int);
        law_day_count_identifies_date(t.0, t.1, t.2, c.0, c.1, c.2);
        lemma_year_bound(t.0, t.1, t.2, if days < 0 { -days } else { days as int });
    }
    (y, m, d)
}

#[verifier::rlimit(60)]
proof fn lemma_year_of_era_inverse(yoe: int, doy: int)
    requires
        0 <= yoe <= 399,
        0 <= doy <= 364,
    ensures
        ({
            let doe = era_year_start(yoe) + doy;
            (doe - doe / 1460 + doe / 36524 - doe / 146096) / 365 == yoe
        }),
{
    let doe = era_year_start(yoe) + doy;
    let q = yoe / 4;
    let r = yoe % 4;
    let c = yoe / 100;
    assert(yoe == 4 * q + r);
    assert(doe / 1460 == q || doe / 1460 == q + 1);
    if yoe < 100 {
        assert(doe / 36524 == 0);
    } else if yoe < 200 {
        assert(doe / 36524 == 1);
    } else if yoe < 300 {
        assert(doe / 36524 == 2);
    } else {
        assert(doe / 36524 == 3);
    }
}

proof fn lemma_year_of_era_inverse_leap_day(yoe: int)
    requires
        0 <= yoe <= 399,
        is_leap_year(yoe + 1),
    ensures
        ({
            let doe = era_year_start(yoe) + 365;
            (doe - doe / 1460 + doe / 36524 - doe / 146096) / 365 == yoe
        }),
{
}

proof fn lemma_month_of_year_inverse(m: int, d: int, leap: bool)
    requires
        1 <= m <= 12,
        1 <= d <= (if m == 2 { if leap { 29int } else { 28int } } else { days_in_month(1, m) }),
    ensures
        ({
            let mp = if m > 2 { m - 3 } else { m + 9 };
            let doy = (153 * mp + 2) / 5 + d - 1;
            &&& 0 <= doy <= 365
            &&& doy == 365 ==> m == 2 && d == 29
            &&& (5 * doy + 2) / 153 == mp
        }),
{
}

/// The calendar date of a day count, by the era/year/month decomposition.
spec fn spec_civil_from_days(n: int) -> (int, int, int) {
    let z = n + 719468;
    let era = z / 146097;
    let doe = z - era * 146097;
    let yoe = (doe - doe / 1460 + doe / 36524 - doe / 146096) / 365;
    march_date(yoe + era * 400, doe - era_year_start(yoe))
}

proof fn lemma_civil_of_days(y: int, m: int, d: int)
    requires
        is_valid_date(y, m, d),
    ensures
        spec_civil_from_days(spec_days_from_civil(y, m, d)) == (y, m, d),
{
    let yy = if m <= 2 { y - 1 } else { y };
    let era = yy / 400;
    let yoe = yy - era * 400;
    let mp = if m > 2 { m - 3 } else { m + 9 };
    let doy = (153 * mp + 2) / 5 + d - 1;
    lemma_leap_era(yoe + 1, era);
    assert(m <= 2 ==> is_leap_year(y) == is_leap_year(yoe + 1)) by {
        assert(m <= 2 ==> y == yoe + 1 + era * 400);
    }
    lemma_month_of_year_inverse(m, d, is_leap_year(y));
    lemma_era_split(yy, era, yoe);
    assert(trunc_div(153 * mp + 2, 5) == (153 * mp + 2) / 5);
    if doy <= 364 {
        lemma_year_of_era_inverse(yoe, doy);
    } else {
        lemma_year_of_era_inverse_leap_day(yoe);
    }
    let z = spec_days_from_civil(y, m, d) + 719468;
    assert(z == era * 146097 + era_year_start(yoe) + doy);
    assert(z / 146097 == era);
}

/// Two real calendar dates with the same day count are the same date: the
/// day count is a faithful numbering of the calendar, so `civil_from_days`
/// gives back every date that `days_from_civil` numbered.
pub proof fn law_day_count_identifies_date(y1: int, m1: int, d1: int, y2: int, m2: int, d2: int)
    requires
        is_valid_date(y1, m1, d1),
        is_valid_date(y2, m2, d2),
        spec_days_from_civil(y1, m1, d1) == spec_days_from_civil(y2, m2, d2),
    ensures
        y1 == y2 && m1 == m2 && d1 == d2,
{
    lemma_civil_of_days(y1, m1, d1);
    lemma_civil_of_days(y2, m2, d2);
}

/// `YYYY-MM-DD` as `format!("{y:04}-{m:02}-{d:02}")` writes it.
pub open spec fn iso_date_text(y: int, m: int, d: int) -> Seq<char> {
    fmt_int(y, 4) + seq!['-'] + fmt_int(m, 2) + seq!['-'] + fmt_int(d, 2)
}

/// The date `days` days after 1970-01-01 as `YYYY-MM-DD`.
pub fn format_civil(days: i64) -> (s: String)
    requires
        days <= i64::MAX - 719468,
    ensures
        s@ == iso_date_text(date_of_day(days as int).0, date_of_day(days as int).1, date_of_day(days as int).2),
{
    let (y, m, d) = civil_from_days(days);
    let mut out: Vec<char> = Vec::new();
    push_int(&mut out, y, 4);
    out.push('-');
    push_int(&mut out, m, 2);
    out.push('-');
    push_int(&mut out, d, 2);
    string_from_chars(&out)
}

/// A `u64` read back as the `i64` with the same bits.
pub open spec fn wrapped_i64(u: u64) -> int {
    if u <= i64::MAX {
        u as int
    } else {
        u - 0x1_0000_0000_0000_0000
    }
}

/// KST (UTC+9) day number of the instant `utc_secs` seconds after the epoch
/// (days before 1970 are negative).
pub fn kst_day_number(utc_secs: i64) -> (r: i64)
    requires
        utc_secs <= i64::MAX - 32400,
    ensures
        r == (utc_secs + 32400) / 86400,
{
    let x = utc_secs + 32400;
    if x >= 0 {
        x / 86400
    } else {
        let q = (-(x + 1)) / 86400;
        assert(x as int / 86400 == -q - 1);
        -q - 1
    }
}

/// KST (UTC+9) day number of the instant `utc_secs` seconds after the epoch;
/// the seconds are read with the bits of an `i64`, so that a count before
/// 1970 passed through `u64` comes back negative.
pub fn kst_days(utc_secs: u64) -> (r: i64)
    requires
        wrapped_i64(utc_secs) <= i64::MAX - 32400,
    ensures
        r == (wrapped_i64(utc_secs) + 32400) / 86400,
{
    let x: i64 = if utc_secs <= i64::MAX as u64 {
        utc_secs as i64
    } else {
        -((u64::MAX - utc_secs) as i64) - 1
    };
    kst_day_number(x)
}

/// Seconds since midnight of an `HH:MM[:SS]` clock reading, as Rust's `split(':')`
/// and `parse::<i64>` read it: hour, minute and (default "0") second fields,
/// further fields ignored, each in its range.
pub open spec fn spec_parse_hms(s: Seq<char>) -> Option<int> {
    let parts = split_on(s, ':');
    if parts.len() < 2 {
        None
    } else {
        let h = parse_int(parts[0], true, i64::MIN as int, i64::MAX as int);
        let m = parse_int(parts[1], true, i64::MIN as int, i64::MAX as int);
        let sec = parse_int(
            if parts.len() >= 3 { parts[2] } else { seq!['0'] },
            true,
            i64::MIN as int,
            i64::MAX as int,
        );
        match (h, m, sec) {
            (Some(h), Some(m), Some(sec)) => if 0 <= h < 24 && 0 <= m < 60 && 0 <= sec < 60 {
                Some(h * 3600 + m * 60 + sec)
            } else {
                None
            },
            _ => None,
        }
    }
}

pub fn parse_hms_secs(hms: &str) -> (r: Option<i64>)
    ensures
        match spec_parse_hms(hms@) {
            Some(v) => r == Some(v as i64),
            None => r is None,
        },
{
    let cs = chars_of(hms);
    let parts = split_chars(&cs, ':');
    if parts.len() < 2 {
        return None;
    }
    let h = parse_i64(&parts[0]);
    let m = parse_i64(&parts[1]);
    let zero = vec!['0'];
    assert(zero@ == seq!['0']);
    assert(parts[0]@ == split_on(hms@, ':')[0]);
    assert(parts[1]@ == split_on(hms@, ':')[1]);
    let sec = if parts.len() >= 3 { parse_i64(&parts[2]) } else { parse_i64(&zero) };
    match (h, m, sec) {
        (Some(h), Some(m), Some(sec)) => {
            if 0 <= h && h < 24 && 0 <= m && m < 60 && 0 <= sec && sec < 60 {
                Some(h * 3600 + m * 60 + sec)
            } else {
                None
            }
        },
        _ => None,
    }
}

} // verus!
