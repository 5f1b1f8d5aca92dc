//! The Julian Day Converter: the bidirectional mapping between a civil
//! (day, month, year) triple and the integer Julian Day Number (JDN),
//! honouring the Julian-to-Gregorian reform at JDN 2299161 (15 Oct 1582).
//! Dates whose Gregorian-rule JDN falls before the reform are interpreted
//! under the Julian calendar rule, exactly as the classical formulas do.

use vstd::prelude::*;

verus! {

/// The auxiliary term `a` of the civil-to-JDN formula: 1 for January and
/// February (which count as months 13 and 14 of the shifted year), 0 for
/// the other months.
pub open spec fn month_term(month: int) -> int {
    (14 - month) / 12
}

/// The year shifted so that it is nonnegative and starts in March.
pub open spec fn shifted_year(year: int, month: int) -> int {
    year + 4800 - month_term(month)
}

/// The month mapped to 0 (March) through 11 (February).
pub open spec fn shifted_month(month: int) -> int {
    month + 12 * month_term(month) - 3
}

/// The JDN of a civil date under the Gregorian calendar rule.
pub open spec fn gregorian_jdn(day: int, month: int, year: int) -> int {
    let y = shifted_year(year, month);
    let m = shifted_month(month);
    day + (153 * m + 2) / 5 + 365 * y + y / 4 - y / 100 + y / 400 - 32045
}

/// The JDN of a civil date under the Julian calendar rule (no century
/// corrections, different epoch offset).
pub open spec fn julian_jdn(day: int, month: int, year: int) -> int {
    let y = shifted_year(year, month);
    let m = shifted_month(month);
    day + (153 * m + 2) / 5 + 365 * y + y / 4 - 32083
}

/// The JDN of a civil date: Gregorian rule on and after the reform day
/// (JDN 2299161, 15 Oct 1582), Julian rule before it.
pub open spec fn jdn_of(day: int, month: int, year: int) -> int {
    if gregorian_jdn(day, month, year) >= 2299161 {
        gregorian_jdn(day, month, year)
    } else {
        julian_jdn(day, month, year)
    }
}

/// The inverse decomposition: the civil (day, month, year) triple of a JDN,
/// with Gregorian-era century terms for JDNs after the reform boundary.
pub open spec fn civil_of(jd: int) -> (int, int, int) {
    let b = if jd > 2299160 { (4 * (jd + 32044) + 3) / 146097 } else { 0 };
    let c = if jd > 2299160 { jd + 32044 - (146097 * b) / 4 } else { jd + 32082 };
    let d = (4 * c + 3) / 1461;
    let e = c - (1461 * d) / 4;
    let m = (5 * e + 2) / 153;
    (e - (153 * m + 2) / 5 + 1, m + 3 - 12 * (m / 10), 100 * b + d - 4800 + m / 10)
}

/// The day component of `civil_of`.
pub open spec fn civil_day_of(jd: int) -> int {
    civil_of(jd).0
}

/// The month component of `civil_of`.
pub open spec fn civil_month_of(jd: int) -> int {
    civil_of(jd).1
}

/// The year component of `civil_of`.
pub open spec fn civil_year_of(jd: int) -> int {
    civil_of(jd).2
}

/// The inputs the conversion formulas accept: any month, a day that may
/// overflow the month's true length (the formulas absorb the overflow into
/// the following month), and a year within the machine-safe span.
pub open spec fn civil_in_range(day: int, month: int, year: int) -> bool {
    &&& 1 <= day <= 32
    &&& 1 <= month <= 12
    &&& -4712 <= year <= 1_700_000
}

/// The JDN span on which the converter is exercised; it keeps every
/// intermediate term of both formulas inside the machine integer range.
pub open spec fn jdn_in_range(jd: int) -> bool {
    1 <= jd <= 600_000_000
}

/// Civil date to JDN, by the standard formula: `a = (14 - month) / 12`,
/// `y = year + 4800 - a`, `m = month + 12a - 3`, then the day count with
/// Gregorian century corrections; if the result falls before the reform
/// day it is recomputed under the Julian rule.
pub fn to_julian_days(day: i32, month: i32, year: i32) -> (r: i32)
    requires
        civil_in_range(day as int, month as int, year as int),
    ensures
        r as int == jdn_of(day as int, month as int, year as int),
        0 <= r <= 630_000_000,
{
    let a: u64 = (14 - (month as u64)) / 12;
    let y: i64 = year as i64 + 4800 - a as i64;
    assert(87 <= y <= 1_704_800);
    let yu: u64 = y as u64;
    let m: u64 = (month as u64) + 12 * a - 3;
    assert(m == shifted_month(month as int));
    let t: i64 = ((153 * m + 2) / 5) as i64;
    let g: i64 = day as i64 + t + 365 * y + (yu / 4) as i64 - (yu / 100) as i64 + (yu / 400)
        as i64 - 32045;
    assert(g == gregorian_jdn(day as int, month as int, year as int));
    if g >= 2299161 {
        g as i32
    } else {
        assert(a == 1 ==> m >= 10 && t >= 306);
        let j: i64 = day as i64 + t + 365 * y + (yu / 4) as i64 - 32083;
        assert(j == julian_jdn(day as int, month as int, year as int));
        assert(j >= 0);
        j as i32
    }
}

/// JDN to civil date, by the standard decomposition chain; JDNs after the
/// reform boundary use the Gregorian-era century terms `b` and `c`.
pub fn from_julian_days(jd: i32) -> (r: crate::Day)
    requires
        jdn_in_range(jd as int),
    ensures
        r.day as int == civil_day_of(jd as int),
        r.month as int == civil_month_of(jd as int),
        r.year as int == civil_year_of(jd as int),
        1 <= r.day <= 31,
        1 <= r.month <= 12,
        -4712 <= r.year <= 1_650_000,
{
    let j: u64 = jd as u64;
    let mut b: u64 = 0;
    let mut c: u64 = 0;
    if j > 2299160 {
        let a: u64 = j + 32044;
        b = (4 * a + 3) / 146097;
        assert(146097 * b <= 4 * a + 3) by {
            vstd::arithmetic::div_mod::lemma_fundamental_div_mod((4 * a + 3) as int, 146097);
        };
        assert((146097 * b) / 4 <= a) by {
            vstd::arithmetic::div_mod::lemma_fundamental_div_mod((146097 * b) as int, 4);
        };
        c = a - (146097 * b) / 4;
    } else {
        c = j + 32082;
    }
    let d: u64 = (4 * c + 3) / 1461;
    assert(1461 * d <= 4 * c + 3) by {
        vstd::arithmetic::div_mod::lemma_fundamental_div_mod((4 * c + 3) as int, 1461);
    };
    assert((1461 * d) / 4 <= c && 4 * ((1461 * d) / 4) + 3 >= 1461 * d) by {
        vstd::arithmetic::div_mod::lemma_fundamental_div_mod((1461 * d) as int, 4);
    };
    let e: u64 = c - (1461 * d) / 4;
    assert(4 * e <= 4 * c + 3 - 1461 * d < 1461) by {
        vstd::arithmetic::div_mod::lemma_fundamental_div_mod((4 * c + 3) as int, 1461);
        vstd::arithmetic::div_mod::lemma_fundamental_div_mod((1461 * d) as int, 4);
    };
    assert(e <= 365);
    let m: u64 = (5 * e + 2) / 153;
    assert(m <= 11) by {
        vstd::arithmetic::div_mod::lemma_fundamental_div_mod((5 * e + 2) as int, 153);
    };
    assert(153 * m <= 5 * e + 2 && 5 * e + 2 < 153 * m + 153) by {
        vstd::arithmetic::div_mod::lemma_fundamental_div_mod((5 * e + 2) as int, 153);
    };
    let t: u64 = (153 * m + 2) / 5;
    assert(5 * t <= 153 * m + 2 && 153 * m + 2 < 5 * t + 5) by {
        vstd::arithmetic::div_mod::lemma_fundamental_div_mod((153 * m + 2) as int, 5);
    };
    assert(t <= e && e + 1 - t <= 31);
    let day: u64 = e - t + 1;
    assert(m / 10 == 0 || m / 10 == 1) by {
        vstd::arithmetic::div_mod::lemma_fundamental_div_mod(m as int, 10);
    };
    assert(m >= 10 ==> m / 10 == 1) by {
        vstd::arithmetic::div_mod::lemma_fundamental_div_mod(m as int, 10);
    };
    assert(m < 10 ==> m / 10 == 0) by {
        vstd::arithmetic::div_mod::lemma_fundamental_div_mod(m as int, 10);
    };
    let month: u64 = m + 3 - 12 * (m / 10);
    assert(1 <= month <= 12);
    assert(b <= 16500 && d <= 1_643_000) by {
        vstd::arithmetic::div_mod::lemma_fundamental_div_mod((4 * c + 3) as int, 1461);
        vstd::arithmetic::div_mod::lemma_fundamental_div_mod((4 * (j + 32044) + 3) as int, 146097);
    };
    let year: i64 = (100 * b + d + m / 10) as i64 - 4800;
    assert(-4712 <= year <= 1_650_000) by {
        vstd::arithmetic::div_mod::lemma_fundamental_div_mod((4 * c + 3) as int, 1461);
        vstd::arithmetic::div_mod::lemma_fundamental_div_mod((4 * (j + 32044) + 3) as int, 146097);
        vstd::arithmetic::div_mod::lemma_fundamental_div_mod((146097 * b) as int, 4);
    };
    crate::Day { day: day as i32, month: month as i32, year: year as i32 }
}

} // verus!

verus! {

/// The two defining facts of one Euclidean division, packaged so that the
/// round-trip proofs below can reason about each quotient linearly.
proof fn lemma_div_parts(x: int, k: int)
    requires
        k > 0,
    ensures
        x == k * (x / k) + (x % k),
        0 <= x % k < k,
{
    vstd::arithmetic::div_mod::lemma_fundamental_div_mod(x, k);
    vstd::arithmetic::div_mod::lemma_mod_division_less_than_divisor(x, k);
}

/// Round trip from the day count: decomposing a JDN into a civil date and
/// converting that date back yields the same JDN, for every positive JDN on
/// either side of the calendar reform.
#[verifier::rlimit(100)]
pub proof fn lemma_jdn_round_trip(jd: int)
    requires
        1 <= jd,
    ensures
        jdn_of(civil_day_of(jd), civil_month_of(jd), civil_year_of(jd)) == jd,
        1 <= civil_day_of(jd) <= 31,
        1 <= civil_month_of(jd) <= 12,
        -4712 <= civil_year_of(jd),
{
    let b = if jd > 2299160 { (4 * (jd + 32044) + 3) / 146097 } else { 0 };
    let c = if jd > 2299160 { jd + 32044 - (146097 * b) / 4 } else { jd + 32082 };
    let d = (4 * c + 3) / 1461;
    let e = c - (1461 * d) / 4;
    let m = (5 * e + 2) / 153;
    let day = e - (153 * m + 2) / 5 + 1;
    let month = m + 3 - 12 * (m / 10);
    let year = 100 * b + d - 4800 + m / 10;

    lemma_div_parts(4 * c + 3, 1461);
    lemma_div_parts(1461 * d, 4);
    assert(0 <= e <= 365);
    lemma_div_parts(5 * e + 2, 153);
    assert(0 <= m <= 11);
    lemma_div_parts(153 * m + 2, 5);
    assert(1 <= day <= 31);
    lemma_div_parts(m, 10);
    assert(1 <= month <= 12);
    lemma_div_parts(14 - month, 12);
    assert(month_term(month) == m / 10);
    assert(shifted_month(month) == m);
    assert(shifted_year(year, month) == 100 * b + d);

    if jd > 2299160 {
        let a0 = jd + 32044;
        lemma_div_parts(4 * a0 + 3, 146097);
        lemma_div_parts(146097 * b, 4);
        assert(0 <= c <= 36524);
        assert(0 <= d <= 99);
        lemma_div_parts(b, 4);
        lemma_div_parts(d, 4);
        let yn = 100 * b + d;
        vstd::arithmetic::div_mod::lemma_fundamental_div_mod_converse(
            yn, 4, 25 * b + d / 4, d % 4);
        vstd::arithmetic::div_mod::lemma_fundamental_div_mod_converse(yn, 100, b, d);
        vstd::arithmetic::div_mod::lemma_fundamental_div_mod_converse(
            yn, 400, b / 4, 100 * (b % 4) + d);
        assert(gregorian_jdn(day, month, year) == jd);
    } else {
        lemma_div_parts(d, 4);
        lemma_div_parts(d, 100);
        lemma_div_parts(d, 400);
        assert(julian_jdn(day, month, year) == jd);
        assert(gregorian_jdn(day, month, year) == jd + 38 - d / 100 + d / 400);
        assert(d / 100 - d / 400 >= 0);
        if jd >= 2299123 {
            assert(d == 6382);
            assert(d / 100 == 63 && d / 400 == 15);
        }
        assert(gregorian_jdn(day, month, year) < 2299161);
    }
}

} // verus!

verus! {

/// The Gregorian leap-year rule: every fourth year, except centuries that
/// are not multiples of 400.
pub open spec fn is_leap_year(year: int) -> bool {
    year % 4 == 0 && (year % 100 != 0 || year % 400 == 0)
}

/// The true length of a Gregorian month.
pub open spec fn days_in_month(month: int, year: int) -> int {
    if month == 2 {
        if is_leap_year(year) {
            29
        } else {
            28
        }
    } else if month == 4 || month == 6 || month == 9 || month == 11 {
        30
    } else {
        31
    }
}

/// A civil date that really exists under the Gregorian rule, in the era
/// after the calendar reform.
pub open spec fn valid_gregorian(day: int, month: int, year: int) -> bool {
    &&& 1 <= month <= 12
    &&& 1 <= day <= days_in_month(month, year)
    &&& 1583 <= year
}

/// Round trip from a civil date: every date that exists under the
/// Gregorian rule converts to a JDN and decomposes back to the same
/// (day, month, year) triple.
#[verifier::rlimit(100)]
pub proof fn lemma_civil_round_trip(day: int, month: int, year: int)
    requires
        valid_gregorian(day, month, year),
    ensures
        jdn_of(day, month, year) == gregorian_jdn(day, month, year),
        gregorian_jdn(day, month, year) >= 2299161,
        civil_of(jdn_of(day, month, year)) == (day, month, year),
{
    lemma_div_parts(14 - month, 12);
    let a = month_term(month);
    assert(a == if month <= 2 { 1int } else { 0int });
    let yp = shifted_year(year, month);
    let mp = shifted_month(month);
    assert(0 <= mp <= 11);
    assert(yp >= 6382);
    lemma_div_parts(153 * mp + 2, 5);
    let t = (153 * mp + 2) / 5;
    lemma_div_parts(yp, 100);
    let c1 = yp / 100;
    let s1 = yp % 100;
    lemma_div_parts(s1, 4);
    lemma_div_parts(c1, 4);
    lemma_div_parts(year, 4);
    lemma_div_parts(year, 100);
    lemma_div_parts(year, 400);
    vstd::arithmetic::div_mod::lemma_fundamental_div_mod_converse(
        yp, 4, 25 * c1 + s1 / 4, s1 % 4);
    vstd::arithmetic::div_mod::lemma_fundamental_div_mod_converse(
        yp, 400, c1 / 4, 100 * (c1 % 4) + s1);
    let d0 = t + day - 1;
    assert(0 <= d0 <= 365);
    assert(d0 == 365 ==> month == 2 && day == 29);
    let j = gregorian_jdn(day, month, year);
    assert(j >= 2299161);
    let aa = j + 32044;
    assert(aa == 36524 * c1 + c1 / 4 + 365 * s1 + s1 / 4 + d0);
    vstd::arithmetic::div_mod::lemma_fundamental_div_mod_converse(
        4 * aa + 3, 146097, c1, 1461 * s1 - s1 % 4 + 4 * d0 + 3 - c1 % 4);
    assert((4 * (j + 32044) + 3) / 146097 == c1);
    vstd::arithmetic::div_mod::lemma_fundamental_div_mod_converse(
        146097 * c1, 4, 36524 * c1 + c1 / 4, c1 % 4);
    let cc = aa - (146097 * c1) / 4;
    assert(cc == 365 * s1 + s1 / 4 + d0);
    vstd::arithmetic::div_mod::lemma_fundamental_div_mod_converse(
        4 * cc + 3, 1461, s1, 4 * d0 + 3 - s1 % 4);
    assert((4 * cc + 3) / 1461 == s1);
    vstd::arithmetic::div_mod::lemma_fundamental_div_mod_converse(
        1461 * s1, 4, 365 * s1 + s1 / 4, s1 % 4);
    let ee = cc - (1461 * s1) / 4;
    assert(ee == d0);
    vstd::arithmetic::div_mod::lemma_fundamental_div_mod_converse(
        5 * d0 + 2, 153, mp, 5 * day - 1 - (153 * mp + 2) % 5);
    assert((5 * ee + 2) / 153 == mp);
    assert(ee - (153 * mp + 2) / 5 + 1 == day);
    lemma_div_parts(mp, 10);
    assert(mp / 10 == a);
    assert(mp + 3 - 12 * (mp / 10) == month);
    assert(100 * c1 + s1 - 4800 + mp / 10 == year);
    assert(civil_of(j) == (day, month, year));
}

} // verus!

verus! {

/// A day count past the month's true end spills into the following month:
/// the formulas send day `L + k` of a month to day `k` of the next one.
/// This is what lets the month-bound search recognise the last real day.
#[verifier::rlimit(100)]
pub proof fn lemma_day_overflow(day: int, month: int, year: int)
    requires
        1 <= month <= 12,
        1583 <= year,
        days_in_month(month, year) < day <= 31,
    ensures
        civil_of(jdn_of(day, month, year)) == (
            day - days_in_month(month, year),
            if month == 12 { 1int } else { month + 1 },
            if month == 12 { year + 1 } else { year },
        ),
{
    let l = days_in_month(month, year);
    let nd = day - l;
    let nm = if month == 12 { 1int } else { month + 1 };
    let ny = if month == 12 { year + 1 } else { year };
    assert(valid_gregorian(nd, nm, ny));
    lemma_civil_round_trip(nd, nm, ny);
    lemma_div_parts(14 - month, 12);
    lemma_div_parts(14 - nm, 12);
    let mp = shifted_month(month);
    let mpn = shifted_month(nm);
    lemma_div_parts(153 * mp + 2, 5);
    lemma_div_parts(153 * mpn + 2, 5);
    let yp = shifted_year(year, month);
    let ypn = shifted_year(ny, nm);
    if month == 2 {
        assert(ypn == yp + 1);
        lemma_div_parts(yp, 4);
        lemma_div_parts(yp, 100);
        lemma_div_parts(yp, 400);
        lemma_div_parts(year, 4);
        lemma_div_parts(year, 100);
        lemma_div_parts(year, 400);
        vstd::arithmetic::div_mod::lemma_fundamental_div_mod_converse(
            year + 4800, 4, year / 4 + 1200, year % 4);
        vstd::arithmetic::div_mod::lemma_fundamental_div_mod_converse(
            year + 4800, 100, year / 100 + 48, year % 100);
        vstd::arithmetic::div_mod::lemma_fundamental_div_mod_converse(
            year + 4800, 400, year / 400 + 12, year % 400);
        assert(gregorian_jdn(day, month, year) == gregorian_jdn(nd, nm, ny));
    } else {
        assert(ypn == yp);
        assert(gregorian_jdn(day, month, year) == gregorian_jdn(nd, nm, ny));
    }
    assert(jdn_of(day, month, year) == jdn_of(nd, nm, ny));
}

} // verus!

verus! {

/// The JDN is canonical: two existing Gregorian dates carry the same JDN
/// exactly when they are the same date.
pub proof fn lemma_jdn_canonical(d1: int, m1: int, y1: int, d2: int, m2: int, y2: int)
    requires
        valid_gregorian(d1, m1, y1),
        valid_gregorian(d2, m2, y2),
    ensures
        (jdn_of(d1, m1, y1) == jdn_of(d2, m2, y2)) <==> (d1 == d2 && m1 == m2 && y1 == y2),
{
    if jdn_of(d1, m1, y1) == jdn_of(d2, m2, y2) {
        lemma_civil_round_trip(d1, m1, y1);
        lemma_civil_round_trip(d2, m2, y2);
    }
}

} // verus!
