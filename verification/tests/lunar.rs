use amlich::julian;
use amlich::lunar::{LunarDay, LunarError, LunarFromJdnFacts, LunarToJdnFacts};
use amlich::Day;
use std::f64::consts::PI;

const TZ: f64 = 7.0;

/// Time of the k-th new moon after the 1900 reference, as a local-midnight
/// JDN (truncated astronomical series).
fn new_moon_day(k: f64, tz: f64) -> f64 {
    let t = k / 1236.85;
    let tt = t * t;
    let ttt = tt * t;
    let dr = PI / 180.0;
    let mut jd1 = 2415020.75933 + 29.53058868 * k + 0.0001178 * tt - 0.000000155 * ttt;
    jd1 = jd1 + 0.00033 * ((166.56 + 132.87 * t - 0.009173 * tt) * dr).sin();
    let m = 359.2242 + 29.10535608 * k - 0.0000333 * tt - 0.00000347 * ttt;
    let mpr = 306.0253 + 385.81691806 * k + 0.0107306 * tt + 0.00001236 * ttt;
    let f = 21.2964 + 390.67050646 * k - 0.0016528 * tt - 0.00000239 * ttt;
    let mut c1 = (0.1734 - 0.000393 * t) * (m * dr).sin() + 0.0021 * (2.0 * dr * m).sin();
    c1 = c1 - 0.4068 * (mpr * dr).sin() + 0.0161 * (dr * 2.0 * mpr).sin();
    c1 = c1 - 0.0004 * (dr * 3.0 * mpr).sin();
    c1 = c1 + 0.0104 * (dr * 2.0 * f).sin() - 0.0051 * (dr * (m + mpr)).sin();
    c1 = c1 - 0.0074 * (dr * (m - mpr)).sin() + 0.0004 * (dr * (2.0 * f + m)).sin();
    c1 = c1 - 0.0004 * (dr * (2.0 * f - m)).sin() - 0.0006 * (dr * (2.0 * f + mpr)).sin();
    c1 = c1 + 0.0010 * (dr * (2.0 * f - mpr)).sin() + 0.0005 * (dr * (2.0 * mpr + m)).sin();
    let delta_t = if t < -11.0 {
        0.001 + 0.000839 * t + 0.0002261 * tt - 0.00000845 * ttt - 0.000000081 * t * ttt
    } else {
        -0.000278 + 0.000265 * t + 0.000262 * tt
    };
    let jd_new = jd1 + c1 - delta_t;
    (jd_new + 0.5 + tz / 24.0).floor()
}

/// The sun's apparent ecliptic-longitude sector (0..=11) at a JDN.
fn sun_longitude(jd: f64, tz: f64) -> f64 {
    let t = (jd - 2451545.5 - tz / 24.0) / 36525.0;
    let tt = t * t;
    let dr = PI / 180.0;
    let m = 357.52910 + 35999.05030 * t - 0.0001559 * tt - 0.00000048 * t * tt;
    let l0 = 280.46645 + 36000.76983 * t + 0.0003032 * tt;
    let mut dl = (1.914600 - 0.004817 * t - 0.000014 * tt) * (dr * m).sin();
    dl = dl + (0.019993 - 0.000101 * t) * (dr * 2.0 * m).sin() + 0.000290 * (dr * 3.0 * m).sin();
    let mut l = l0 + dl;
    l = l * dr;
    l = l - PI * 2.0 * ((l / (PI * 2.0)).floor());
    (l / PI * 6.0).floor()
}

/// The JDN of the new moon that begins lunar month 11 of a year.
fn month11(year: i32, tz: f64) -> i32 {
    let off = julian::to_julian_days(32, 12, year) as f64 - 2415021.0;
    let k = (off / 29.530588853).floor();
    let nm = new_moon_day(k, tz);
    let sector = sun_longitude(nm, tz) as i32;
    LunarDay::resolve_month_11(nm as i32, sector, new_moon_day(k - 1.0, tz) as i32)
}

/// Solar-longitude sectors at the new moons following a month-11 new moon.
fn arcs_after(a11: i32, tz: f64) -> Vec<i32> {
    let k = ((a11 as f64 - 2415021.076998695) / 29.530588853 + 0.5).floor();
    (1..=13).map(|i| sun_longitude(new_moon_day(k + i as f64, tz), tz) as i32).collect()
}

/// New-moon JDNs 0 through 13 lunations after a month-11 new moon.
fn month_starts_from(a11: i32, tz: f64) -> Vec<i32> {
    let k = ((a11 as f64 - 2415021.076998695) / 29.530588853 + 0.5).trunc();
    (0..14).map(|i| new_moon_day(k + i as f64, tz) as i32).collect()
}

fn to_facts(lunar: &LunarDay) -> LunarToJdnFacts {
    let (ya, yb) = LunarDay::month_11_years(lunar.inner.month, lunar.inner.year);
    let a11 = month11(ya, TZ);
    let b11 = month11(yb, TZ);
    LunarToJdnFacts {
        a11,
        b11,
        arcs: arcs_after(a11, TZ),
        month_starts: month_starts_from(a11, TZ),
    }
}

fn from_facts(jd: i32) -> LunarFromJdnFacts {
    let greg = julian::from_julian_days(jd);
    let k = ((jd as f64 - 2415021.076998695) / 29.530588853).trunc();
    let m11_prev = month11(greg.year - 1, TZ);
    let m11 = month11(greg.year, TZ);
    LunarFromJdnFacts {
        start_hint: new_moon_day(k + 1.0, TZ) as i32,
        start_prev: new_moon_day(k, TZ) as i32,
        m11_prev,
        m11,
        m11_next: month11(greg.year + 1, TZ),
        arcs_prev: arcs_after(m11_prev, TZ),
        arcs: arcs_after(m11, TZ),
    }
}

fn to_lunar(jd: i32) -> LunarDay {
    LunarDay::from_julian_days(jd, &from_facts(jd))
}

fn lunar(day: i32, month: i32, year: i32, leap: bool) -> LunarDay {
    LunarDay { inner: Day { day, month, year }, leap }
}

/// Known Gregorian-to-Am-Lich pairs from published reference tables:
/// (gregorian (d, m, y), lunar (d, m, y), leap flag).
fn reference_pairs() -> Vec<((i32, i32, i32), (i32, i32, i32), bool)> {
    vec![
        ((5, 2, 2000), (1, 1, 2000), false),
        ((5, 2, 2019), (1, 1, 2019), false),
        ((25, 1, 2020), (1, 1, 2020), false),
        ((12, 2, 2021), (1, 1, 2021), false),
        ((23, 4, 2020), (1, 4, 2020), false),
        ((23, 5, 2020), (1, 4, 2020), true),
        ((21, 6, 2020), (1, 5, 2020), false),
        ((2, 9, 2019), (4, 8, 2019), false),
    ]
}

#[test]
fn lunar_round_trip_reference_pairs() {
    for ((gd, gm, gy), (ld, lm, ly), leap) in reference_pairs() {
        let jd = julian::to_julian_days(gd, gm, gy);
        let got = to_lunar(jd);
        assert_eq!(
            (got.inner.day, got.inner.month, got.inner.year, got.leap),
            (ld, lm, ly, leap),
            "to_lunar of {gd}/{gm}/{gy}"
        );
        let back = lunar(ld, lm, ly, leap);
        assert_eq!(
            back.to_julian_days(&to_facts(&back)),
            Ok(jd),
            "to_julian_days of {ld}/{lm}/{ly} (leap {leap})"
        );
    }
}

#[test]
fn leap_year_2020_has_leap_month_four_and_no_other() {
    let a11 = month11(2019, TZ);
    let b11 = month11(2020, TZ);
    assert!(b11 - a11 > 365, "lunar year 2020 must hold thirteen months");
    let off = LunarDay::get_leap_month_offset(&arcs_after(a11, TZ));
    let ordinal = (off - 2).rem_euclid(12);
    assert_eq!(ordinal, 4);

    let first = julian::to_julian_days(25, 1, 2020);
    let last = julian::to_julian_days(11, 2, 2021);
    let leap_start = julian::to_julian_days(23, 5, 2020);
    let leap_end = julian::to_julian_days(20, 6, 2020);
    for jd in first..=last {
        let l = to_lunar(jd);
        let in_leap_month = jd >= leap_start && jd <= leap_end;
        assert_eq!(l.leap, in_leap_month, "leap flag at jd {jd}");
        if in_leap_month {
            assert_eq!(l.inner.month, 4);
        }
    }
}

#[test]
fn lunar_year_2019_has_no_leap_month() {
    let a11 = month11(2018, TZ);
    let b11 = month11(2019, TZ);
    assert!(b11 - a11 <= 365);
}

#[test]
fn mismatched_leap_flag_is_rejected() {
    // Lunar 2020's inserted month is month 4; a leap flag on month 5 is a
    // consistency violation.
    let bad = lunar(1, 5, 2020, true);
    assert_eq!(bad.to_julian_days(&to_facts(&bad)), Err(LunarError::LeapMonthMismatch));
    // A leap flag in a twelve-month lunar year is a violation too.
    let bad2 = lunar(1, 5, 2019, true);
    assert_eq!(bad2.to_julian_days(&to_facts(&bad2)), Err(LunarError::LeapMonthMismatch));
}

#[test]
fn lunar_title_is_zero_padded() {
    assert_eq!(lunar(1, 4, 2020, true).to_title(), "01/04/2020 AL");
    assert_eq!(lunar(15, 12, 999, false).to_title(), "15/12/0999 AL");
}

#[test]
fn lunar_dates_advance_with_the_day_count() {
    // First lunar month of 2020: 25 Jan through 22 Feb 2020 (a 29-day month).
    let first = julian::to_julian_days(25, 1, 2020);
    for i in 0..29 {
        let l = to_lunar(first + i);
        assert_eq!((l.inner.day, l.inner.month, l.inner.year), (1 + i, 1, 2020));
        assert!(!l.leap);
    }
}
