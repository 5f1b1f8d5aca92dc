use amlich::dow::ShortTitle;
use amlich::julian;
use amlich::Calendar;
use amlich::DayOfWeek;
use amlich::GregorianDay;
use amlich::GregorianMonth;

fn is_leap_year(year: i32) -> bool {
    year % 4 == 0 && (year % 100 != 0 || year % 400 == 0)
}

fn days_in_month(month: i32, year: i32) -> i32 {
    match month {
        2 => {
            if is_leap_year(year) {
                29
            } else {
                28
            }
        }
        4 | 6 | 9 | 11 => 30,
        _ => 31,
    }
}

#[test]
fn jdn_round_trip_wide_range() {
    for jd in 1_000_000..=3_000_000 {
        let d = julian::from_julian_days(jd);
        assert_eq!(julian::to_julian_days(d.day, d.month, d.year), jd);
    }
}

#[test]
fn civil_round_trip_1600_to_2400() {
    for year in 1600..=2400 {
        for month in 1..=12 {
            for day in 1..=days_in_month(month, year) {
                let jd = julian::to_julian_days(day, month, year);
                let back = julian::from_julian_days(jd);
                assert_eq!((back.day, back.month, back.year), (day, month, year));
            }
        }
    }
}

#[test]
fn fixed_point_2000_01_01() {
    assert_eq!(julian::to_julian_days(1, 1, 2000), 2451545);
    let d = GregorianDay::new(1, 1, 2000);
    assert_eq!(d.to_julian_days(), 2451545);
}

#[test]
fn reform_boundary() {
    assert_eq!(julian::to_julian_days(15, 10, 1582), 2299161);
    assert_eq!(julian::to_julian_days(4, 10, 1582), 2299160);
    let after = julian::from_julian_days(2299161);
    assert_eq!((after.day, after.month, after.year), (15, 10, 1582));
    let before = julian::from_julian_days(2299160);
    assert_eq!((before.day, before.month, before.year), (4, 10, 1582));
}

#[test]
fn day_of_week_2000_01_01_is_saturday() {
    let d = GregorianDay::from_julian_days(2451545);
    assert_eq!(d.day_of_week(), DayOfWeek::Saturday);
}

#[test]
fn day_of_week_try_from_accepts_0_to_6() {
    assert_eq!(DayOfWeek::try_from(0), Ok(DayOfWeek::Sunday));
    assert_eq!(DayOfWeek::try_from(3), Ok(DayOfWeek::Wednesday));
    assert_eq!(DayOfWeek::try_from(6), Ok(DayOfWeek::Saturday));
}

#[test]
fn day_of_week_try_from_rejects_out_of_range() {
    let e = DayOfWeek::try_from(7);
    assert_eq!(e, Err("Invalid day of week".to_string()));
    assert!(DayOfWeek::try_from(255).is_err());
}

#[test]
fn day_of_week_titles() {
    assert_eq!(DayOfWeek::Sunday.name(), "Sunday");
    assert_eq!(DayOfWeek::Sunday.short_title(), "Sun");
    assert_eq!(DayOfWeek::Monday.short_title(), "Mon");
    assert_eq!(DayOfWeek::Tuesday.short_title(), "Tue");
    assert_eq!(DayOfWeek::Wednesday.short_title(), "Wed");
    assert_eq!(DayOfWeek::Thursday.short_title(), "Thu");
    assert_eq!(DayOfWeek::Friday.short_title(), "Fri");
    assert_eq!(DayOfWeek::Saturday.short_title(), "Sat");
}

#[test]
fn september_2019_spans_thirty_days() {
    let bound = GregorianMonth::new(2019, 9).get_bound();
    let (begin, end) = bound.to_tuple();
    assert_eq!((begin.inner.day, begin.inner.month, begin.inner.year), (1, 9, 2019));
    assert_eq!((end.inner.day, end.inner.month, end.inner.year), (30, 9, 2019));
    let mut iter = bound.iter();
    let mut count = 0;
    let mut expected_day = 1;
    while let Some(d) = iter.next() {
        assert_eq!((d.inner.day, d.inner.month, d.inner.year), (expected_day, 9, 2019));
        expected_day += 1;
        count += 1;
    }
    assert_eq!(count, 30);
}

#[test]
fn month_bounds_follow_month_lengths() {
    for year in [1583, 1600, 1900, 2000, 2019, 2020, 2100, 2400] {
        for month in 1..=12 {
            let (begin, end) = GregorianMonth::new(year, month).get_bound().to_tuple();
            assert_eq!(begin.inner.day, 1);
            assert_eq!(end.inner.day, days_in_month(month, year));
        }
    }
}

#[test]
fn month_navigation_rolls_over_years() {
    let jan = GregorianMonth::new(2020, 1);
    let dec = jan.previous();
    assert_eq!(dec.to_title(), "Am lich 12/2019");
    let back = dec.next();
    assert_eq!(back.to_title(), "Am lich 01/2020");
    let feb = jan.next();
    assert_eq!(feb.to_title(), "Am lich 02/2020");
}

#[test]
fn month_title_is_zero_padded() {
    assert_eq!(GregorianMonth::new(2019, 9).to_title(), "Am lich 09/2019");
    assert_eq!(GregorianMonth::new(987, 12).to_title(), "Am lich 12/0987");
}

#[test]
fn to_month_and_to_gregorian() {
    let d = GregorianDay::new(17, 6, 1995);
    let m = d.to_month();
    assert_eq!(m.to_title(), "Am lich 06/1995");
    let g = d.to_gregorian();
    assert_eq!(g.inner, d.inner);
}

#[test]
fn week_cycles_over_consecutive_days() {
    let mut expected = 6u8;
    for jd in 2451545..2451545 + 70 {
        let d = GregorianDay::from_julian_days(jd);
        assert_eq!(d.day_of_week(), DayOfWeek::try_from(expected).unwrap());
        expected = (expected + 1) % 7;
    }
}

#[test]
fn day_range_walk_is_restartable() {
    let bound = GregorianMonth::new(2020, 2).get_bound();
    let mut first_pass = 0;
    let mut iter = bound.iter();
    while iter.next().is_some() {
        first_pass += 1;
    }
    assert_eq!(first_pass, 29);
    assert!(iter.next().is_none());
    let mut second_pass = 0;
    let mut iter2 = bound.iter();
    while let Some(d) = iter2.next() {
        second_pass += 1;
        assert_eq!(d.inner.day, second_pass);
    }
    assert_eq!(second_pass, 29);
}
