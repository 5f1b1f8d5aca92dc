//! Calendar conversions between proleptic Gregorian/Julian civil dates, the
//! Julian Day Number (JDN) line, and the Vietnamese lunisolar ("Am lich")
//! calendar, with the leap-month resolution that the lunisolar rules need.
//!
//! The JDN is the canonical currency: two dates denote the same point in
//! time exactly when their JDNs are equal, and the day of the week is the
//! JDN shifted by one, modulo seven.

pub mod dow;
pub mod julian;
pub mod lunar;
pub mod text;

pub use dow::DayOfWeek;

use vstd::prelude::*;
use vstd::string::StringExecFns;

verus! {

/// A civil (day, month, year) triple. It carries no intrinsic range check of
/// its own; the conversion functions state the ranges they accept.
#[derive(Debug, Clone, Copy, PartialEq, Eq, Structural)]
pub struct Day {
    pub day: i32,
    pub month: i32,
    pub year: i32,
}

/// A date that can stand on the JDN line: it knows which JDN it denotes and
/// how to come back from one. The day of the week falls out of the JDN.
pub trait Calendar: Sized {
    /// The inputs on which the conversions are defined.
    spec fn wf(&self) -> bool;

    /// The JDN this date denotes.
    spec fn jdn_spec(&self) -> int;

    /// The date a given JDN converts back to.
    spec fn from_jdn_spec(jd: int) -> Self;

    fn to_julian_days(&self) -> (r: i32)
        requires
            self.wf(),
        ensures
            r as int == self.jdn_spec(),
            0 <= r <= 630_000_000,
    ;

    fn from_julian_days(jd: i32) -> (r: Self)
        requires
            julian::jdn_in_range(jd as int),
        ensures
            r == Self::from_jdn_spec(jd as int),
            r.wf(),
            r.jdn_spec() == jd as int,
    ;

    fn to_gregorian(&self) -> (r: GregorianDay)
        requires
            self.wf(),
            julian::jdn_in_range(self.jdn_spec()),
        ensures
            r == GregorianDay::of_jdn(self.jdn_spec()),
            r.civil_jdn() == self.jdn_spec(),
    {
        let jd = self.to_julian_days();
        proof {
            julian::lemma_jdn_round_trip(jd as int);
        }
        GregorianDay { inner: julian::from_julian_days(jd) }
    }

    /// The day of the week: the JDN shifted by one, modulo seven, mapped to
    /// the tag whose index that remainder is (Sunday is 0).
    fn day_of_week(&self) -> (r: DayOfWeek)
        requires
            self.wf(),
            julian::jdn_in_range(self.jdn_spec()),
        ensures
            r.index_spec() == (self.jdn_spec() + 1) % 7,
    {
        let j = self.to_julian_days();
        let w = ((j as u64) + 1) % 7;
        let r = DayOfWeek::try_from(w as u8);
        r.unwrap()
    }
}

/// A civil date on the proleptic Gregorian/Julian calendar, disambiguated
/// only by which side of the reform boundary its JDN falls on.
#[derive(Debug, Clone, Copy, PartialEq, Eq, Structural)]
pub struct GregorianDay {
    pub inner: Day,
}

impl GregorianDay {
    /// The inputs on which the conversions are defined.
    pub open spec fn civil_wf(&self) -> bool {
        julian::civil_in_range(
            self.inner.day as int,
            self.inner.month as int,
            self.inner.year as int,
        )
    }

    /// The JDN this date denotes.
    pub open spec fn civil_jdn(&self) -> int {
        julian::jdn_of(self.inner.day as int, self.inner.month as int, self.inner.year as int)
    }

    /// The date a given JDN decomposes to.
    pub open spec fn of_jdn(jd: int) -> Self {
        GregorianDay {
            inner: Day {
                day: julian::civil_day_of(jd) as i32,
                month: julian::civil_month_of(jd) as i32,
                year: julian::civil_year_of(jd) as i32,
            },
        }
    }

    pub fn new(day: i32, month: i32, year: i32) -> (r: Self)
        ensures
            r.inner == (Day { day, month, year }),
    {
        Self { inner: Day { day, month, year } }
    }

    /// The calendar month this date falls in.
    pub fn to_month(&self) -> (r: GregorianMonth)
        ensures
            r.year_spec() == self.inner.year as int,
            r.month_spec() == self.inner.month as int,
    {
        GregorianMonth { year: self.inner.year, month: self.inner.month }
    }
}

impl Calendar for GregorianDay {
    open spec fn wf(&self) -> bool {
        self.civil_wf()
    }

    open spec fn jdn_spec(&self) -> int {
        self.civil_jdn()
    }

    open spec fn from_jdn_spec(jd: int) -> Self {
        GregorianDay::of_jdn(jd)
    }

    fn to_julian_days(&self) -> (r: i32) {
        julian::to_julian_days(self.inner.day, self.inner.month, self.inner.year)
    }

    fn from_julian_days(jd: i32) -> (r: Self) {
        let inner = julian::from_julian_days(jd);
        proof {
            julian::lemma_jdn_round_trip(jd as int);
        }
        GregorianDay { inner }
    }
}

/// A calendar month of a Gregorian year, without a particular day.
#[derive(Debug, Clone, Copy, PartialEq, Eq, Structural)]
pub struct GregorianMonth {
    year: i32,
    month: i32,
}

impl GregorianMonth {
    /// The year this value identifies.
    pub closed spec fn year_spec(&self) -> int {
        self.year as int
    }

    /// The month this value identifies, 1 through 12.
    pub closed spec fn month_spec(&self) -> int {
        self.month as int
    }

    /// A month identifier the utilities below accept.
    pub open spec fn wf(&self) -> bool {
        &&& 1 <= self.month_spec() <= 12
        &&& -4712 <= self.year_spec() <= 1_600_000
    }

    pub fn new(year: i32, month: i32) -> (r: GregorianMonth)
        ensures
            r.year_spec() == year as int,
            r.month_spec() == month as int,
    {
        Self { month, year }
    }

    /// The year, as a value.
    pub fn year(&self) -> (r: i32)
        ensures
            r as int == self.year_spec(),
    {
        self.year
    }

    /// The month, as a value.
    pub fn month(&self) -> (r: i32)
        ensures
            r as int == self.month_spec(),
    {
        self.month
    }

    /// The inclusive day range of the month: from its first day to its last,
    /// found by walking a day count of 31 downward until it round-trips
    /// through the Julian Day Converter unchanged.
    pub fn get_bound(&self) -> (r: GregorianDayRange)
        requires
            self.wf(),
            self.year_spec() >= 1583,
        ensures
            r.wf(),
            r.begin_spec().inner.day == 1,
            r.begin_spec().inner.month as int == self.month_spec(),
            r.begin_spec().inner.year as int == self.year_spec(),
            r.end_spec().inner.day as int == julian::days_in_month(
                self.month_spec(),
                self.year_spec(),
            ),
            r.end_spec().inner.month as int == self.month_spec(),
            r.end_spec().inner.year as int == self.year_spec(),
    {
        let ghost l = julian::days_in_month(self.month_spec(), self.year_spec());
        let mut last_day_of_month: i32 = 31;
        while GregorianDay::from_julian_days(
            julian::to_julian_days(last_day_of_month, self.month, self.year),
        ).inner.day != last_day_of_month
            invariant
                self.wf(),
                self.year_spec() >= 1583,
                l == julian::days_in_month(self.month_spec(), self.year_spec()),
                l <= last_day_of_month <= 31,
            decreases last_day_of_month,
        {
            proof {
                if last_day_of_month as int == l {
                    julian::lemma_civil_round_trip(
                        last_day_of_month as int,
                        self.month_spec(),
                        self.year_spec(),
                    );
                    assert(false);
                }
            }
            last_day_of_month = last_day_of_month - 1;
        }
        proof {
            if last_day_of_month as int != l {
                julian::lemma_day_overflow(
                    last_day_of_month as int,
                    self.month_spec(),
                    self.year_spec(),
                );
                assert(false);
            }
            julian::lemma_civil_round_trip(l, self.month_spec(), self.year_spec());
        }
        GregorianDayRange {
            begin: GregorianDay { inner: Day { month: self.month, year: self.year, day: 1 } },
            end: GregorianDay {
                inner: Day { month: self.month, year: self.year, day: last_day_of_month },
            },
        }
    }

    /// The month before this one, rolling the year back at January.
    pub fn previous(&self) -> (r: GregorianMonth)
        requires
            self.wf(),
            self.year_spec() > -4712,
        ensures
            r.wf(),
            self.month_spec() > 1 ==> r.month_spec() == self.month_spec() - 1 && r.year_spec()
                == self.year_spec(),
            self.month_spec() == 1 ==> r.month_spec() == 12 && r.year_spec() == self.year_spec()
                - 1,
    {
        let mut year = self.year;
        let mut month = self.month - 1;
        if month <= 0 {
            month = month + 12;
            year = year - 1;
        }
        GregorianMonth { month, year }
    }

    /// The month after this one, rolling the year forward at December.
    pub fn next(&self) -> (r: GregorianMonth)
        requires
            self.wf(),
            self.year_spec() < 1_600_000,
        ensures
            r.wf(),
            self.month_spec() < 12 ==> r.month_spec() == self.month_spec() + 1 && r.year_spec()
                == self.year_spec(),
            self.month_spec() == 12 ==> r.month_spec() == 1 && r.year_spec() == self.year_spec()
                + 1,
    {
        let mut year = self.year;
        let mut month = self.month + 1;
        if month > 12 {
            month = month - 12;
            year = year + 1;
        }
        GregorianMonth { month, year }
    }

    /// The month's title, "Am lich MM/YYYY", with a zero-padded month and a
    /// four-digit year.
    pub fn to_title(&self) -> (r: String)
        requires
            self.wf(),
            0 <= self.year_spec() <= 9999,
        ensures
            r@ == "Am lich "@ + text::two_digit_text(self.month_spec()) + "/"@
                + text::four_digit_text(self.year_spec()),
    {
        let mut s = String::from_str("Am lich ");
        s.append(text::two_digit_string(self.month as u32).as_str());
        s.append("/");
        s.append(text::four_digit_string(self.year as u32).as_str());
        proof {
            assert(s@ =~= "Am lich "@ + text::two_digit_text(self.month_spec()) + "/"@
                + text::four_digit_text(self.year_spec()));
        }
        s
    }
}

/// The inclusive span of days between two civil dates, normally the first
/// and last day of one month.
#[derive(Debug, Clone, Copy, PartialEq, Eq, Structural)]
pub struct GregorianDayRange {
    begin: GregorianDay,
    end: GregorianDay,
}

impl GregorianDayRange {
    /// The first day of the range.
    pub closed spec fn begin_spec(&self) -> GregorianDay {
        self.begin
    }

    /// The last day of the range.
    pub closed spec fn end_spec(&self) -> GregorianDay {
        self.end
    }

    /// A range whose ends are ordered and stay on the JDN span the
    /// converter accepts.
    pub open spec fn wf(&self) -> bool {
        &&& self.begin_spec().wf()
        &&& self.end_spec().wf()
        &&& 1 <= self.begin_spec().jdn_spec() <= self.end_spec().jdn_spec()
        &&& self.end_spec().jdn_spec() < 600_000_000
    }

    /// A restartable forward walk over the days of the range.
    pub fn iter(&self) -> (r: GregorianIter)
        requires
            self.wf(),
        ensures
            r.wf(),
            r.inner_spec() == self.begin_spec(),
            r.left_spec() == self.end_spec().jdn_spec() - self.begin_spec().jdn_spec() + 1,
    {
        GregorianIter {
            inner: self.begin.clone(),
            left: self.end.to_julian_days() - self.begin.to_julian_days() + 1,
        }
    }

    pub fn to_tuple(&self) -> (r: (GregorianDay, GregorianDay))
        ensures
            r.0 == self.begin_spec(),
            r.1 == self.end_spec(),
    {
        (self.begin.clone(), self.end.clone())
    }
}

/// The walk a `GregorianDayRange` hands out: yields one civil date per
/// remaining JDN, stepping a day at a time.
pub struct GregorianIter {
    inner: GregorianDay,
    left: i32,
}

impl GregorianIter {
    /// The next date the walk will yield.
    pub closed spec fn inner_spec(&self) -> GregorianDay {
        self.inner
    }

    /// How many dates are still to come.
    pub closed spec fn left_spec(&self) -> int {
        self.left as int
    }

    /// While dates remain, the current date sits on the JDN span the
    /// converter accepts, with room for the rest of the walk.
    pub open spec fn wf(&self) -> bool {
        self.left_spec() > 0 ==> {
            &&& self.inner_spec().wf()
            &&& 1 <= self.inner_spec().jdn_spec()
            &&& self.inner_spec().jdn_spec() + self.left_spec() <= 600_000_000
        }
    }

    /// The next date of the walk, or `None` once the range is exhausted.
    pub fn next(&mut self) -> (r: Option<GregorianDay>)
        requires
            old(self).wf(),
        ensures
            final(self).wf(),
            old(self).left_spec() <= 0 ==> r is None && *final(self) == *old(self),
            old(self).left_spec() > 0 ==> {
                &&& r == Some(old(self).inner_spec())
                &&& final(self).left_spec() == old(self).left_spec() - 1
                &&& final(self).inner_spec() == GregorianDay::from_jdn_spec(
                    old(self).inner_spec().jdn_spec() + 1,
                )
                &&& final(self).inner_spec().jdn_spec() == old(self).inner_spec().jdn_spec() + 1
            },
    {
        if self.left <= 0 {
            return None;
        }
        let ret = Some(self.inner.clone());
        self.left = self.left - 1;
        self.inner = GregorianDay::from_julian_days(self.inner.to_julian_days() + 1);
        ret
    }
}

} // verus!
