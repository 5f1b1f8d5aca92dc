//! The Vietnamese lunisolar ("Am lich") side: the lunar date type, the
//! leap-month resolution, and the conversions between a lunar date and the
//! JDN line.
//!
//! The lunisolar rules decide everything from two kinds of astronomical
//! fact: the JDN on which a numbered new moon falls, and the sun's
//! ecliptic-longitude sector (0 through 11) at such a new moon. Those two
//! facts come from floating-point series approximations that cannot live in
//! verified code, so the functions here take them as plain integer inputs
//! (see [`LunarToJdnFacts`] and [`LunarFromJdnFacts`]) and are verified for
//! every value of them; the caller samples the series and fills the tables.

use crate::julian;
use crate::Day;
use vstd::prelude::*;
use vstd::string::StringExecFns;

verus! {

/// A failure of a lunisolar conversion.
#[derive(Debug, Clone, Copy, PartialEq, Eq, Structural)]
pub enum LunarError {
    /// The date's leap flag does not name the leap month that the resolver
    /// computed for its lunar year.
    LeapMonthMismatch,
}

/// A lunisolar date: a (day, month, year) triple plus the flag that marks
/// the month as the inserted (leap) month of its lunar year.
#[derive(Debug, Clone, Copy, PartialEq, Eq, Structural)]
pub struct LunarDay {
    pub inner: Day,
    pub leap: bool,
}

/// The tail of the leap-month scan from comparison position `t`: the first
/// position at which two consecutive new moons see the same solar sector
/// (no solar-term transition fell in that lunar month), capped at 13.
pub open spec fn leap_offset_from(arcs: Seq<i32>, t: int) -> int
    decreases 13 - t,
{
    if t >= 13 {
        13
    } else if arcs[t] == arcs[t - 1] {
        t
    } else {
        leap_offset_from(arcs, t + 1)
    }
}

/// The offset, in lunations after month 11, of the inserted month: the
/// first lunar month during which the sun stays inside one longitude
/// sector. The scan is capped at 13 lunations.
pub open spec fn leap_month_offset_spec(arcs: Seq<i32>) -> int {
    leap_offset_from(arcs, 1)
}

/// The month number that an inserted month `off` lunations after month 11
/// carries: `(off - 2) mod 12`, measured from month 11.
pub open spec fn leap_month_ordinal(off: int) -> int {
    if off - 2 < 0 {
        off + 10
    } else {
        off - 2
    }
}

/// How many lunations a lunar month lies after month 11 of its lunar year,
/// before any leap adjustment: 0 for month 11 up to 11 for month 10.
pub open spec fn month_offset(month: int) -> int {
    if month >= 11 {
        month - 11
    } else {
        month + 1
    }
}

/// The astronomical facts one lunar-date-to-JDN conversion consumes.
/// `a11` and `b11` are the new moons beginning month 11 of the lunar year
/// the date falls in and of the following lunar year; `arcs[t]` is the
/// solar-longitude sector at the new moon `t + 1` lunations after `a11`;
/// `month_starts[i]` is the JDN of the new moon `i` lunations after `a11`.
pub struct LunarToJdnFacts {
    pub a11: i32,
    pub b11: i32,
    pub arcs: Vec<i32>,
    pub month_starts: Vec<i32>,
}

impl LunarToJdnFacts {
    /// Enough samples for the scan and the month pick, on the JDN span the
    /// converter accepts.
    pub open spec fn wf(&self) -> bool {
        &&& self.arcs@.len() >= 13
        &&& self.month_starts@.len() >= 14
        &&& 1 <= self.a11 <= 600_000_000
        &&& 1 <= self.b11 <= 600_000_000
        &&& forall|i: int|
            0 <= i < self.month_starts@.len() ==> 1 <= #[trigger] self.month_starts@[i]
                <= 600_000_000
    }
}

/// The astronomical facts one JDN-to-lunar-date conversion consumes.
/// `start_hint` and `start_prev` are the new moons one lunation after and
/// at the lunation count nearest the date; `m11_prev`, `m11` and `m11_next`
/// are the month-11 new moons of the previous, the current and the next
/// Gregorian year; `arcs_prev` and `arcs` carry the solar-longitude sectors
/// at the new moons following `m11_prev` and `m11`, as in
/// [`LunarToJdnFacts`].
pub struct LunarFromJdnFacts {
    pub start_hint: i32,
    pub start_prev: i32,
    pub m11_prev: i32,
    pub m11: i32,
    pub m11_next: i32,
    pub arcs_prev: Vec<i32>,
    pub arcs: Vec<i32>,
}

impl LunarFromJdnFacts {
    /// The facts a conversion of `jd` needs: samples for both candidate
    /// lunar years, a month start at or before the date, and month-11 new
    /// moons that do not postdate the following month start.
    pub open spec fn wf(&self, jd: int) -> bool {
        &&& self.arcs_prev@.len() >= 13
        &&& self.arcs@.len() >= 13
        &&& 1 <= self.start_prev <= jd
        &&& 1 <= self.start_hint <= 600_000_000
        &&& self.m11_prev <= self.start_prev
        &&& self.m11_prev <= self.start_hint
        &&& 1 <= self.m11_prev
        &&& 1 <= self.m11 <= 600_000_000
        &&& 1 <= self.m11_next <= 600_000_000
    }
}

/// What a lunar-date-to-JDN conversion yields: the JDN of the date, or the
/// mismatch error when the leap flag contradicts the resolver. The month
/// offset from month 11 is pushed one lunation further when the date lies
/// in or beyond the lunar year's inserted month.
pub open spec fn lunar_to_jdn_spec(
    day: int,
    month: int,
    leap: bool,
    f: LunarToJdnFacts,
) -> Result<int, LunarError> {
    let off0 = month_offset(month);
    if f.b11 - f.a11 > 365 {
        let lo = leap_month_offset_spec(f.arcs@);
        if leap && month != leap_month_ordinal(lo) {
            Err(LunarError::LeapMonthMismatch)
        } else {
            let off = if leap || off0 >= lo {
                off0 + 1
            } else {
                off0
            };
            Ok(f.month_starts@[off] + day - 1)
        }
    } else {
        if leap {
            Err(LunarError::LeapMonthMismatch)
        } else {
            Ok(f.month_starts@[off0] + day - 1)
        }
    }
}

/// The new moon a conversion of `jd` takes as the start of its lunar
/// month: the later candidate unless it postdates the date.
pub open spec fn chosen_month_start(jd: int, f: LunarFromJdnFacts) -> int {
    if f.start_hint > jd {
        f.start_prev as int
    } else {
        f.start_hint as int
    }
}

/// Whether the date falls before its own Gregorian year's month-11 new
/// moon, so that its lunar year is the one that began the year before.
pub open spec fn in_earlier_bracket(jd: int, f: LunarFromJdnFacts) -> bool {
    f.m11 >= chosen_month_start(jd, f)
}

/// The month-11 new moon that begins the lunar year the date falls in.
pub open spec fn chosen_a11(jd: int, f: LunarFromJdnFacts) -> int {
    if in_earlier_bracket(jd, f) {
        f.m11_prev as int
    } else {
        f.m11 as int
    }
}

/// The month-11 new moon that begins the following lunar year.
pub open spec fn chosen_b11(jd: int, f: LunarFromJdnFacts) -> int {
    if in_earlier_bracket(jd, f) {
        f.m11 as int
    } else {
        f.m11_next as int
    }
}

/// The solar-longitude samples of the lunar year the date falls in.
pub open spec fn chosen_arcs(jd: int, f: LunarFromJdnFacts) -> Seq<i32> {
    if in_earlier_bracket(jd, f) {
        f.arcs_prev@
    } else {
        f.arcs@
    }
}

/// How many lunations the date's month start lies after the lunar year's
/// month-11 new moon.
pub open spec fn chosen_diff(jd: int, f: LunarFromJdnFacts) -> int {
    (chosen_month_start(jd, f) - chosen_a11(jd, f)) / 29
}

/// What a JDN-to-lunar-date conversion yields, as a (day, month, year,
/// leap) tuple, from the date's Gregorian year and the sampled facts.
pub open spec fn lunar_from_jdn_spec(jd: int, f: LunarFromJdnFacts) -> (int, int, int, bool) {
    let gyear = julian::civil_year_of(jd);
    let month_start = chosen_month_start(jd, f);
    let year0 = if in_earlier_bracket(jd, f) {
        gyear
    } else {
        gyear + 1
    };
    let a11 = chosen_a11(jd, f);
    let b11 = chosen_b11(jd, f);
    let arcs = chosen_arcs(jd, f);
    let day = jd - month_start + 1;
    let diff = chosen_diff(jd, f);
    let month0 = if b11 - a11 > 365 && diff >= leap_month_offset_spec(arcs) {
        diff + 10
    } else {
        diff + 11
    };
    let is_leap = b11 - a11 > 365 && diff == leap_month_offset_spec(arcs);
    let month1 = if month0 > 12 {
        month0 - 12
    } else {
        month0
    };
    let year = if month1 >= 11 && diff < 4 {
        year0 - 1
    } else {
        year0
    };
    (day, month1, year, is_leap)
}

impl LunarDay {
    /// The triples the lunar conversion accepts: a day of a lunar month and
    /// a month number.
    pub open spec fn wf(&self) -> bool {
        &&& 1 <= self.inner.day <= 30
        &&& 1 <= self.inner.month <= 12
    }

    /// Which two years' month-11 new moons bracket a lunar date: months
    /// before 11 belong to the lunar year that began the previous civil
    /// year.
    pub fn month_11_years(month: i32, year: i32) -> (r: (i32, i32))
        requires
            -4712 <= year <= 1_600_000,
        ensures
            month < 11 ==> r.0 == year - 1 && r.1 == year,
            month >= 11 ==> r.0 == year && r.1 == year + 1,
    {
        if month < 11 {
            (year - 1, year)
        } else {
            (year, year + 1)
        }
    }

    /// Which new moon begins lunar month 11 of a year: the candidate
    /// nearest the winter solstice, or the lunation before it when the sun
    /// has already crossed into longitude sector 9 at the candidate.
    pub fn resolve_month_11(nm: i32, sun_longitude_sector: i32, nm_prev: i32) -> (r: i32)
        ensures
            r == if sun_longitude_sector >= 9 {
                nm_prev
            } else {
                nm
            },
    {
        if sun_longitude_sector >= 9 {
            nm_prev
        } else {
            nm
        }
    }

    /// The Leap Month Resolver's scan: walk the new moons after month 11
    /// and stop at the first lunar month in which the solar-longitude
    /// sector does not change, or at the 13-lunation cap.
    pub fn get_leap_month_offset(arcs: &Vec<i32>) -> (r: i32)
        requires
            arcs@.len() >= 13,
        ensures
            r as int == leap_month_offset_spec(arcs@),
            1 <= r <= 13,
    {
        let mut i: usize = 1;
        while i < 13 && arcs[i] != arcs[i - 1]
            invariant
                1 <= i <= 13,
                arcs@.len() >= 13,
                leap_offset_from(arcs@, 1) == leap_offset_from(arcs@, i as int),
            decreases 13 - i,
        {
            proof {
                assert(leap_offset_from(arcs@, i as int) == leap_offset_from(
                    arcs@,
                    i as int + 1,
                ));
            }
            i = i + 1;
        }
        proof {
            assert(leap_offset_from(arcs@, i as int) == i as int);
        }
        i as i32
    }

    /// Lunar date to JDN: pick the month-11 bracket the date falls in,
    /// shift the month offset past the inserted month where one exists,
    /// check the leap flag against the resolver's ordinal, and add the day
    /// within the month to that month's new-moon JDN.
    pub fn to_julian_days(&self, facts: &LunarToJdnFacts) -> (r: Result<i32, LunarError>)
        requires
            self.wf(),
            facts.wf(),
        ensures
            lunar_to_jdn_spec(
                self.inner.day as int,
                self.inner.month as int,
                self.leap,
                *facts,
            ) matches Ok(j) ==> (r matches Ok(v) && v as int == j),
            lunar_to_jdn_spec(self.inner.day as int, self.inner.month as int, self.leap, *facts)
                is Err ==> r == Err::<i32, LunarError>(LunarError::LeapMonthMismatch),
    {
        let mut off: i32 = self.inner.month - 11;
        if off < 0 {
            off = off + 12;
        }
        if facts.b11 - facts.a11 > 365 {
            let leap_off = Self::get_leap_month_offset(&facts.arcs);
            let mut leap_month = leap_off - 2;
            if leap_month < 0 {
                leap_month = leap_month + 12;
            }
            if self.leap && self.inner.month != leap_month {
                return Err(LunarError::LeapMonthMismatch);
            }
            if self.leap || off >= leap_off {
                off = off + 1;
            }
            let month_start = facts.month_starts[off as usize];
            Ok(month_start + self.inner.day - 1)
        } else {
            if self.leap {
                return Err(LunarError::LeapMonthMismatch);
            }
            let month_start = facts.month_starts[off as usize];
            Ok(month_start + self.inner.day - 1)
        }
    }

    /// JDN to lunar date: take the new moon at or before the date as the
    /// month start, choose the month-11 bracket by comparing it with the
    /// date's Gregorian year's month-11 new moon, count the lunations from
    /// month 11, recognise the inserted month, and pull the lunar year back
    /// for dates that fall in the tail of the previous lunar year.
    pub fn from_julian_days(jd: i32, facts: &LunarFromJdnFacts) -> (r: LunarDay)
        requires
            julian::jdn_in_range(jd as int),
            facts.wf(jd as int),
        ensures
            ({
                let (day, month, year, leap) = lunar_from_jdn_spec(jd as int, *facts);
                &&& r.inner.day as int == day
                &&& r.inner.month as int == month
                &&& r.inner.year as int == year
                &&& r.leap == leap
            }),
    {
        let greg = julian::from_julian_days(jd);
        let month_start: i32 = if facts.start_hint > jd {
            facts.start_prev
        } else {
            facts.start_hint
        };
        let lunar_day = jd - month_start + 1;
        let mut lunar_year: i32 = 0;
        let mut a11: i32 = 0;
        let mut b11: i32 = 0;
        let mut leap_off: i32 = 0;
        if facts.m11 >= month_start {
            lunar_year = greg.year;
            a11 = facts.m11_prev;
            b11 = facts.m11;
            leap_off = Self::get_leap_month_offset(&facts.arcs_prev);
        } else {
            lunar_year = greg.year + 1;
            a11 = facts.m11;
            b11 = facts.m11_next;
            leap_off = Self::get_leap_month_offset(&facts.arcs);
        }
        let diff_u: u32 = ((month_start - a11) as u32) / 29;
        let diff: i32 = diff_u as i32;
        let mut lunar_leap = false;
        let mut lunar_month = diff + 11;
        if b11 - a11 > 365 {
            if diff >= leap_off {
                lunar_month = diff + 10;
                if diff == leap_off {
                    lunar_leap = true;
                }
            }
        }
        if lunar_month > 12 {
            lunar_month = lunar_month - 12;
        }
        if lunar_month >= 11 && diff < 4 {
            lunar_year = lunar_year - 1;
        }
        LunarDay {
            inner: Day { day: lunar_day, month: lunar_month, year: lunar_year },
            leap: lunar_leap,
        }
    }

    /// The date's textual form, "DD/MM/YYYY AL", with zero-padded day and
    /// month and a four-digit year.
    pub fn to_title(&self) -> (r: String)
        requires
            self.wf(),
            0 <= self.inner.year <= 9999,
        ensures
            r@ == crate::text::two_digit_text(self.inner.day as int) + "/"@
                + crate::text::two_digit_text(self.inner.month as int) + "/"@
                + crate::text::four_digit_text(self.inner.year as int) + " AL"@,
    {
        let mut s = crate::text::two_digit_string(self.inner.day as u32);
        s.append("/");
        s.append(crate::text::two_digit_string(self.inner.month as u32).as_str());
        s.append("/");
        s.append(crate::text::four_digit_string(self.inner.year as u32).as_str());
        s.append(" AL");
        proof {
            assert(s@ =~= crate::text::two_digit_text(self.inner.day as int) + "/"@
                + crate::text::two_digit_text(self.inner.month as int) + "/"@
                + crate::text::four_digit_text(self.inner.year as int) + " AL"@);
        }
        s
    }
}

} // verus!

verus! {

/// The leap-month scan's answer always lies between 1 and its cap of 13.
pub proof fn lemma_leap_offset_bounds(arcs: Seq<i32>, t: int)
    requires
        1 <= t <= 13,
    ensures
        t <= leap_offset_from(arcs, t) <= 13,
    decreases 13 - t,
{
    if t < 13 && arcs[t] != arcs[t - 1] {
        lemma_leap_offset_bounds(arcs, t + 1);
    }
}

/// The leap flag names the resolver's month and no other: a conversion
/// result carries the flag only inside a thirteen-month lunar year, and
/// the flagged month is the leap-month ordinal the resolver computed for
/// that year (month 12 standing for an ordinal of zero).
pub proof fn lemma_leap_flag_names_resolver_month(jd: int, f: LunarFromJdnFacts)
    requires
        0 <= chosen_diff(jd, f) <= 12,
    ensures
        ({
            let (day, month, year, leap) = lunar_from_jdn_spec(jd, f);
            leap ==> {
                &&& chosen_b11(jd, f) - chosen_a11(jd, f) > 365
                &&& chosen_diff(jd, f) == leap_month_offset_spec(chosen_arcs(jd, f))
                &&& month % 12 == leap_month_ordinal(leap_month_offset_spec(chosen_arcs(jd, f)))
                    % 12
            }
        }),
{
}

/// Round trip through the lunisolar rules: whenever the two fact tables
/// describe the same lunar year coherently -- same month-11 bracket, same
/// solar-longitude samples, and a month-start table that really places the
/// date's month `diff` lunations after month 11 -- converting a JDN to a
/// lunar date and that date back yields the same JDN. The one excluded
/// lunar year is the one whose inserted month is month 12 (a resolver
/// offset of 2): its ordinal of zero can never equal a month number.
pub proof fn lemma_lunar_round_trip(jd: int, ff: LunarFromJdnFacts, ft: LunarToJdnFacts)
    requires
        ft.a11 as int == chosen_a11(jd, ff),
        ft.b11 as int == chosen_b11(jd, ff),
        ft.arcs@ == chosen_arcs(jd, ff),
        ft.month_starts@.len() >= 14,
        0 <= chosen_diff(jd, ff),
        chosen_b11(jd, ff) - chosen_a11(jd, ff) > 365 ==> chosen_diff(jd, ff) <= 12,
        chosen_b11(jd, ff) - chosen_a11(jd, ff) <= 365 ==> chosen_diff(jd, ff) <= 11,
        ft.month_starts@[chosen_diff(jd, ff)] as int == chosen_month_start(jd, ff),
        chosen_b11(jd, ff) - chosen_a11(jd, ff) > 365 ==> leap_month_offset_spec(
            chosen_arcs(jd, ff),
        ) != 2 && leap_month_offset_spec(chosen_arcs(jd, ff)) <= 12,
    ensures
        ({
            let (day, month, year, leap) = lunar_from_jdn_spec(jd, ff);
            lunar_to_jdn_spec(day, month, leap, ft) == Ok::<int, LunarError>(jd)
        }),
{
    let (day, month, year, leap) = lunar_from_jdn_spec(jd, ff);
    let diff = chosen_diff(jd, ff);
    let lo = leap_month_offset_spec(chosen_arcs(jd, ff));
    lemma_leap_offset_bounds(chosen_arcs(jd, ff), 1);
    if chosen_b11(jd, ff) - chosen_a11(jd, ff) > 365 {
        if diff >= lo {
            assert(month == if diff + 10 > 12 { diff - 2 } else { diff + 10 });
            if diff == lo {
                assert(leap && month % 12 == leap_month_ordinal(lo) % 12) by {
                    lemma_leap_flag_names_resolver_month(jd, ff);
                }
                assert(1 <= month <= 12);
                assert(month == leap_month_ordinal(lo));
                assert(month_offset(month) + 1 == diff);
            } else {
                assert(!leap);
                assert(month_offset(month) + 1 == diff);
                assert(month_offset(month) >= lo);
            }
        } else {
            assert(!leap);
            assert(month == if diff + 11 > 12 { diff - 1 } else { diff + 11 });
            assert(month_offset(month) == diff);
            assert(month_offset(month) < lo);
        }
    } else {
        assert(!leap);
        assert(month == if diff + 11 > 12 { diff - 1 } else { diff + 11 });
        assert(month_offset(month) == diff);
    }
}

} // verus!
