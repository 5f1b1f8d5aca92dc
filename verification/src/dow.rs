//! The seven-valued day-of-week tag, with validated construction from an
//! integer index (Sunday is 0, Saturday is 6) and short textual titles.

use vstd::prelude::*;
use vstd::string::StringExecFns;

verus! {

#[derive(Debug, Clone, Copy, PartialEq, Eq, Structural)]
pub enum DayOfWeek {
    Sunday,
    Monday,
    Tuesday,
    Wednesday,
    Thursday,
    Friday,
    Saturday,
}

impl DayOfWeek {
    /// The numeric index of the tag: Sunday is 0 through Saturday, 6.
    pub open spec fn index_spec(self) -> int {
        match self {
            DayOfWeek::Sunday => 0,
            DayOfWeek::Monday => 1,
            DayOfWeek::Tuesday => 2,
            DayOfWeek::Wednesday => 3,
            DayOfWeek::Thursday => 4,
            DayOfWeek::Friday => 5,
            DayOfWeek::Saturday => 6,
        }
    }

    /// The tag with a given index; meaningful for indices 0 through 6.
    pub open spec fn of_index_spec(i: int) -> DayOfWeek {
        if i == 0 {
            DayOfWeek::Sunday
        } else if i == 1 {
            DayOfWeek::Monday
        } else if i == 2 {
            DayOfWeek::Tuesday
        } else if i == 3 {
            DayOfWeek::Wednesday
        } else if i == 4 {
            DayOfWeek::Thursday
        } else if i == 5 {
            DayOfWeek::Friday
        } else {
            DayOfWeek::Saturday
        }
    }

    /// The full English name of the day.
    pub open spec fn name_text(self) -> Seq<char> {
        match self {
            DayOfWeek::Sunday => "Sunday"@,
            DayOfWeek::Monday => "Monday"@,
            DayOfWeek::Tuesday => "Tuesday"@,
            DayOfWeek::Wednesday => "Wednesday"@,
            DayOfWeek::Thursday => "Thursday"@,
            DayOfWeek::Friday => "Friday"@,
            DayOfWeek::Saturday => "Saturday"@,
        }
    }

    /// Validated construction from a numeric index: every value 0 through 6
    /// yields the matching tag, and every other value is rejected.
    pub fn try_from(x: u8) -> (r: Result<DayOfWeek, String>)
        ensures
            x <= 6 ==> r == Ok::<DayOfWeek, String>(DayOfWeek::of_index_spec(x as int)),
            x > 6 ==> (r matches Err(e) && e@ == "Invalid day of week"@),
    {
        match x {
            0 => Ok(DayOfWeek::Sunday),
            1 => Ok(DayOfWeek::Monday),
            2 => Ok(DayOfWeek::Tuesday),
            3 => Ok(DayOfWeek::Wednesday),
            4 => Ok(DayOfWeek::Thursday),
            5 => Ok(DayOfWeek::Friday),
            6 => Ok(DayOfWeek::Saturday),
            _ => Err(String::from_str("Invalid day of week")),
        }
    }

    /// The full English name of the day, as text.
    pub fn name(&self) -> (r: String)
        ensures
            r@ == self.name_text(),
    {
        match self {
            DayOfWeek::Sunday => String::from_str("Sunday"),
            DayOfWeek::Monday => String::from_str("Monday"),
            DayOfWeek::Tuesday => String::from_str("Tuesday"),
            DayOfWeek::Wednesday => String::from_str("Wednesday"),
            DayOfWeek::Thursday => String::from_str("Thursday"),
            DayOfWeek::Friday => String::from_str("Friday"),
            DayOfWeek::Saturday => String::from_str("Saturday"),
        }
    }
}

/// A compact textual label: the first three letters of the full name.
pub trait ShortTitle {
    /// What the short title reads, as a sequence of characters.
    spec fn short_text(&self) -> Seq<char>;

    fn short_title(&self) -> (r: String)
        ensures
            r@ == self.short_text(),
    ;
}

impl ShortTitle for DayOfWeek {
    /// The first three letters of the English day name.
    open spec fn short_text(&self) -> Seq<char> {
        self.name_text().take(3)
    }

    fn short_title(&self) -> (r: String)
        ensures
            r@ == self.short_text(),
    {
        let r = match self {
            DayOfWeek::Sunday => String::from_str("Sun"),
            DayOfWeek::Monday => String::from_str("Mon"),
            DayOfWeek::Tuesday => String::from_str("Tue"),
            DayOfWeek::Wednesday => String::from_str("Wed"),
            DayOfWeek::Thursday => String::from_str("Thu"),
            DayOfWeek::Friday => String::from_str("Fri"),
            DayOfWeek::Saturday => String::from_str("Sat"),
        };
        proof {
            reveal_strlit("Sunday");
            reveal_strlit("Sun");
            reveal_strlit("Monday");
            reveal_strlit("Mon");
            reveal_strlit("Tuesday");
            reveal_strlit("Tue");
            reveal_strlit("Wednesday");
            reveal_strlit("Wed");
            reveal_strlit("Thursday");
            reveal_strlit("Thu");
            reveal_strlit("Friday");
            reveal_strlit("Fri");
            reveal_strlit("Saturday");
            reveal_strlit("Sat");
            assert(r@ =~= self.name_text().take(3));
        }
        r
    }
}

} // verus!
