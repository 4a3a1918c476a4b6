//! Calendar dates and times of day, with validity predicates and the
//! renderings used for directory and file names.

use vstd::prelude::*;
use crate::text::{pad2_spec, pad4_spec, push_pad2, push_pad4};

verus! {

/// A calendar date with a four-digit year.
#[derive(Clone, Copy, PartialEq, Eq, Structural, Debug)]
pub struct Date {
    pub year: u16,
    pub month: u8,
    pub day: u8,
}

/// A time of day with second precision.
#[derive(Clone, Copy, PartialEq, Eq, Structural, Debug)]
pub struct TimeOfDay {
    pub hour: u8,
    pub minute: u8,
    pub second: u8,
}

/// A date extracted from one source, with the time of day when the source
/// carries one.  A missing time stands for midnight.
#[derive(Clone, Copy, Debug)]
pub struct CandidateDate {
    pub date: Date,
    pub time: Option<TimeOfDay>,
}

pub open spec fn is_leap_year(y: int) -> bool {
    (y % 4 == 0 && y % 100 != 0) || y % 400 == 0
}

pub open spec fn days_in_month(y: int, m: int) -> int {
    if m == 2 {
        if is_leap_year(y) { 29 } else { 28 }
    } else if m == 4 || m == 6 || m == 9 || m == 11 {
        30
    } else {
        31
    }
}

impl Date {
    /// A proleptic Gregorian calendar date whose year fits in four digits.
    pub open spec fn valid(self) -> bool {
        &&& 1 <= self.year <= 9999
        &&& 1 <= self.month <= 12
        &&& 1 <= self.day <= days_in_month(self.year as int, self.month as int)
    }

    /// Builds a date from the wide integer types that date parsers return,
    /// accepting exactly the valid four-digit-year calendar dates.
    pub fn checked(year: i32, month: u32, day: u32) -> (r: Option<Date>)
        ensures
            r is Some <==> {
                &&& 1 <= year <= 9999
                &&& 1 <= month <= 12
                &&& 1 <= day <= days_in_month(year as int, month as int)
            },
            r is Some ==> {
                &&& r->0.year == year
                &&& r->0.month == month
                &&& r->0.day == day
                &&& r->0.valid()
            },
    {
        if year < 1 || year > 9999 || month < 1 || month > 12 {
            return None;
        }
        let limit: u32 = if month == 2 {
            let leap = (year % 4 == 0 && year % 100 != 0) || year % 400 == 0;
            if leap { 29 } else { 28 }
        } else if month == 4 || month == 6 || month == 9 || month == 11 {
            30
        } else {
            31
        };
        if day < 1 || day > limit {
            return None;
        }
        Some(Date { year: year as u16, month: month as u8, day: day as u8 })
    }
}

impl TimeOfDay {
    pub open spec fn valid(self) -> bool {
        self.hour < 24 && self.minute < 60 && self.second < 60
    }
}

impl CandidateDate {
    pub open spec fn valid(self) -> bool {
        &&& self.date.valid()
        &&& match self.time {
            Some(t) => t.valid(),
            None => true,
        }
    }

    /// The time used where the rendering needs one: the carried time of day,
    /// or midnight.
    pub open spec fn spec_time_or_midnight(self) -> TimeOfDay {
        match self.time {
            Some(t) => t,
            None => TimeOfDay { hour: 0, minute: 0, second: 0 },
        }
    }

    pub fn time_or_midnight(&self) -> (r: TimeOfDay)
        ensures
            r == self.spec_time_or_midnight(),
    {
        match self.time {
            Some(t) => t,
            None => TimeOfDay { hour: 0, minute: 0, second: 0 },
        }
    }
}

/// The four-digit year, as it names the outer destination directory.
pub open spec fn year_name_spec(d: Date) -> Seq<char> {
    pad4_spec(d.year as int)
}

/// The `YYYY_MM_DD` prefix that names a date's bucket directory.
pub open spec fn dir_prefix_spec(d: Date) -> Seq<char> {
    pad4_spec(d.year as int) + seq!['_'] + pad2_spec(d.month as int) + seq!['_']
        + pad2_spec(d.day as int)
}

/// The canonical `YYYYMMDD_HHMMSS` file stem for a timestamp.
pub open spec fn canonical_stem_spec(c: CandidateDate) -> Seq<char> {
    pad4_spec(c.date.year as int) + pad2_spec(c.date.month as int)
        + pad2_spec(c.date.day as int) + seq!['_']
        + pad2_spec(c.spec_time_or_midnight().hour as int)
        + pad2_spec(c.spec_time_or_midnight().minute as int)
        + pad2_spec(c.spec_time_or_midnight().second as int)
}

pub fn year_name(d: &Date) -> (r: String)
    requires
        d.valid(),
    ensures
        r@ == year_name_spec(*d),
{
    let mut s = String::new();
    push_pad4(&mut s, d.year);
    s
}

pub fn dir_prefix(d: &Date) -> (r: String)
    requires
        d.valid(),
    ensures
        r@ == dir_prefix_spec(*d),
{
    proof {
        reveal_strlit("_");
    }
    let mut s = String::new();
    push_pad4(&mut s, d.year);
    s.append("_");
    push_pad2(&mut s, d.month);
    s.append("_");
    push_pad2(&mut s, d.day);
    proof {
        assert(s@ =~= dir_prefix_spec(*d));
    }
    s
}

pub fn canonical_stem(c: &CandidateDate) -> (r: String)
    requires
        c.valid(),
    ensures
        r@ == canonical_stem_spec(*c),
{
    proof {
        reveal_strlit("_");
    }
    let t = c.time_or_midnight();
    let mut s = String::new();
    push_pad4(&mut s, c.date.year);
    push_pad2(&mut s, c.date.month);
    push_pad2(&mut s, c.date.day);
    s.append("_");
    push_pad2(&mut s, t.hour);
    push_pad2(&mut s, t.minute);
    push_pad2(&mut s, t.second);
    proof {
        assert(s@ =~= canonical_stem_spec(*c));
    }
    s
}

} // verus!
