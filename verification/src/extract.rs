//! The two date extractors: one for the timestamp field embedded in a
//! file's metadata, one for date patterns in the file's name.

use vstd::prelude::*;
use chrono::Datelike;
use crate::date::{CandidateDate, Date, TimeOfDay, days_in_month};

verus! {

// ---------------------------------------------------------------------------
// Metadata timestamp field
// ---------------------------------------------------------------------------

pub open spec fn is_ascii_digit(b: u8) -> bool {
    48 <= b <= 57
}

pub open spec fn digit_val(b: u8) -> int {
    b - 48
}

/// The value of the two decimal digits at `i` and `i + 1`.
pub open spec fn num2_at(d: Seq<u8>, i: int) -> int {
    10 * digit_val(d[i]) + digit_val(d[i + 1])
}

/// The value of the four decimal digits starting at `i`.
pub open spec fn num4_at(d: Seq<u8>, i: int) -> int {
    1000 * digit_val(d[i]) + 100 * digit_val(d[i + 1]) + 10 * digit_val(d[i + 2])
        + digit_val(d[i + 3])
}

/// Whether a metadata timestamp field holds the fixed
/// `year:month:day hour:minute:second` layout: separators at their fixed
/// offsets and decimal digits everywhere else.  Trailing bytes are ignored.
pub open spec fn datetime_field_ok(d: Seq<u8>) -> bool {
    &&& d.len() >= 19
    &&& d[4] == 58
    &&& d[7] == 58
    &&& d[10] == 32
    &&& d[13] == 58
    &&& d[16] == 58
    &&& is_ascii_digit(d[0]) && is_ascii_digit(d[1]) && is_ascii_digit(d[2])
        && is_ascii_digit(d[3])
    &&& is_ascii_digit(d[5]) && is_ascii_digit(d[6])
    &&& is_ascii_digit(d[8]) && is_ascii_digit(d[9])
    &&& is_ascii_digit(d[11]) && is_ascii_digit(d[12])
    &&& is_ascii_digit(d[14]) && is_ascii_digit(d[15])
    &&& is_ascii_digit(d[17]) && is_ascii_digit(d[18])
}

/// Relies on exif's `DateTime::from_ascii`: it accepts exactly the fields
/// with separators `:`, `:`, ` `, `:`, `:` at offsets 4, 7, 10, 13 and 16
/// and decimal digits in the six number groups (a blank field has spaces
/// there and is rejected), and it returns the decimal values of the groups
/// without range validation.
#[verifier::external_body]
fn parse_datetime_field(data: &Vec<u8>) -> (r: Option<(u16, u8, u8, u8, u8, u8)>)
    ensures
        r is Some <==> datetime_field_ok(data@),
        r matches Some(t) ==> {
            &&& t.0 == num4_at(data@, 0)
            &&& t.1 == num2_at(data@, 5)
            &&& t.2 == num2_at(data@, 8)
            &&& t.3 == num2_at(data@, 11)
            &&& t.4 == num2_at(data@, 14)
            &&& t.5 == num2_at(data@, 17)
        },
{
    match exif::DateTime::from_ascii(data.as_slice()) {
        Ok(dt) => Some((dt.year, dt.month, dt.day, dt.hour, dt.minute, dt.second)),
        Err(_) => None,
    }
}

/// What the metadata extractor yields for a raw timestamp field: the parsed
/// timestamp when the field is well-formed and in calendar range, and
/// nothing otherwise.
pub open spec fn metadata_candidate_spec(d: Seq<u8>) -> Option<CandidateDate> {
    if datetime_field_ok(d) {
        let y = num4_at(d, 0);
        let mo = num2_at(d, 5);
        let da = num2_at(d, 8);
        let h = num2_at(d, 11);
        let mi = num2_at(d, 14);
        let s = num2_at(d, 17);
        if 1 <= y <= 9999 && 1 <= mo <= 12 && 1 <= da <= days_in_month(y, mo) && h < 24
            && mi < 60 && s < 60 {
            Some(
                CandidateDate {
                    date: Date { year: y as u16, month: mo as u8, day: da as u8 },
                    time: Some(
                        TimeOfDay { hour: h as u8, minute: mi as u8, second: s as u8 },
                    ),
                },
            )
        } else {
            None
        }
    } else {
        None
    }
}

/// Parses the raw bytes of a metadata timestamp field.  A malformed or
/// out-of-range field yields `None`, never an error: a missing metadata date
/// is a recoverable condition.
pub fn extract_date_from_metadata(data: &Vec<u8>) -> (r: Option<CandidateDate>)
    ensures
        r == metadata_candidate_spec(data@),
        r is Some ==> r->0.valid(),
{
    match parse_datetime_field(data) {
        None => None,
        Some((y, mo, da, h, mi, s)) => {
            match Date::checked(y as i32, mo as u32, da as u32) {
                None => None,
                Some(date) => {
                    if h < 24 && mi < 60 && s < 60 {
                        Some(
                            CandidateDate {
                                date,
                                time: Some(TimeOfDay { hour: h, minute: mi, second: s }),
                            },
                        )
                    } else {
                        None
                    }
                },
            }
        },
    }
}

// ---------------------------------------------------------------------------
// Filename patterns
// ---------------------------------------------------------------------------

/// The ordered list of date-pattern templates tried against a file's stem.
/// The first template that parses wins, so the more specific forms stand
/// before the shorter ones they extend.
pub open spec fn patterns() -> Seq<Seq<char>> {
    seq![
        "%Y:%m:%d %H:%M:%S"@,
        "IMG-%Y%m%d-WA%f"@,
        "PANO_%Y%m%d_%H%M%S"@,
        "IMG_%Y%m%d_%H%M%S"@,
        "IMG_%Y-%m-%d-%f"@,
        "%Y%m%d_%H%M%S"@,
        "VID-%Y%m%d-WA%f"@,
        "VID_%Y%m%d_%H%M%S"@,
        "%Y%m%d_%H%M%S_%f"@,
        "%Y%m%d-WA%f"@,
        "%Y-%m-%d %H.%M.%S"@,
    ]
}

pub const PATTERN_COUNT: usize = 11;

fn pattern_at(i: usize) -> (r: &'static str)
    requires
        i < PATTERN_COUNT,
    ensures
        r@ == patterns()[i as int],
{
    match i {
        0 => "%Y:%m:%d %H:%M:%S",
        1 => "IMG-%Y%m%d-WA%f",
        2 => "PANO_%Y%m%d_%H%M%S",
        3 => "IMG_%Y%m%d_%H%M%S",
        4 => "IMG_%Y-%m-%d-%f",
        5 => "%Y%m%d_%H%M%S",
        6 => "VID-%Y%m%d-WA%f",
        7 => "VID_%Y%m%d_%H%M%S",
        8 => "%Y%m%d_%H%M%S_%f",
        9 => "%Y%m%d-WA%f",
        _ => "%Y-%m-%d %H.%M.%S",
    }
}

/// The calendar date that a date-pattern template extracts from a string,
/// or nothing when the string does not match the template.  The result is a
/// function of the string and the template alone.
pub uninterp spec fn strptime_date(s: Seq<char>, fmt: Seq<char>) -> Option<(i32, u32, u32)>;

/// Relies on chrono's `NaiveDate::parse_from_str` (and the `Datelike`
/// accessors): the result depends on the string and the format alone, and a
/// parsed `NaiveDate` is a valid calendar date, so its month is 1 to 12 and
/// its day 1 to 31.
#[verifier::external_body]
fn parse_date_format(s: &str, fmt: &str) -> (r: Option<(i32, u32, u32)>)
    ensures
        r == strptime_date(s@, fmt@),
        r matches Some(t) ==> 1 <= t.1 <= 12 && 1 <= t.2 <= 31,
{
    match chrono::NaiveDate::parse_from_str(s, fmt) {
        Ok(d) => Some((d.year(), d.month(), d.day())),
        Err(_) => None,
    }
}

/// The result of trying the templates from `i` on in order: the first match
/// wins.
pub open spec fn first_match(s: Seq<char>, i: int) -> Option<(i32, u32, u32)>
    decreases PATTERN_COUNT - i,
{
    if i < 0 || i >= PATTERN_COUNT {
        None
    } else {
        match strptime_date(s, patterns()[i]) {
            Some(t) => Some(t),
            None => first_match(s, i + 1),
        }
    }
}

/// What the filename extractor yields for a file stem: the date of the first
/// matching template, when that date is in calendar range with a four-digit
/// year; no time of day.
pub open spec fn filename_candidate_spec(s: Seq<char>) -> Option<CandidateDate> {
    match first_match(s, 0) {
        None => None,
        Some(t) => {
            if 1 <= t.0 <= 9999 && 1 <= t.1 <= 12 && 1 <= t.2
                <= days_in_month(t.0 as int, t.1 as int) {
                Some(
                    CandidateDate {
                        date: Date { year: t.0 as u16, month: t.1 as u8, day: t.2 as u8 },
                        time: None,
                    },
                )
            } else {
                None
            }
        },
    }
}

/// Tries the date-pattern templates against a file's stem in their fixed
/// order; the first that parses wins.  A stem that matches no template
/// yields `None`, never an error.
pub fn extract_date_from_filename(filename: &str) -> (r: Option<CandidateDate>)
    ensures
        r == filename_candidate_spec(filename@),
        r is Some ==> r->0.valid(),
{
    let mut i: usize = 0;
    while i < PATTERN_COUNT
        invariant
            i <= PATTERN_COUNT,
            first_match(filename@, 0) == first_match(filename@, i as int),
        decreases PATTERN_COUNT - i,
    {
        let fmt = pattern_at(i);
        match parse_date_format(filename, fmt) {
            Some((y, mo, da)) => {
                assert(first_match(filename@, i as int) == Some((y, mo, da)));
                match Date::checked(y, mo, da) {
                    Some(date) => {
                        return Some(CandidateDate { date, time: None });
                    },
                    None => {
                        return None;
                    },
                }
            },
            None => {
                i += 1;
            },
        }
    }
    None
}

} // verus!
