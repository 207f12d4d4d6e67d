//! Fixed-width time-of-day and calendar date codecs.

use vstd::prelude::*;

use crate::util::parse_error::ParseError;
use crate::util::text::all_digits;
use crate::util::text::digits_val;
use crate::util::text::is_ascii_chars;
use crate::util::text::lemma_num_str_val;
use crate::util::text::num_str;
use crate::util::text::parse_num;
use crate::util::text::push_num;

verus! {

/// Represents a specific time of day with second precision.
///
/// Does not contain any timezone information as the IGC specification
/// mandates UTC everywhere. The boundary values 24/60/60 are tolerated by
/// the format as sentinel-like upper bounds and are deliberately kept.
#[derive(Clone, Copy, Debug, PartialEq, Eq, Structural)]
pub struct Time {
    pub seconds: u8,
    pub minutes: u8,
    pub hours: u8,
}

/// The domain of a time value as the format declares it.
pub open spec fn time_wf(t: Time) -> bool {
    t.hours <= 24 && t.minutes <= 60 && t.seconds <= 60
}

/// What decoding a six-character "HHMMSS" window yields.
pub open spec fn spec_parse_time(s: Seq<char>) -> Result<Time, ParseError> {
    if s.len() != 6 {
        Err(ParseError::SyntaxError)
    } else if !is_ascii_chars(s) {
        Err(ParseError::NonASCIICharacters)
    } else if !(all_digits(s.subrange(0, 2)) && all_digits(s.subrange(2, 4)) && all_digits(
        s.subrange(4, 6),
    )) {
        Err(ParseError::SyntaxError)
    } else {
        let h = digits_val(s.subrange(0, 2));
        let m = digits_val(s.subrange(2, 4));
        let sec = digits_val(s.subrange(4, 6));
        if h > 24 || m > 60 || sec > 60 {
            Err(ParseError::NumberOutOfRange)
        } else {
            Ok(Time { seconds: sec as u8, minutes: m as u8, hours: h as u8 })
        }
    }
}

/// The canonical "HHMMSS" rendering of a time.
pub open spec fn spec_format_time(t: Time) -> Seq<char> {
    num_str(t.hours as int, 2) + num_str(t.minutes as int, 2) + num_str(t.seconds as int, 2)
}

impl Time {
    /// Parse a time string of the form "HHMMSS".
    pub fn parse(time_string: &str) -> (r: Result<Self, ParseError>)
        ensures
            r == spec_parse_time(time_string@),
    {
        if time_string.unicode_len() != 6 {
            return Err(ParseError::SyntaxError);
        }
        if !time_string.is_ascii() {
            return Err(ParseError::NonASCIICharacters);
        }
        let hours = match parse_num(time_string, 0, 2) {
            Some(v) => v,
            None => { return Err(ParseError::SyntaxError) },
        };
        let minutes = match parse_num(time_string, 2, 2) {
            Some(v) => v,
            None => { return Err(ParseError::SyntaxError) },
        };
        let seconds = match parse_num(time_string, 4, 2) {
            Some(v) => v,
            None => { return Err(ParseError::SyntaxError) },
        };
        if hours > 24 || minutes > 60 || seconds > 60 {
            Err(ParseError::NumberOutOfRange)
        } else {
            Ok(Time { seconds: seconds as u8, minutes: minutes as u8, hours: hours as u8 })
        }
    }

    /// Helper method to create a Time from a (hour, minute, second) triplet.
    pub fn from_hms(hours: u8, minutes: u8, seconds: u8) -> (r: Time)
        requires
            hours <= 24,
            minutes <= 60,
            seconds <= 60,
        ensures
            r == (Time { seconds, minutes, hours }),
    {
        Time { seconds, minutes, hours }
    }

    /// Helper method to get the seconds since midnight.
    pub fn seconds_since_midnight(&self) -> (r: u32)
        ensures
            r == self.hours as int * 3600 + self.minutes as int * 60 + self.seconds as int,
    {
        let mins: u32 = u32::from(self.hours) * 60 + u32::from(self.minutes);
        mins * 60 + u32::from(self.seconds)
    }

    /// Renders this time as it appears in an IGC file.
    pub fn format(&self) -> (r: String)
        requires
            time_wf(*self),
        ensures
            r@ == spec_format_time(*self),
    {
        proof {
            crate::util::text::lemma_pow10_values();
        }
        let mut out = String::new();
        push_num(&mut out, self.hours as u32, 2);
        push_num(&mut out, self.minutes as u32, 2);
        push_num(&mut out, self.seconds as u32, 2);
        out
    }
}

/// Decoding the canonical rendering of a well-formed time yields it back.
pub proof fn lemma_time_round_trip(t: Time)
    requires
        time_wf(t),
    ensures
        spec_parse_time(spec_format_time(t)) == Ok::<Time, ParseError>(t),
{
    let s = spec_format_time(t);
    crate::util::text::lemma_pow10_values();
    lemma_num_str_val(t.hours as int, 2);
    lemma_num_str_val(t.minutes as int, 2);
    lemma_num_str_val(t.seconds as int, 2);
    assert(s.subrange(0, 2) =~= num_str(t.hours as int, 2));
    assert(s.subrange(2, 4) =~= num_str(t.minutes as int, 2));
    assert(s.subrange(4, 6) =~= num_str(t.seconds as int, 2));
}


/// Every decoded time lies in the declared domain.
pub proof fn lemma_parse_time_wf(s: Seq<char>)
    requires
        spec_parse_time(s) is Ok,
    ensures
        time_wf(spec_parse_time(s)->Ok_0),
{
    crate::util::text::lemma_digits_val_bound(s.subrange(0, 2));
    crate::util::text::lemma_digits_val_bound(s.subrange(2, 4));
    crate::util::text::lemma_digits_val_bound(s.subrange(4, 6));
}

/// Represents a single Gregorian calendar day.
#[derive(Clone, Copy, Debug, PartialEq, Eq, Structural)]
pub struct Date {
    /// In the range [1, 31]
    pub day: u8,
    /// In the range [1, 12]
    pub month: u8,
    /// Only the least significant two digits of the year. In the range [0, 99]
    pub year: u8,
}

/// The domain of a date value as the format declares it. The decoder
/// tolerates day zero and month zero (an all-zero date marks an absent
/// flight date), so well-formedness only bounds the fields from above.
pub open spec fn date_wf(d: Date) -> bool {
    d.day <= 31 && d.month <= 12 && d.year <= 99
}

/// What decoding a six-character "DDMMYY" window yields.
pub open spec fn spec_parse_date(s: Seq<char>) -> Result<Date, ParseError> {
    if s.len() != 6 {
        Err(ParseError::SyntaxError)
    } else if !is_ascii_chars(s) {
        Err(ParseError::NonASCIICharacters)
    } else if !(all_digits(s.subrange(0, 2)) && all_digits(s.subrange(2, 4)) && all_digits(
        s.subrange(4, 6),
    )) {
        Err(ParseError::SyntaxError)
    } else {
        let d = digits_val(s.subrange(0, 2));
        let m = digits_val(s.subrange(2, 4));
        let y = digits_val(s.subrange(4, 6));
        if d > 31 || m > 12 {
            Err(ParseError::NumberOutOfRange)
        } else {
            Ok(Date { day: d as u8, month: m as u8, year: y as u8 })
        }
    }
}

/// The canonical "DDMMYY" rendering of a date.
pub open spec fn spec_format_date(d: Date) -> Seq<char> {
    num_str(d.day as int, 2) + num_str(d.month as int, 2) + num_str(d.year as int, 2)
}

impl Date {
    /// Parses a date string of the form "DDMMYY".
    /// There are not enough digits for the year in this format.
    pub fn parse(date_string: &str) -> (r: Result<Self, ParseError>)
        ensures
            r == spec_parse_date(date_string@),
    {
        if date_string.unicode_len() != 6 {
            return Err(ParseError::SyntaxError);
        }
        if !date_string.is_ascii() {
            return Err(ParseError::NonASCIICharacters);
        }
        let day = match parse_num(date_string, 0, 2) {
            Some(v) => v,
            None => { return Err(ParseError::SyntaxError) },
        };
        let month = match parse_num(date_string, 2, 2) {
            Some(v) => v,
            None => { return Err(ParseError::SyntaxError) },
        };
        let year = match parse_num(date_string, 4, 2) {
            Some(v) => v,
            None => { return Err(ParseError::SyntaxError) },
        };
        if day > 31 || month > 12 {
            Err(ParseError::NumberOutOfRange)
        } else {
            Ok(Date { day: day as u8, month: month as u8, year: year as u8 })
        }
    }

    /// Helper method to create a Date from a (day, month, year) triplet.
    pub fn from_dmy(day: u8, month: u8, year: u8) -> (r: Date)
        requires
            1 <= day <= 31,
            1 <= month <= 12,
            year <= 99,
        ensures
            r == (Date { day, month, year }),
    {
        Date { day, month, year }
    }

    /// Renders this date as it appears in an IGC file.
    pub fn format(&self) -> (r: String)
        requires
            date_wf(*self),
        ensures
            r@ == spec_format_date(*self),
    {
        proof {
            crate::util::text::lemma_pow10_values();
        }
        let mut out = String::new();
        push_num(&mut out, self.day as u32, 2);
        push_num(&mut out, self.month as u32, 2);
        push_num(&mut out, self.year as u32, 2);
        out
    }
}

/// Decoding the canonical rendering of a well-formed date yields it back.
pub proof fn lemma_date_round_trip(d: Date)
    requires
        date_wf(d),
    ensures
        spec_parse_date(spec_format_date(d)) == Ok::<Date, ParseError>(d),
{
    let s = spec_format_date(d);
    crate::util::text::lemma_pow10_values();
    lemma_num_str_val(d.day as int, 2);
    lemma_num_str_val(d.month as int, 2);
    lemma_num_str_val(d.year as int, 2);
    assert(s.subrange(0, 2) =~= num_str(d.day as int, 2));
    assert(s.subrange(2, 4) =~= num_str(d.month as int, 2));
    assert(s.subrange(4, 6) =~= num_str(d.year as int, 2));
}


/// Every decoded date lies in the declared domain.
pub proof fn lemma_parse_date_wf(s: Seq<char>)
    requires
        spec_parse_date(s) is Ok,
    ensures
        date_wf(spec_parse_date(s)->Ok_0),
{
    crate::util::text::lemma_digits_val_bound(s.subrange(0, 2));
    crate::util::text::lemma_digits_val_bound(s.subrange(2, 4));
    crate::util::text::lemma_digits_val_bound(s.subrange(4, 6));
    crate::util::text::lemma_pow10_values();
}

} // verus!
