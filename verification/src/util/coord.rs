//! Fixed-width geographic coordinate codecs: degrees, minute-thousandths
//! and a hemisphere letter.

use vstd::prelude::*;

use crate::util::parse_error::ParseError;
use crate::util::text::all_digits;
use crate::util::text::digits_val;
use crate::util::text::is_ascii_chars;
use crate::util::text::lemma_num_str_val;
use crate::util::text::lemma_pow10_values;
use crate::util::text::num_str;
use crate::util::text::parse_num;
use crate::util::text::push_char;
use crate::util::text::push_num;

verus! {

/// Enumeration of cardinal directions.
#[derive(Debug, PartialEq, Eq, Structural, Clone, Copy)]
pub enum Compass {
    North,
    South,
    East,
    West,
}

/// The single letter naming a cardinal direction.
pub open spec fn compass_char(c: Compass) -> char {
    match c {
        Compass::North => 'N',
        Compass::South => 'S',
        Compass::East => 'E',
        Compass::West => 'W',
    }
}

impl Compass {
    /// The single letter naming this direction.
    pub fn to_char(&self) -> (r: char)
        ensures
            r == compass_char(*self),
    {
        match self {
            Compass::North => 'N',
            Compass::South => 'S',
            Compass::East => 'E',
            Compass::West => 'W',
        }
    }
}

/// Represents a latitude OR longitude, closely representing the form used
/// in IGC files.
#[derive(Debug, PartialEq, Eq, Structural, Clone, Copy)]
pub struct RawCoord {
    /// In the range [0, 90] for a latitude, [0, 180] for a longitude.
    pub degrees: u8,
    /// In the range [0, 60000].
    pub minute_thousandths: u16,
    pub sign: Compass,
}

#[derive(Debug, PartialEq, Eq, Structural, Clone, Copy)]
pub struct RawLatitude(pub RawCoord);

#[derive(Debug, PartialEq, Eq, Structural, Clone, Copy)]
pub struct RawLongitude(pub RawCoord);

/// The domain of a decoded latitude.
pub open spec fn lat_wf(l: RawLatitude) -> bool {
    &&& l.0.degrees <= 90
    &&& l.0.minute_thousandths <= 60000
    &&& (l.0.sign == Compass::North || l.0.sign == Compass::South)
}

/// The domain of a decoded longitude.
pub open spec fn lon_wf(l: RawLongitude) -> bool {
    &&& l.0.degrees <= 180
    &&& l.0.minute_thousandths <= 60000
    &&& (l.0.sign == Compass::East || l.0.sign == Compass::West)
}

/// What decoding an eight-character "DDMMMMMH" window yields.
pub open spec fn spec_parse_lat(s: Seq<char>) -> Result<RawLatitude, ParseError> {
    if s.len() != 8 {
        Err(ParseError::SyntaxError)
    } else if !is_ascii_chars(s) {
        Err(ParseError::NonASCIICharacters)
    } else if !(all_digits(s.subrange(0, 2)) && all_digits(s.subrange(2, 7))) {
        Err(ParseError::SyntaxError)
    } else if !(s[7] == 'N' || s[7] == 'S') {
        Err(ParseError::SyntaxError)
    } else {
        let deg = digits_val(s.subrange(0, 2));
        let mt = digits_val(s.subrange(2, 7));
        let sign = if s[7] == 'N' {
            Compass::North
        } else {
            Compass::South
        };
        if deg > 90 || mt > 60000 {
            Err(ParseError::NumberOutOfRange)
        } else {
            Ok(RawLatitude(RawCoord { degrees: deg as u8, minute_thousandths: mt as u16, sign }))
        }
    }
}

/// What decoding a nine-character "DDDMMMMMH" window yields.
pub open spec fn spec_parse_lon(s: Seq<char>) -> Result<RawLongitude, ParseError> {
    if s.len() != 9 {
        Err(ParseError::SyntaxError)
    } else if !is_ascii_chars(s) {
        Err(ParseError::NonASCIICharacters)
    } else if !(all_digits(s.subrange(0, 3)) && all_digits(s.subrange(3, 8))) {
        Err(ParseError::SyntaxError)
    } else if !(s[8] == 'E' || s[8] == 'W') {
        Err(ParseError::SyntaxError)
    } else {
        let deg = digits_val(s.subrange(0, 3));
        let mt = digits_val(s.subrange(3, 8));
        let sign = if s[8] == 'E' {
            Compass::East
        } else {
            Compass::West
        };
        if deg > 180 || mt > 60000 {
            Err(ParseError::NumberOutOfRange)
        } else {
            Ok(RawLongitude(RawCoord { degrees: deg as u8, minute_thousandths: mt as u16, sign }))
        }
    }
}

/// The canonical rendering of a latitude.
pub open spec fn spec_format_lat(l: RawLatitude) -> Seq<char> {
    num_str(l.0.degrees as int, 2) + num_str(l.0.minute_thousandths as int, 5) + seq![
        compass_char(l.0.sign),
    ]
}

/// The canonical rendering of a longitude.
pub open spec fn spec_format_lon(l: RawLongitude) -> Seq<char> {
    num_str(l.0.degrees as int, 3) + num_str(l.0.minute_thousandths as int, 5) + seq![
        compass_char(l.0.sign),
    ]
}

impl RawLatitude {
    pub fn new(degrees: u8, minute_thousandths: u16, sign: Compass) -> (r: Self)
        requires
            degrees <= 90,
            minute_thousandths < 60000,
            sign == Compass::North || sign == Compass::South,
        ensures
            r == RawLatitude(RawCoord { degrees, minute_thousandths, sign }),
    {
        RawLatitude(RawCoord { degrees, minute_thousandths, sign })
    }

    /// Parse a latitude string of the form "DDMMMMMS".
    pub fn parse(lat_string: &str) -> (r: Result<Self, ParseError>)
        ensures
            r == spec_parse_lat(lat_string@),
    {
        if lat_string.unicode_len() != 8 {
            return Err(ParseError::SyntaxError);
        }
        if !lat_string.is_ascii() {
            return Err(ParseError::NonASCIICharacters);
        }
        let degrees = match parse_num(lat_string, 0, 2) {
            Some(v) => v,
            None => { return Err(ParseError::SyntaxError) },
        };
        let mt = match parse_num(lat_string, 2, 5) {
            Some(v) => v,
            None => { return Err(ParseError::SyntaxError) },
        };
        let sign_char = lat_string.get_char(7);
        let sign = match sign_char {
            'N' => Compass::North,
            'S' => Compass::South,
            _ => { return Err(ParseError::SyntaxError) },
        };
        if degrees > 90 || mt > 60000 {
            Err(ParseError::NumberOutOfRange)
        } else {
            Ok(RawLatitude(
                RawCoord { degrees: degrees as u8, minute_thousandths: mt as u16, sign },
            ))
        }
    }

    /// Renders this latitude as it appears in an IGC file.
    pub fn format(&self) -> (r: String)
        requires
            lat_wf(*self),
        ensures
            r@ == spec_format_lat(*self),
    {
        proof {
            lemma_pow10_values();
        }
        let mut out = String::new();
        push_num(&mut out, self.0.degrees as u32, 2);
        push_num(&mut out, self.0.minute_thousandths as u32, 5);
        push_char(&mut out, self.0.sign.to_char());
        out
    }
}

impl RawLongitude {
    pub fn new(degrees: u8, minute_thousandths: u16, sign: Compass) -> (r: Self)
        requires
            degrees <= 180,
            minute_thousandths < 60000,
            sign == Compass::East || sign == Compass::West,
        ensures
            r == RawLongitude(RawCoord { degrees, minute_thousandths, sign }),
    {
        RawLongitude(RawCoord { degrees, minute_thousandths, sign })
    }

    /// Parse a longitude string of the form "DDDMMMMMW".
    pub fn parse(lon_string: &str) -> (r: Result<Self, ParseError>)
        ensures
            r == spec_parse_lon(lon_string@),
    {
        if lon_string.unicode_len() != 9 {
            return Err(ParseError::SyntaxError);
        }
        if !lon_string.is_ascii() {
            return Err(ParseError::NonASCIICharacters);
        }
        let degrees = match parse_num(lon_string, 0, 3) {
            Some(v) => v,
            None => { return Err(ParseError::SyntaxError) },
        };
        let mt = match parse_num(lon_string, 3, 5) {
            Some(v) => v,
            None => { return Err(ParseError::SyntaxError) },
        };
        let sign_char = lon_string.get_char(8);
        let sign = match sign_char {
            'E' => Compass::East,
            'W' => Compass::West,
            _ => { return Err(ParseError::SyntaxError) },
        };
        if degrees > 180 || mt > 60000 {
            Err(ParseError::NumberOutOfRange)
        } else {
            Ok(RawLongitude(
                RawCoord { degrees: degrees as u8, minute_thousandths: mt as u16, sign },
            ))
        }
    }

    /// Renders this longitude as it appears in an IGC file.
    pub fn format(&self) -> (r: String)
        requires
            lon_wf(*self),
        ensures
            r@ == spec_format_lon(*self),
    {
        proof {
            lemma_pow10_values();
        }
        let mut out = String::new();
        push_num(&mut out, self.0.degrees as u32, 3);
        push_num(&mut out, self.0.minute_thousandths as u32, 5);
        push_char(&mut out, self.0.sign.to_char());
        out
    }
}

/// Decoding the canonical rendering of a well-formed latitude yields it back.
pub proof fn lemma_lat_round_trip(l: RawLatitude)
    requires
        lat_wf(l),
    ensures
        spec_parse_lat(spec_format_lat(l)) == Ok::<RawLatitude, ParseError>(l),
{
    let s = spec_format_lat(l);
    lemma_pow10_values();
    lemma_num_str_val(l.0.degrees as int, 2);
    lemma_num_str_val(l.0.minute_thousandths as int, 5);
    assert(s.subrange(0, 2) =~= num_str(l.0.degrees as int, 2));
    assert(s.subrange(2, 7) =~= num_str(l.0.minute_thousandths as int, 5));
    assert(s[7] == compass_char(l.0.sign));
}

/// Decoding the canonical rendering of a well-formed longitude yields it back.
pub proof fn lemma_lon_round_trip(l: RawLongitude)
    requires
        lon_wf(l),
    ensures
        spec_parse_lon(spec_format_lon(l)) == Ok::<RawLongitude, ParseError>(l),
{
    let s = spec_format_lon(l);
    lemma_pow10_values();
    lemma_num_str_val(l.0.degrees as int, 3);
    lemma_num_str_val(l.0.minute_thousandths as int, 5);
    assert(s.subrange(0, 3) =~= num_str(l.0.degrees as int, 3));
    assert(s.subrange(3, 8) =~= num_str(l.0.minute_thousandths as int, 5));
    assert(s[8] == compass_char(l.0.sign));
}

/// A raw lat/lon pair.
#[derive(Debug, PartialEq, Eq, Structural, Clone, Copy)]
pub struct RawPosition {
    pub lat: RawLatitude,
    pub lon: RawLongitude,
}

/// The domain of a decoded position.
pub open spec fn pos_wf(p: RawPosition) -> bool {
    lat_wf(p.lat) && lon_wf(p.lon)
}

/// What decoding a seventeen-character position window yields.
pub open spec fn spec_parse_pos(s: Seq<char>) -> Result<RawPosition, ParseError> {
    if s.len() != 17 {
        Err(ParseError::SyntaxError)
    } else if !is_ascii_chars(s) {
        Err(ParseError::NonASCIICharacters)
    } else {
        match spec_parse_lat(s.subrange(0, 8)) {
            Err(e) => Err(e),
            Ok(lat) => match spec_parse_lon(s.subrange(8, 17)) {
                Err(e) => Err(e),
                Ok(lon) => Ok(RawPosition { lat, lon }),
            },
        }
    }
}

/// The canonical rendering of a position.
pub open spec fn spec_format_pos(p: RawPosition) -> Seq<char> {
    spec_format_lat(p.lat) + spec_format_lon(p.lon)
}

impl RawPosition {
    /// Parse a position string of the form "DDMMMMMSDDDMMMMMW".
    pub fn parse(pos_string: &str) -> (r: Result<Self, ParseError>)
        ensures
            r == spec_parse_pos(pos_string@),
    {
        if pos_string.unicode_len() != 17 {
            return Err(ParseError::SyntaxError);
        }
        if !pos_string.is_ascii() {
            return Err(ParseError::NonASCIICharacters);
        }
        let lat = match RawLatitude::parse(pos_string.substring_ascii(0, 8)) {
            Ok(l) => l,
            Err(e) => { return Err(e) },
        };
        let lon = match RawLongitude::parse(pos_string.substring_ascii(8, 17)) {
            Ok(l) => l,
            Err(e) => { return Err(e) },
        };
        Ok(RawPosition { lat, lon })
    }

    /// Renders this position as it appears in an IGC file.
    pub fn format(&self) -> (r: String)
        requires
            pos_wf(*self),
        ensures
            r@ == spec_format_pos(*self),
    {
        let mut out = self.lat.format();
        let lon = self.lon.format();
        out.append(lon.as_str());
        out
    }
}

/// Decoding the canonical rendering of a well-formed position yields it back.
pub proof fn lemma_pos_round_trip(p: RawPosition)
    requires
        pos_wf(p),
    ensures
        spec_parse_pos(spec_format_pos(p)) == Ok::<RawPosition, ParseError>(p),
{
    let s = spec_format_pos(p);
    lemma_lat_round_trip(p.lat);
    lemma_lon_round_trip(p.lon);
    lemma_pow10_values();
    lemma_num_str_val(p.lat.0.degrees as int, 2);
    lemma_num_str_val(p.lat.0.minute_thousandths as int, 5);
    lemma_num_str_val(p.lon.0.degrees as int, 3);
    lemma_num_str_val(p.lon.0.minute_thousandths as int, 5);
    assert(s.subrange(0, 8) =~= spec_format_lat(p.lat));
    assert(s.subrange(8, 17) =~= spec_format_lon(p.lon));
    assert(is_ascii_chars(s)) by {
        assert(forall|i: int|
            0 <= i < 8 ==> s[i] == #[trigger] spec_format_lat(p.lat)[i]);
        assert(forall|i: int|
            8 <= i < 17 ==> #[trigger] s[i] == spec_format_lon(p.lon)[i - 8]);
    }
}


/// Every decoded latitude lies in the declared domain.
pub proof fn lemma_parse_lat_wf(s: Seq<char>)
    requires
        spec_parse_lat(s) is Ok,
    ensures
        lat_wf(spec_parse_lat(s)->Ok_0),
{
    crate::util::text::lemma_digits_val_bound(s.subrange(0, 2));
    crate::util::text::lemma_digits_val_bound(s.subrange(2, 7));
}

/// Every decoded longitude lies in the declared domain.
pub proof fn lemma_parse_lon_wf(s: Seq<char>)
    requires
        spec_parse_lon(s) is Ok,
    ensures
        lon_wf(spec_parse_lon(s)->Ok_0),
{
    crate::util::text::lemma_digits_val_bound(s.subrange(0, 3));
    crate::util::text::lemma_digits_val_bound(s.subrange(3, 8));
}

/// Every decoded position lies in the declared domain.
pub proof fn lemma_parse_pos_wf(s: Seq<char>)
    requires
        spec_parse_pos(s) is Ok,
    ensures
        pos_wf(spec_parse_pos(s)->Ok_0),
{
    lemma_parse_lat_wf(s.subrange(0, 8));
    lemma_parse_lon_wf(s.subrange(8, 17));
}

} // verus!
