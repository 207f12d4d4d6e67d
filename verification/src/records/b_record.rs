//! The fix record: one time-stamped position-and-altitude sample.

use vstd::prelude::*;

use crate::records::extension::Extendable;
use crate::util::coord::pos_wf;
use crate::util::coord::spec_format_pos;
use crate::util::coord::spec_parse_pos;
use crate::util::coord::RawPosition;
use crate::util::datetime::spec_format_time;
use crate::util::datetime::spec_parse_time;
use crate::util::datetime::time_wf;
use crate::util::datetime::Time;
use crate::util::parse_error::ParseError;
use crate::util::text::is_ascii_chars;
use crate::util::text::parse_i16_5;
use crate::util::text::push_char;
use crate::util::text::push_i16_5;
use crate::util::text::spec_format_i16_5;
use crate::util::text::spec_parse_i16_5;

verus! {

/// Possible values for the "fix valid" field of a B record.
#[derive(Clone, Copy, Debug, PartialEq, Eq, Structural)]
pub enum FixValid {
    Valid,
    NavWarning,
}

/// The letter naming a fix-validity flag.
pub open spec fn fix_valid_char(f: FixValid) -> char {
    match f {
        FixValid::Valid => 'A',
        FixValid::NavWarning => 'V',
    }
}

/// A fix record.
///
/// Only the fields for time, position, fix validity and the two altitudes
/// are decoded; everything beyond the mandatory region is kept as the
/// extension tail, addressed through the declared I-record ranges.
#[derive(Clone, Debug, PartialEq, Eq)]
pub struct BRecord<'a> {
    pub timestamp: Time,
    pub pos: RawPosition,
    pub fix_valid: FixValid,
    pub pressure_alt: i16,
    pub gps_alt: i16,
    pub extension_string: &'a str,
}

/// The mathematical value of a fix record.
pub ghost struct BRecordView {
    pub timestamp: Time,
    pub pos: RawPosition,
    pub fix_valid: FixValid,
    pub pressure_alt: i16,
    pub gps_alt: i16,
    pub extension_string: Seq<char>,
}

impl<'a> View for BRecord<'a> {
    type V = BRecordView;

    open spec fn view(&self) -> BRecordView {
        BRecordView {
            timestamp: self.timestamp,
            pos: self.pos,
            fix_valid: self.fix_valid,
            pressure_alt: self.pressure_alt,
            gps_alt: self.gps_alt,
            extension_string: self.extension_string@,
        }
    }
}

/// The domain of a decoded fix record: each altitude fits its five-column
/// field, and the tail is ASCII.
pub open spec fn b_wf(v: BRecordView) -> bool {
    &&& time_wf(v.timestamp)
    &&& pos_wf(v.pos)
    &&& -9999 <= v.pressure_alt <= 32767
    &&& -9999 <= v.gps_alt <= 32767
    &&& is_ascii_chars(v.extension_string)
}

/// What decoding a B-led line yields: time, position, fix validity, two
/// signed five-column altitudes and the extension tail.
pub open spec fn spec_parse_b(s: Seq<char>) -> Result<BRecordView, ParseError> {
    if s.len() < 35 {
        Err(ParseError::SyntaxError)
    } else if !is_ascii_chars(s) {
        Err(ParseError::NonASCIICharacters)
    } else {
        match spec_parse_time(s.subrange(1, 7)) {
            Err(e) => Err(e),
            Ok(timestamp) => match spec_parse_pos(s.subrange(7, 24)) {
                Err(e) => Err(e),
                Ok(pos) => {
                    if !(s[24] == 'A' || s[24] == 'V') {
                        Err(ParseError::SyntaxError)
                    } else {
                        let fix_valid = if s[24] == 'A' {
                            FixValid::Valid
                        } else {
                            FixValid::NavWarning
                        };
                        match spec_parse_i16_5(s.subrange(25, 30)) {
                            None => Err(ParseError::SyntaxError),
                            Some(pressure_alt) => match spec_parse_i16_5(s.subrange(30, 35)) {
                                None => Err(ParseError::SyntaxError),
                                Some(gps_alt) => Ok(BRecordView {
                                    timestamp,
                                    pos,
                                    fix_valid,
                                    pressure_alt: pressure_alt as i16,
                                    gps_alt: gps_alt as i16,
                                    extension_string: s.subrange(35, s.len() as int),
                                }),
                            },
                        }
                    }
                },
            },
        }
    }
}

/// The canonical rendering of a fix record.
pub open spec fn spec_format_b(v: BRecordView) -> Seq<char> {
    seq!['B'] + spec_format_time(v.timestamp) + spec_format_pos(v.pos) + seq![
        fix_valid_char(v.fix_valid),
    ] + spec_format_i16_5(v.pressure_alt as int) + spec_format_i16_5(v.gps_alt as int)
        + v.extension_string
}

impl<'a> BRecord<'a> {
    /// Parse an IGC B record string.
    pub fn parse(line: &'a str) -> (r: Result<Self, ParseError>)
        ensures
            match r {
                Ok(b) => spec_parse_b(line@) == Ok::<BRecordView, ParseError>(b@),
                Err(e) => spec_parse_b(line@) == Err::<BRecordView, ParseError>(e),
            },
    {
        let len = line.unicode_len();
        if len < 35 {
            return Err(ParseError::SyntaxError);
        }
        if !line.is_ascii() {
            return Err(ParseError::NonASCIICharacters);
        }
        let timestamp = match Time::parse(line.substring_ascii(1, 7)) {
            Ok(t) => t,
            Err(e) => { return Err(e) },
        };
        let pos = match RawPosition::parse(line.substring_ascii(7, 24)) {
            Ok(p) => p,
            Err(e) => { return Err(e) },
        };
        let valid_char = line.get_char(24);
        let fix_valid = if valid_char == 'A' {
            FixValid::Valid
        } else if valid_char == 'V' {
            FixValid::NavWarning
        } else {
            return Err(ParseError::SyntaxError);
        };
        let pressure_alt = match parse_i16_5(line, 25) {
            Some(v) => v,
            None => { return Err(ParseError::SyntaxError) },
        };
        let gps_alt = match parse_i16_5(line, 30) {
            Some(v) => v,
            None => { return Err(ParseError::SyntaxError) },
        };
        let extension_string = line.substring_ascii(35, len);
        Ok(BRecord { timestamp, pos, fix_valid, pressure_alt, gps_alt, extension_string })
    }

    /// Renders this record as it should appear in an IGC file.
    pub fn format(&self) -> (r: String)
        requires
            time_wf(self.timestamp),
            pos_wf(self.pos),
            -9999 <= self.pressure_alt <= 32767,
            -9999 <= self.gps_alt <= 32767,
        ensures
            r@ == spec_format_b(self@),
    {
        let mut out = String::new();
        push_char(&mut out, 'B');
        let time_str = self.timestamp.format();
        out.append(time_str.as_str());
        let pos_str = self.pos.format();
        out.append(pos_str.as_str());
        let valid = match self.fix_valid {
            FixValid::Valid => 'A',
            FixValid::NavWarning => 'V',
        };
        push_char(&mut out, valid);
        push_i16_5(&mut out, self.pressure_alt);
        push_i16_5(&mut out, self.gps_alt);
        out.append(self.extension_string);
        proof {
            assert(out@ =~= spec_format_b(self@));
        }
        out
    }
}

impl<'a> Extendable for BRecord<'a> {
    open spec fn spec_base_length() -> int {
        35
    }

    open spec fn spec_extension_string(&self) -> Seq<char> {
        self.extension_string@
    }

    fn base_length(&self) -> (r: usize) {
        35
    }

    fn extension_string(&self) -> (r: &str) {
        self.extension_string
    }
}

/// Decoding the canonical rendering of a well-formed fix record yields it
/// back.
pub proof fn lemma_b_round_trip(v: BRecordView)
    requires
        b_wf(v),
    ensures
        spec_format_b(v)[0] == 'B',
        spec_format_b(v).len() >= 35,
        spec_parse_b(spec_format_b(v)) == Ok::<BRecordView, ParseError>(v),
{
    let s = spec_format_b(v);
    let t = spec_format_time(v.timestamp);
    let p = spec_format_pos(v.pos);
    let pa = spec_format_i16_5(v.pressure_alt as int);
    let ga = spec_format_i16_5(v.gps_alt as int);
    crate::util::text::lemma_pow10_values();
    crate::util::datetime::lemma_time_round_trip(v.timestamp);
    crate::util::coord::lemma_pos_round_trip(v.pos);
    crate::util::text::lemma_i16_5_round_trip(v.pressure_alt as int);
    crate::util::text::lemma_i16_5_round_trip(v.gps_alt as int);
    crate::util::text::lemma_num_str_val(v.timestamp.hours as int, 2);
    crate::util::text::lemma_num_str_val(v.timestamp.minutes as int, 2);
    crate::util::text::lemma_num_str_val(v.timestamp.seconds as int, 2);
    assert(t.len() == 6);
    assert(p.len() == 17) by {
        crate::util::text::lemma_num_str_val(v.pos.lat.0.degrees as int, 2);
        crate::util::text::lemma_num_str_val(v.pos.lat.0.minute_thousandths as int, 5);
        crate::util::text::lemma_num_str_val(v.pos.lon.0.degrees as int, 3);
        crate::util::text::lemma_num_str_val(v.pos.lon.0.minute_thousandths as int, 5);
    }
    assert(s.len() == 35 + v.extension_string.len());
    assert(s.subrange(1, 7) =~= t);
    assert(s.subrange(7, 24) =~= p);
    assert(s[24] == fix_valid_char(v.fix_valid));
    assert(s.subrange(25, 30) =~= pa);
    assert(s.subrange(30, 35) =~= ga);
    assert(s.subrange(35, s.len() as int) =~= v.extension_string);
    assert(is_ascii_chars(t));
    assert(is_ascii_chars(p));
    assert forall|i: int| 0 <= i < s.len() implies '\0' <= #[trigger] s[i] <= '\u{7f}' by {
        if i == 0 {
            assert(s[i] == 'B');
        } else if i < 7 {
            assert(s[i] == t[i - 1]);
        } else if i < 24 {
            assert(s[i] == p[i - 7]);
        } else if i == 24 {
            assert(s[i] == fix_valid_char(v.fix_valid));
        } else if i < 30 {
            assert(s[i] == pa[i - 25]);
        } else if i < 35 {
            assert(s[i] == ga[i - 30]);
        } else {
            assert(s[i] == v.extension_string[i - 35]);
        }
    }
    assert(s[24] == 'A' || s[24] == 'V');
    assert(v.fix_valid == (if s[24] == 'A' {
        FixValid::Valid
    } else {
        FixValid::NavWarning
    }));
}


/// Every decoded fix record is well formed, so the round trip law covers
/// the decoder's whole image.
pub proof fn lemma_parse_b_wf(s: Seq<char>)
    requires
        spec_parse_b(s) is Ok,
    ensures
        b_wf(spec_parse_b(s)->Ok_0),
{
    crate::util::datetime::lemma_parse_time_wf(s.subrange(1, 7));
    crate::util::coord::lemma_parse_pos_wf(s.subrange(7, 24));
    crate::util::text::lemma_parse_i16_5_bounds(s.subrange(25, 30));
    crate::util::text::lemma_parse_i16_5_bounds(s.subrange(30, 35));
    let ext = s.subrange(35, s.len() as int);
    assert forall|i: int| 0 <= i < ext.len() implies '\0' <= #[trigger] ext[i] <= '\u{7f}' by {
        assert(ext[i] == s[i + 35]);
    }
}

} // verus!
