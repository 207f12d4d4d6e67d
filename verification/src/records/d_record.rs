//! The differential GPS station record.

use vstd::prelude::*;

use crate::util::parse_error::ParseError;
use crate::util::text::is_ascii_chars;
use crate::util::text::push_char;

verus! {

/// The source quality of a differential GPS fix, with a fallback for an
/// unrecognised qualifier byte.
#[derive(Clone, Copy, Debug, PartialEq, Eq, Structural)]
pub enum GpsQualifier {
    Gps,
    DGps,
    Unrecognized(u8),
}

/// Which qualifier a byte names.
pub open spec fn spec_parse_qualifier(c: char) -> GpsQualifier {
    if c == '1' {
        GpsQualifier::Gps
    } else if c == '2' {
        GpsQualifier::DGps
    } else {
        GpsQualifier::Unrecognized(c as u8)
    }
}

/// The byte naming a qualifier.
pub open spec fn spec_qualifier_char(q: GpsQualifier) -> char {
    match q {
        GpsQualifier::Gps => '1',
        GpsQualifier::DGps => '2',
        GpsQualifier::Unrecognized(b) => b as char,
    }
}

/// A qualifier that renders to a single ASCII byte and decodes back to
/// itself.
pub open spec fn qualifier_wf(q: GpsQualifier) -> bool {
    match q {
        GpsQualifier::Unrecognized(b) => b <= 127 && b != 49 && b != 50,  // not '1' or '2'
        _ => true,
    }
}

/// A differential GPS station record.
#[derive(Clone, Debug, PartialEq, Eq)]
pub struct DRecord<'a> {
    pub qualifier: GpsQualifier,
    pub station_id: &'a str,
}

/// The mathematical value of a station record.
pub ghost struct DRecordView {
    pub qualifier: GpsQualifier,
    pub station_id: Seq<char>,
}

impl<'a> View for DRecord<'a> {
    type V = DRecordView;

    open spec fn view(&self) -> DRecordView {
        DRecordView { qualifier: self.qualifier, station_id: self.station_id@ }
    }
}

/// The domain of a decoded station record.
pub open spec fn d_wf(v: DRecordView) -> bool {
    &&& qualifier_wf(v.qualifier)
    &&& v.station_id.len() == 4
    &&& is_ascii_chars(v.station_id)
}

/// What decoding a D-led line yields: a qualifier byte and a four
/// character station id, on a line of exactly six characters.
pub open spec fn spec_parse_d(s: Seq<char>) -> Result<DRecordView, ParseError> {
    if s.len() != 6 {
        Err(ParseError::SyntaxError)
    } else if !is_ascii_chars(s) {
        Err(ParseError::NonASCIICharacters)
    } else {
        Ok(DRecordView { qualifier: spec_parse_qualifier(s[1]), station_id: s.subrange(2, 6) })
    }
}

/// The canonical rendering of a station record.
pub open spec fn spec_format_d(v: DRecordView) -> Seq<char> {
    seq!['D', spec_qualifier_char(v.qualifier)] + v.station_id
}

impl<'a> DRecord<'a> {
    /// Parse an IGC D record string.
    pub fn parse(line: &'a str) -> (r: Result<Self, ParseError>)
        requires
            line@.len() > 0,
            line@[0] == 'D',
        ensures
            match r {
                Ok(d) => spec_parse_d(line@) == Ok::<DRecordView, ParseError>(d@),
                Err(e) => spec_parse_d(line@) == Err::<DRecordView, ParseError>(e),
            },
    {
        if line.unicode_len() != 6 {
            return Err(ParseError::SyntaxError);
        }
        if !line.is_ascii() {
            return Err(ParseError::NonASCIICharacters);
        }
        let qual_char = line.get_char(1);
        let qualifier = if qual_char == '1' {
            GpsQualifier::Gps
        } else if qual_char == '2' {
            GpsQualifier::DGps
        } else {
            GpsQualifier::Unrecognized(qual_char as u8)
        };
        let station_id = line.substring_ascii(2, 6);
        Ok(DRecord { qualifier, station_id })
    }

    /// Renders this record as it should appear in an IGC file.
    pub fn format(&self) -> (r: String)
        ensures
            r@ == spec_format_d(self@),
    {
        let mut out = String::new();
        push_char(&mut out, 'D');
        let q = match self.qualifier {
            GpsQualifier::Gps => '1',
            GpsQualifier::DGps => '2',
            GpsQualifier::Unrecognized(b) => b as char,
        };
        push_char(&mut out, q);
        out.append(self.station_id);
        proof {
            assert(out@ =~= spec_format_d(self@));
        }
        out
    }
}

/// Decoding the canonical rendering of a well-formed station record
/// yields it back.
pub proof fn lemma_d_round_trip(v: DRecordView)
    requires
        d_wf(v),
    ensures
        spec_format_d(v)[0] == 'D',
        spec_format_d(v).len() == 6,
        spec_parse_d(spec_format_d(v)) == Ok::<DRecordView, ParseError>(v),
{
    let s = spec_format_d(v);
    assert(s.subrange(2, 6) =~= v.station_id);
    assert('\0' <= spec_qualifier_char(v.qualifier) <= '\u{7f}');
    assert forall|i: int| 0 <= i < s.len() implies '\0' <= #[trigger] s[i] <= '\u{7f}' by {
        if i >= 2 {
            assert(s[i] == v.station_id[i - 2]);
        }
    }
    assert(spec_parse_qualifier(s[1]) == v.qualifier);
}


/// Every decoded station record is well formed, so the round trip law
/// covers the decoder's whole image.
pub proof fn lemma_parse_d_wf(s: Seq<char>)
    requires
        spec_parse_d(s) is Ok,
    ensures
        d_wf(spec_parse_d(s)->Ok_0),
{
    let st = s.subrange(2, 6);
    assert forall|i: int| 0 <= i < st.len() implies '\0' <= #[trigger] st[i] <= '\u{7f}' by {
        assert(st[i] == s[i + 2]);
    }
}

} // verus!
