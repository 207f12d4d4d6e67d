//! The header information record.

use vstd::prelude::*;

use crate::util::parse_error::ParseError;
use crate::util::text::ascii_prefix;
use crate::util::text::find_char;
use crate::util::text::find_char_at;
use crate::util::text::is_ascii_chars;
use crate::util::text::lemma_find_char_is;
use crate::util::text::lemma_find_char_none;
use crate::util::text::push_char;

verus! {

/// Enumeration of the different sources an H record can come from, with a
/// fallback for an unrecognised source byte.
#[derive(Clone, Copy, Debug, PartialEq, Eq, Structural)]
pub enum DataSource {
    FVU,
    OfficialObserver,
    Pilot,
    Unrecognized(u8),
}

/// Which data source a byte names.
pub open spec fn spec_parse_source(c: char) -> DataSource {
    if c == 'F' {
        DataSource::FVU
    } else if c == 'O' {
        DataSource::OfficialObserver
    } else if c == 'P' {
        DataSource::Pilot
    } else {
        DataSource::Unrecognized(c as u8)
    }
}

/// The byte naming a data source.
pub open spec fn spec_source_char(d: DataSource) -> char {
    match d {
        DataSource::FVU => 'F',
        DataSource::OfficialObserver => 'O',
        DataSource::Pilot => 'P',
        DataSource::Unrecognized(b) => b as char,
    }
}

/// A data source that renders to a single ASCII byte and decodes back to
/// itself.
pub open spec fn source_wf(d: DataSource) -> bool {
    match d {
        DataSource::Unrecognized(b) => b <= 127 && b != 70 && b != 79 && b != 80,  // not 'F', 'O' or 'P'
        _ => true,
    }
}

/// A header information record.
#[derive(Clone, Debug, PartialEq, Eq)]
pub struct HRecord<'a> {
    pub data_source: DataSource,
    pub mnemonic: &'a str,
    pub friendly_name: Option<&'a str>,
    pub data: &'a str,
}

/// The mathematical value of a header record.
pub ghost struct HRecordView {
    pub data_source: DataSource,
    pub mnemonic: Seq<char>,
    pub friendly_name: Option<Seq<char>>,
    pub data: Seq<char>,
}

impl<'a> View for HRecord<'a> {
    type V = HRecordView;

    open spec fn view(&self) -> HRecordView {
        HRecordView {
            data_source: self.data_source,
            mnemonic: self.mnemonic@,
            friendly_name: match self.friendly_name {
                Some(f) => Some(f@),
                None => None,
            },
            data: self.data@,
        }
    }
}

/// The domain of a decoded header record. The tail splits at its first
/// colon, so a named record's name holds no colon, and a nameless
/// record's data holds none either; an empty name is distinct from an
/// absent one.
pub open spec fn h_wf(v: HRecordView) -> bool {
    &&& source_wf(v.data_source)
    &&& v.mnemonic.len() == 3
    &&& is_ascii_chars(v.mnemonic)
    &&& match v.friendly_name {
        Some(f) => forall|i: int| 0 <= i < f.len() ==> #[trigger] f[i] != ':',
        None => v.data.len() >= 1 && forall|i: int|
            0 <= i < v.data.len() ==> #[trigger] v.data[i] != ':',
    }
}

/// What decoding an H-led line yields: a source byte, a three-character
/// mnemonic, and a tail split at its first colon into an optional
/// friendly name and the data payload.
pub open spec fn spec_parse_h(s: Seq<char>) -> Result<HRecordView, ParseError> {
    if s.len() < 6 {
        Err(ParseError::SyntaxError)
    } else if !is_ascii_chars(s.subrange(0, 5)) {
        Err(ParseError::NonASCIICharacters)
    } else {
        let tail = s.subrange(5, s.len() as int);
        let k = find_char(tail, ':');
        if k < 0 {
            Ok(HRecordView {
                data_source: spec_parse_source(s[1]),
                mnemonic: s.subrange(2, 5),
                friendly_name: None,
                data: tail,
            })
        } else {
            Ok(HRecordView {
                data_source: spec_parse_source(s[1]),
                mnemonic: s.subrange(2, 5),
                friendly_name: Some(tail.subrange(0, k)),
                data: tail.subrange(k + 1, tail.len() as int),
            })
        }
    }
}

/// The canonical rendering of a header record: the colon appears exactly
/// when a friendly name is present.
pub open spec fn spec_format_h(v: HRecordView) -> Seq<char> {
    seq!['H', spec_source_char(v.data_source)] + v.mnemonic + match v.friendly_name {
        Some(f) => f + seq![':'] + v.data,
        None => v.data,
    }
}

impl<'a> HRecord<'a> {
    /// Parse an IGC H record string.
    pub fn parse(line: &'a str) -> (r: Result<Self, ParseError>)
        requires
            line@.len() > 0,
            line@[0] == 'H',
        ensures
            match r {
                Ok(h) => spec_parse_h(line@) == Ok::<HRecordView, ParseError>(h@),
                Err(e) => spec_parse_h(line@) == Err::<HRecordView, ParseError>(e),
            },
    {
        let len = line.unicode_len();
        if len < 6 {
            return Err(ParseError::SyntaxError);
        }
        if !ascii_prefix(line, 5) {
            return Err(ParseError::NonASCIICharacters);
        }
        let source_char = line.get_char(1);
        let data_source = if source_char == 'F' {
            DataSource::FVU
        } else if source_char == 'O' {
            DataSource::OfficialObserver
        } else if source_char == 'P' {
            DataSource::Pilot
        } else {
            DataSource::Unrecognized(source_char as u8)
        };
        let mnemonic = line.substring_char(2, 5);
        let ghost tail = line@.subrange(5, line@.len() as int);
        let friendly_name;
        let data;
        match find_char_at(line, 5, ':') {
            Some(colon_idx) => {
                friendly_name = Some(line.substring_char(5, colon_idx));
                data = line.substring_char(colon_idx + 1, len);
                proof {
                    let k = find_char(tail, ':');
                    assert(friendly_name->0@ =~= tail.subrange(0, k));
                    assert(data@ =~= tail.subrange(k + 1, tail.len() as int));
                }
            },
            None => {
                friendly_name = None;
                data = line.substring_char(5, len);
                proof {
                    assert(data@ =~= tail);
                }
            },
        }
        Ok(HRecord { data_source, mnemonic, friendly_name, data })
    }

    /// Renders this record as it should appear in an IGC file.
    pub fn format(&self) -> (r: String)
        ensures
            r@ == spec_format_h(self@),
    {
        let mut out = String::new();
        push_char(&mut out, 'H');
        let c = match self.data_source {
            DataSource::FVU => 'F',
            DataSource::OfficialObserver => 'O',
            DataSource::Pilot => 'P',
            DataSource::Unrecognized(b) => b as char,
        };
        push_char(&mut out, c);
        out.append(self.mnemonic);
        match self.friendly_name {
            Some(f) => {
                out.append(f);
                push_char(&mut out, ':');
                out.append(self.data);
            },
            None => {
                out.append(self.data);
            },
        }
        proof {
            assert(out@ =~= spec_format_h(self@));
        }
        out
    }
}

/// Decoding the canonical rendering of a well-formed header record yields
/// it back.
pub proof fn lemma_h_round_trip(v: HRecordView)
    requires
        h_wf(v),
    ensures
        spec_format_h(v)[0] == 'H',
        spec_format_h(v).len() >= 5,
        spec_parse_h(spec_format_h(v)) == Ok::<HRecordView, ParseError>(v),
{
    let s = spec_format_h(v);
    let tail = s.subrange(5, s.len() as int);
    assert('\0' <= spec_source_char(v.data_source) <= '\u{7f}');
    assert(s.subrange(2, 5) =~= v.mnemonic);
    assert forall|i: int| 0 <= i < 5 implies '\0' <= #[trigger] s.subrange(0, 5)[i]
        <= '\u{7f}' by {
        if i >= 2 {
            assert(s.subrange(0, 5)[i] == v.mnemonic[i - 2]);
        } else if i == 0 {
            assert(s.subrange(0, 5)[i] == 'H');
        } else {
            assert(s.subrange(0, 5)[i] == spec_source_char(v.data_source));
        }
    }
    assert(spec_parse_source(s[1]) == v.data_source);
    match v.friendly_name {
        Some(f) => {
            assert(s.len() == 5 + f.len() + 1 + v.data.len());
            assert(tail =~= f + seq![':'] + v.data);
            assert(tail[f.len() as int] == ':');
            assert forall|i: int| 0 <= i < f.len() implies #[trigger] tail[i] != ':' by {
                assert(tail[i] == f[i]);
            }
            lemma_find_char_is(tail, ':', f.len() as int);
            assert(tail.subrange(0, f.len() as int) =~= f);
            assert(tail.subrange(f.len() as int + 1, tail.len() as int) =~= v.data);
        },
        None => {
            assert(tail =~= v.data);
            assert forall|i: int| 0 <= i < tail.len() implies #[trigger] tail[i] != ':' by {
                assert(tail[i] == v.data[i]);
            }
            lemma_find_char_none(tail, ':');
        },
    }
}


/// Every decoded header record is well formed, so the round trip law
/// covers the decoder's whole image.
pub proof fn lemma_parse_h_wf(s: Seq<char>)
    requires
        spec_parse_h(s) is Ok,
    ensures
        h_wf(spec_parse_h(s)->Ok_0),
{
    let m = s.subrange(2, 5);
    assert forall|i: int| 0 <= i < m.len() implies '\0' <= #[trigger] m[i] <= '\u{7f}' by {
        assert(m[i] == s.subrange(0, 5)[i + 2]);
    }
    assert('\0' <= s.subrange(0, 5)[1] <= '\u{7f}');
    let tail = s.subrange(5, s.len() as int);
    crate::util::text::lemma_find_char(tail, ':');
}

} // verus!
