//! The event record.

use vstd::prelude::*;

use crate::util::datetime::spec_format_time;
use crate::util::datetime::spec_parse_time;
use crate::util::datetime::time_wf;
use crate::util::datetime::Time;
use crate::util::parse_error::ParseError;
use crate::util::text::is_ascii_chars;
use crate::util::text::ascii_prefix;
use crate::util::text::push_char;

verus! {

/// Describes an event logged during the flight, associated with the B
/// record immediately following.
#[derive(Clone, Debug, PartialEq, Eq)]
pub struct ERecord<'a> {
    pub time: Time,
    pub mnemonic: &'a str,
    pub text: Option<&'a str>,
}

/// The mathematical value of an event record.
pub ghost struct ERecordView {
    pub time: Time,
    pub mnemonic: Seq<char>,
    pub text: Option<Seq<char>>,
}

impl<'a> View for ERecord<'a> {
    type V = ERecordView;

    open spec fn view(&self) -> ERecordView {
        ERecordView {
            time: self.time,
            mnemonic: self.mnemonic@,
            text: match self.text {
                Some(t) => Some(t@),
                None => None,
            },
        }
    }
}

/// The domain of a decoded event record: an absent tail is `None`, never
/// an empty string.
pub open spec fn e_wf(v: ERecordView) -> bool {
    &&& time_wf(v.time)
    &&& v.mnemonic.len() == 3
    &&& is_ascii_chars(v.mnemonic)
    &&& match v.text {
        Some(t) => t.len() >= 1,
        None => true,
    }
}

/// What decoding an E-led line yields: a time, a three-character mnemonic
/// and an optional free-text tail.
pub open spec fn spec_parse_e(s: Seq<char>) -> Result<ERecordView, ParseError> {
    if s.len() < 10 {
        Err(ParseError::SyntaxError)
    } else if !is_ascii_chars(s.subrange(0, 10)) {
        Err(ParseError::NonASCIICharacters)
    } else {
        match spec_parse_time(s.subrange(1, 7)) {
            Err(e) => Err(e),
            Ok(time) => Ok(ERecordView {
                time,
                mnemonic: s.subrange(7, 10),
                text: if s.len() > 10 {
                    Some(s.subrange(10, s.len() as int))
                } else {
                    None
                },
            }),
        }
    }
}

/// The canonical rendering of an event record.
pub open spec fn spec_format_e(v: ERecordView) -> Seq<char> {
    seq!['E'] + spec_format_time(v.time) + v.mnemonic + match v.text {
        Some(t) => t,
        None => Seq::empty(),
    }
}

impl<'a> ERecord<'a> {
    /// Parse an IGC E record string.
    pub fn parse(line: &'a str) -> (r: Result<Self, ParseError>)
        requires
            line@.len() > 0,
            line@[0] == 'E',
        ensures
            match r {
                Ok(e) => spec_parse_e(line@) == Ok::<ERecordView, ParseError>(e@),
                Err(e) => spec_parse_e(line@) == Err::<ERecordView, ParseError>(e),
            },
    {
        let len = line.unicode_len();
        if len < 10 {
            return Err(ParseError::SyntaxError);
        }
        if !ascii_prefix(line, 10) {
            return Err(ParseError::NonASCIICharacters);
        }
        let time = match Time::parse(line.substring_char(1, 7)) {
            Ok(t) => t,
            Err(e) => { return Err(e) },
        };
        let mnemonic = line.substring_char(7, 10);
        let text = if len > 10 {
            Some(line.substring_char(10, len))
        } else {
            None
        };
        Ok(ERecord { time, mnemonic, text })
    }

    /// Renders this record as it should appear in an IGC file.
    pub fn format(&self) -> (r: String)
        requires
            time_wf(self.time),
        ensures
            r@ == spec_format_e(self@),
    {
        let mut out = String::new();
        push_char(&mut out, 'E');
        let time_str = self.time.format();
        out.append(time_str.as_str());
        out.append(self.mnemonic);
        match self.text {
            Some(t) => out.append(t),
            None => (),
        }
        proof {
            assert(out@ =~= spec_format_e(self@));
        }
        out
    }
}

/// Decoding the canonical rendering of a well-formed event record yields
/// it back.
pub proof fn lemma_e_round_trip(v: ERecordView)
    requires
        e_wf(v),
    ensures
        spec_format_e(v)[0] == 'E',
        spec_format_e(v).len() >= 10,
        spec_parse_e(spec_format_e(v)) == Ok::<ERecordView, ParseError>(v),
{
    let s = spec_format_e(v);
    let t = spec_format_time(v.time);
    crate::util::text::lemma_pow10_values();
    crate::util::datetime::lemma_time_round_trip(v.time);
    crate::util::text::lemma_num_str_val(v.time.hours as int, 2);
    crate::util::text::lemma_num_str_val(v.time.minutes as int, 2);
    crate::util::text::lemma_num_str_val(v.time.seconds as int, 2);
    assert(t.len() == 6);
    assert(s.subrange(1, 7) =~= t);
    assert(s.subrange(7, 10) =~= v.mnemonic);
    assert(is_ascii_chars(t));
    assert forall|i: int| 0 <= i < 10 implies '\0' <= #[trigger] s.subrange(0, 10)[i]
        <= '\u{7f}' by {
        if i == 0 {
            assert(s[i] == 'E');
        } else if i < 7 {
            assert(s.subrange(0, 10)[i] == t[i - 1]);
        } else {
            assert(s.subrange(0, 10)[i] == v.mnemonic[i - 7]);
        }
    }
    match v.text {
        Some(tx) => {
            assert(s.len() == 10 + tx.len());
            assert(s.subrange(10, s.len() as int) =~= tx);
        },
        None => {
            assert(s.len() == 10);
        },
    }
}


/// Every decoded event record is well formed, so the round trip law
/// covers the decoder's whole image.
pub proof fn lemma_parse_e_wf(s: Seq<char>)
    requires
        spec_parse_e(s) is Ok,
    ensures
        e_wf(spec_parse_e(s)->Ok_0),
{
    crate::util::datetime::lemma_parse_time_wf(s.subrange(1, 7));
    let m = s.subrange(7, 10);
    assert forall|i: int| 0 <= i < m.len() implies '\0' <= #[trigger] m[i] <= '\u{7f}' by {
        assert(m[i] == s.subrange(0, 10)[i + 7]);
    }
}

} // verus!
