//! The extension data record.

use vstd::prelude::*;

use crate::records::extension::Extendable;
use crate::util::datetime::spec_format_time;
use crate::util::datetime::spec_parse_time;
use crate::util::datetime::time_wf;
use crate::util::datetime::Time;
use crate::util::parse_error::ParseError;
use crate::util::text::push_char;

verus! {

/// An extension data record.
///
/// Contains only a timestamp by default, but can be extended with a J
/// record.
#[derive(Debug, PartialEq, Eq)]
pub struct KRecord<'a> {
    pub time: Time,
    pub extension_string: &'a str,
}

/// The mathematical value of an extension data record.
pub ghost struct KRecordView {
    pub time: Time,
    pub extension_string: Seq<char>,
}

impl<'a> View for KRecord<'a> {
    type V = KRecordView;

    open spec fn view(&self) -> KRecordView {
        KRecordView { time: self.time, extension_string: self.extension_string@ }
    }
}

/// The domain of a decoded extension data record.
pub open spec fn k_wf(v: KRecordView) -> bool {
    time_wf(v.time)
}

/// What decoding a K-led line yields: a time and an optional tail, which
/// may be empty.
pub open spec fn spec_parse_k(s: Seq<char>) -> Result<KRecordView, ParseError> {
    if s.len() < 7 {
        Err(ParseError::SyntaxError)
    } else {
        match spec_parse_time(s.subrange(1, 7)) {
            Err(e) => Err(e),
            Ok(time) => Ok(KRecordView { time, extension_string: s.subrange(7, s.len() as int) }),
        }
    }
}

/// The canonical rendering of an extension data record.
pub open spec fn spec_format_k(v: KRecordView) -> Seq<char> {
    seq!['K'] + spec_format_time(v.time) + v.extension_string
}

impl<'a> KRecord<'a> {
    /// Parse an IGC K record string.
    pub fn parse(line: &'a str) -> (r: Result<Self, ParseError>)
        requires
            line@.len() > 0,
            line@[0] == 'K',
        ensures
            match r {
                Ok(k) => spec_parse_k(line@) == Ok::<KRecordView, ParseError>(k@),
                Err(e) => spec_parse_k(line@) == Err::<KRecordView, ParseError>(e),
            },
    {
        let len = line.unicode_len();
        if len < 7 {
            return Err(ParseError::SyntaxError);
        }
        let time = match Time::parse(line.substring_char(1, 7)) {
            Ok(t) => t,
            Err(e) => { return Err(e) },
        };
        let extension_string = line.substring_char(7, len);
        Ok(KRecord { time, extension_string })
    }

    /// Renders this record as it should appear in an IGC file.
    pub fn format(&self) -> (r: String)
        requires
            time_wf(self.time),
        ensures
            r@ == spec_format_k(self@),
    {
        let mut out = String::new();
        push_char(&mut out, 'K');
        let time_str = self.time.format();
        out.append(time_str.as_str());
        out.append(self.extension_string);
        proof {
            assert(out@ =~= spec_format_k(self@));
        }
        out
    }
}

impl<'a> Extendable for KRecord<'a> {
    open spec fn spec_base_length() -> int {
        7
    }

    open spec fn spec_extension_string(&self) -> Seq<char> {
        self.extension_string@
    }

    fn base_length(&self) -> (r: usize) {
        7
    }

    fn extension_string(&self) -> (r: &str) {
        self.extension_string
    }
}

/// Decoding the canonical rendering of a well-formed extension data
/// record yields it back.
pub proof fn lemma_k_round_trip(v: KRecordView)
    requires
        k_wf(v),
    ensures
        spec_format_k(v)[0] == 'K',
        spec_format_k(v).len() >= 7,
        spec_parse_k(spec_format_k(v)) == Ok::<KRecordView, ParseError>(v),
{
    let s = spec_format_k(v);
    let t = spec_format_time(v.time);
    crate::util::text::lemma_pow10_values();
    crate::util::datetime::lemma_time_round_trip(v.time);
    crate::util::text::lemma_num_str_val(v.time.hours as int, 2);
    crate::util::text::lemma_num_str_val(v.time.minutes as int, 2);
    crate::util::text::lemma_num_str_val(v.time.seconds as int, 2);
    assert(t.len() == 6);
    assert(s.subrange(1, 7) =~= t);
    assert(s.subrange(7, s.len() as int) =~= v.extension_string);
}


/// Every decoded extension data record is well formed, so the round trip
/// law covers the decoder's whole image.
pub proof fn lemma_parse_k_wf(s: Seq<char>)
    requires
        spec_parse_k(s) is Ok,
    ensures
        k_wf(spec_parse_k(s)->Ok_0),
{
    crate::util::datetime::lemma_parse_time_wf(s.subrange(1, 7));
}

} // verus!
