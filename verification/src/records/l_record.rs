//! The plaintext log record.

use vstd::prelude::*;

use crate::util::parse_error::ParseError;
use crate::util::text::push_char;

verus! {

/// A simple plaintext log, used by some manufacturers for proprietary
/// extensions.
#[derive(Clone, Debug, PartialEq, Eq)]
pub struct LRecord<'a> {
    pub log_string: &'a str,
}

/// The mathematical value of a log record.
pub ghost struct LRecordView {
    pub log_string: Seq<char>,
}

impl<'a> View for LRecord<'a> {
    type V = LRecordView;

    open spec fn view(&self) -> LRecordView {
        LRecordView { log_string: self.log_string@ }
    }
}

/// What decoding an L-led line yields: everything after the kind letter,
/// kept opaque.
pub open spec fn spec_parse_l(s: Seq<char>) -> Result<LRecordView, ParseError> {
    if s.len() < 1 {
        Err(ParseError::SyntaxError)
    } else {
        Ok(LRecordView { log_string: s.subrange(1, s.len() as int) })
    }
}

/// The canonical rendering of a log record.
pub open spec fn spec_format_l(v: LRecordView) -> Seq<char> {
    seq!['L'] + v.log_string
}

impl<'a> LRecord<'a> {
    /// Parse an IGC L record string.
    pub fn parse(line: &'a str) -> (r: Result<Self, ParseError>)
        requires
            line@.len() > 0,
            line@[0] == 'L',
        ensures
            match r {
                Ok(l) => spec_parse_l(line@) == Ok::<LRecordView, ParseError>(l@),
                Err(e) => spec_parse_l(line@) == Err::<LRecordView, ParseError>(e),
            },
    {
        let log_string = line.substring_char(1, line.unicode_len());
        Ok(LRecord { log_string })
    }

    /// Renders this record as it should appear in an IGC file.
    pub fn format(&self) -> (r: String)
        ensures
            r@ == spec_format_l(self@),
    {
        let mut out = String::new();
        push_char(&mut out, 'L');
        out.append(self.log_string);
        proof {
            assert(out@ =~= spec_format_l(self@));
        }
        out
    }
}

/// Decoding the canonical rendering of a log record yields it back.
pub proof fn lemma_l_round_trip(v: LRecordView)
    ensures
        spec_format_l(v)[0] == 'L',
        spec_format_l(v).len() == 1 + v.log_string.len(),
        spec_parse_l(spec_format_l(v)) == Ok::<LRecordView, ParseError>(v),
{
    let s = spec_format_l(v);
    assert(s.subrange(1, s.len() as int) =~= v.log_string);
}

} // verus!
