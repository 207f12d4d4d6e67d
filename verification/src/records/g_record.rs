//! The security record.

use vstd::prelude::*;

use crate::util::parse_error::ParseError;
use crate::util::text::push_char;

verus! {

/// A security record.
///
/// The contents of the record are vendor dependent and kept opaque.
#[derive(Clone, Debug, PartialEq, Eq)]
pub struct GRecord<'a> {
    pub data: &'a str,
}

/// The mathematical value of a security record.
pub ghost struct GRecordView {
    pub data: Seq<char>,
}

impl<'a> View for GRecord<'a> {
    type V = GRecordView;

    open spec fn view(&self) -> GRecordView {
        GRecordView { data: self.data@ }
    }
}

/// What decoding a G-led line yields: everything after the kind letter,
/// kept opaque.
pub open spec fn spec_parse_g(s: Seq<char>) -> Result<GRecordView, ParseError> {
    if s.len() < 1 {
        Err(ParseError::SyntaxError)
    } else {
        Ok(GRecordView { data: s.subrange(1, s.len() as int) })
    }
}

/// The canonical rendering of a security record.
pub open spec fn spec_format_g(v: GRecordView) -> Seq<char> {
    seq!['G'] + v.data
}

impl<'a> GRecord<'a> {
    /// Parse an IGC G record string.
    pub fn parse(line: &'a str) -> (r: Result<Self, ParseError>)
        requires
            line@.len() > 0,
            line@[0] == 'G',
        ensures
            match r {
                Ok(g) => spec_parse_g(line@) == Ok::<GRecordView, ParseError>(g@),
                Err(e) => spec_parse_g(line@) == Err::<GRecordView, ParseError>(e),
            },
    {
        let data = line.substring_char(1, line.unicode_len());
        Ok(GRecord { data })
    }

    /// Renders this record as it should appear in an IGC file.
    pub fn format(&self) -> (r: String)
        ensures
            r@ == spec_format_g(self@),
    {
        let mut out = String::new();
        push_char(&mut out, 'G');
        out.append(self.data);
        proof {
            assert(out@ =~= spec_format_g(self@));
        }
        out
    }
}

/// Decoding the canonical rendering of a security record yields it back.
pub proof fn lemma_g_round_trip(v: GRecordView)
    ensures
        spec_format_g(v)[0] == 'G',
        spec_format_g(v).len() == 1 + v.data.len(),
        spec_parse_g(spec_format_g(v)) == Ok::<GRecordView, ParseError>(v),
{
    let s = spec_format_g(v);
    assert(s.subrange(1, s.len() as int) =~= v.data);
}

} // verus!
