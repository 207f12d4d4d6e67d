//! The K-record-extension declaration record.

use vstd::prelude::*;

use crate::records::extension::ext_def_fmt_wf;
use crate::records::extension::spec_format_ext_def;
use crate::records::extension::spec_parse_ext_def;
use crate::records::extension::ExtensionDefRecord;
use crate::records::extension::ExtensionDefView;
use crate::util::parse_error::ParseError;

verus! {

/// Declares the extensions carried in the tail of every K record.
#[derive(Debug, PartialEq, Eq)]
pub struct JRecord<'a>(pub ExtensionDefRecord<'a>);

impl<'a> View for JRecord<'a> {
    type V = ExtensionDefView;

    open spec fn view(&self) -> ExtensionDefView {
        self.0@
    }
}

impl<'a> JRecord<'a> {
    /// Parse an IGC J record string.
    pub fn parse(line: &'a str) -> (r: Result<Self, ParseError>)
        requires
            line@.len() > 0,
            line@[0] == 'J',
        ensures
            match r {
                Ok(j) => spec_parse_ext_def(line@) == Ok::<ExtensionDefView, ParseError>(j@),
                Err(e) => spec_parse_ext_def(line@) == Err::<ExtensionDefView, ParseError>(e),
            },
    {
        let def = match ExtensionDefRecord::parse(line) {
            Ok(d) => d,
            Err(e) => { return Err(e) },
        };
        Ok(JRecord(def))
    }

    /// Renders this record as it should appear in an IGC file.
    pub fn format(&self) -> (r: String)
        requires
            ext_def_fmt_wf(self@),
        ensures
            r@ == spec_format_ext_def(self@, 'J'),
    {
        self.0.format_with('J')
    }
}

} // verus!
