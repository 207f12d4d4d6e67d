//! The fix-extension declaration record.

use vstd::prelude::*;

use crate::records::extension::ext_def_fmt_wf;
use crate::records::extension::exts_view;
use crate::records::extension::format_def;
use crate::records::extension::spec_format_ext_def;
use crate::records::extension::spec_parse_ext_def;
use crate::records::extension::Extension;
use crate::records::extension::ExtensionDefRecord;
use crate::records::extension::ExtensionDefView;
use crate::util::parse_error::ParseError;

verus! {

/// Declares the extensions carried in the tail of every B record.
#[derive(Debug, PartialEq, Eq)]
pub struct IRecord<'a> {
    pub num_extensions: u8,
    pub extensions: Vec<Extension<'a>>,
}

impl<'a> View for IRecord<'a> {
    type V = ExtensionDefView;

    open spec fn view(&self) -> ExtensionDefView {
        ExtensionDefView {
            num_extensions: self.num_extensions,
            extensions: exts_view(self.extensions@),
        }
    }
}

impl<'a> IRecord<'a> {
    /// Parse an IGC I record string.
    pub fn parse(line: &'a str) -> (r: Result<Self, ParseError>)
        requires
            line@.len() > 0,
            line@[0] == 'I',
        ensures
            match r {
                Ok(i) => spec_parse_ext_def(line@) == Ok::<ExtensionDefView, ParseError>(i@),
                Err(e) => spec_parse_ext_def(line@) == Err::<ExtensionDefView, ParseError>(e),
            },
    {
        let def = match ExtensionDefRecord::parse(line) {
            Ok(d) => d,
            Err(e) => { return Err(e) },
        };
        Ok(IRecord { num_extensions: def.num_extensions, extensions: def.extensions })
    }

    /// Renders this record as it should appear in an IGC file.
    pub fn format(&self) -> (r: String)
        requires
            ext_def_fmt_wf(self@),
        ensures
            r@ == spec_format_ext_def(self@, 'I'),
    {
        format_def('I', self.num_extensions, &self.extensions)
    }
}

} // verus!
