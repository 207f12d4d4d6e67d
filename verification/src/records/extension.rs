//! The extension sub-format: column ranges declared by I and J records,
//! and the shared algorithm for slicing a declared range out of a record's
//! trailing free-text region.

use vstd::prelude::*;

use crate::util::parse_error::ParseError;
use crate::util::text::all_digits;
use crate::util::text::digits_val;
use crate::util::text::is_ascii_chars;
use crate::util::text::lemma_num_str_val;
use crate::util::text::lemma_pow10_values;
use crate::util::text::num_str;
use crate::util::text::parse_num;
use crate::util::text::push_num;

verus! {

/// A column range as declared by an I or J record.
///
/// The start and end bytes are 1-indexed over the whole physical line,
/// including the initial record type discrimination character.
#[derive(Clone, Copy, Debug, PartialEq, Eq, Structural)]
pub struct ExtensionRange {
    pub start_byte: u8,
    pub end_byte: u8,
}

/// What decoding a four-character "SSEE" range window yields.
pub open spec fn spec_parse_range(s: Seq<char>) -> Result<ExtensionRange, ParseError> {
    if s.len() != 4 {
        Err(ParseError::SyntaxError)
    } else if !(all_digits(s.subrange(0, 2)) && all_digits(s.subrange(2, 4))) {
        Err(ParseError::SyntaxError)
    } else {
        let start = digits_val(s.subrange(0, 2));
        let end = digits_val(s.subrange(2, 4));
        if end < start {
            Err(ParseError::BadExtension)
        } else {
            Ok(ExtensionRange { start_byte: start as u8, end_byte: end as u8 })
        }
    }
}

/// A range that renders in two two-digit columns.
pub open spec fn range_fmt_wf(r: ExtensionRange) -> bool {
    r.start_byte <= 99 && r.end_byte <= 99
}

/// The canonical "SSEE" rendering of a range.
pub open spec fn spec_format_range(r: ExtensionRange) -> Seq<char> {
    num_str(r.start_byte as int, 2) + num_str(r.end_byte as int, 2)
}

impl ExtensionRange {
    /// Parse a four-character range definition: two-digit start column,
    /// two-digit end column. A range whose end lies before its start is
    /// rejected as `BadExtension`.
    pub fn parse(string: &str) -> (r: Result<Self, ParseError>)
        ensures
            r == spec_parse_range(string@),
    {
        if string.unicode_len() != 4 {
            return Err(ParseError::SyntaxError);
        }
        let start = match parse_num(string, 0, 2) {
            Some(v) => v,
            None => { return Err(ParseError::SyntaxError) },
        };
        let end = match parse_num(string, 2, 2) {
            Some(v) => v,
            None => { return Err(ParseError::SyntaxError) },
        };
        if end < start {
            Err(ParseError::BadExtension)
        } else {
            Ok(ExtensionRange { start_byte: start as u8, end_byte: end as u8 })
        }
    }

    /// Renders this range as it appears in an extension definition.
    pub fn format(&self) -> (r: String)
        requires
            range_fmt_wf(*self),
        ensures
            r@ == spec_format_range(*self),
    {
        proof {
            lemma_pow10_values();
        }
        let mut out = String::new();
        push_num(&mut out, self.start_byte as u32, 2);
        push_num(&mut out, self.end_byte as u32, 2);
        out
    }
}

/// Decoding the canonical rendering of a well-formed range yields it back.
pub proof fn lemma_range_round_trip(r: ExtensionRange)
    requires
        range_fmt_wf(r),
        r.start_byte <= r.end_byte,
    ensures
        spec_parse_range(spec_format_range(r)) == Ok::<ExtensionRange, ParseError>(r),
        spec_format_range(r).len() == 4,
        all_digits(spec_format_range(r)),
        is_ascii_chars(spec_format_range(r)),
{
    let s = spec_format_range(r);
    lemma_pow10_values();
    lemma_num_str_val(r.start_byte as int, 2);
    lemma_num_str_val(r.end_byte as int, 2);
    assert(s.subrange(0, 2) =~= num_str(r.start_byte as int, 2));
    assert(s.subrange(2, 4) =~= num_str(r.end_byte as int, 2));
    assert forall|i: int| 0 <= i < s.len() implies crate::util::text::is_digit(
        #[trigger] s[i],
    ) by {
        if i < 2 {
            assert(s[i] == s.subrange(0, 2)[i]);
        } else {
            assert(s[i] == s.subrange(2, 4)[i - 2]);
        }
    }
    assert forall|i: int| 0 <= i < s.len() implies '\0' <= #[trigger] s[i] <= '\u{7f}' by {
        assert(crate::util::text::is_digit(s[i]));
    }
}

/// Defines a generic record extension, as appears in I and J records.
#[derive(Clone, Debug, PartialEq, Eq)]
pub struct Extension<'a> {
    pub range: ExtensionRange,
    pub mnemonic: &'a str,
}

/// The mathematical value of an extension definition.
pub ghost struct ExtensionView {
    pub range: ExtensionRange,
    pub mnemonic: Seq<char>,
}

impl<'a> View for Extension<'a> {
    type V = ExtensionView;

    open spec fn view(&self) -> ExtensionView {
        ExtensionView { range: self.range, mnemonic: self.mnemonic@ }
    }
}

/// An extension definition that decodes back to itself: two renderable
/// columns in order, and a three-character ASCII mnemonic.
pub open spec fn ext_wf(e: ExtensionView) -> bool {
    &&& range_fmt_wf(e.range)
    &&& e.range.start_byte <= e.range.end_byte
    &&& e.mnemonic.len() == 3
    &&& is_ascii_chars(e.mnemonic)
}

/// What decoding a seven-character "SSEEMMM" window yields.
pub open spec fn spec_parse_extension(s: Seq<char>) -> Result<ExtensionView, ParseError> {
    if s.len() != 7 {
        Err(ParseError::SyntaxError)
    } else {
        match spec_parse_range(s.subrange(0, 4)) {
            Err(e) => Err(e),
            Ok(range) => Ok(ExtensionView { range, mnemonic: s.subrange(4, 7) }),
        }
    }
}

/// The canonical "SSEEMMM" rendering of an extension definition.
pub open spec fn spec_format_extension(e: ExtensionView) -> Seq<char> {
    spec_format_range(e.range) + e.mnemonic
}

impl<'a> Extension<'a> {
    pub fn new(mnemonic: &'a str, start_byte: u8, end_byte: u8) -> (r: Self)
        requires
            mnemonic@.len() == 3,
            start_byte > 2,
            end_byte > start_byte,
        ensures
            r@ == (ExtensionView {
                range: ExtensionRange { start_byte, end_byte },
                mnemonic: mnemonic@,
            }),
    {
        Extension { range: ExtensionRange { start_byte, end_byte }, mnemonic }
    }

    /// Parse a single extension definition string.
    ///
    /// Expected format:
    ///     SSEEMMM
    /// SS  - start byte
    /// EE  - end byte
    /// MMM - mnemonic
    pub fn parse(string: &'a str) -> (r: Result<Self, ParseError>)
        ensures
            match r {
                Ok(e) => spec_parse_extension(string@) == Ok::<ExtensionView, ParseError>(e@),
                Err(e) => spec_parse_extension(string@) == Err::<ExtensionView, ParseError>(e),
            },
    {
        if string.unicode_len() != 7 {
            return Err(ParseError::SyntaxError);
        }
        let range = match ExtensionRange::parse(string.substring_char(0, 4)) {
            Ok(v) => v,
            Err(e) => { return Err(e) },
        };
        let mnemonic = string.substring_char(4, 7);
        Ok(Extension { range, mnemonic })
    }

    /// Renders this extension definition as it appears in an I or J record.
    pub fn format(&self) -> (r: String)
        requires
            range_fmt_wf(self.range),
        ensures
            r@ == spec_format_extension(self@),
    {
        let mut out = self.range.format();
        out.append(self.mnemonic);
        out
    }
}

/// Decoding the canonical rendering of a well-formed extension yields it
/// back.
pub proof fn lemma_extension_round_trip(e: ExtensionView)
    requires
        ext_wf(e),
    ensures
        spec_parse_extension(spec_format_extension(e)) == Ok::<ExtensionView, ParseError>(e),
        spec_format_extension(e).len() == 7,
        is_ascii_chars(spec_format_extension(e)),
{
    let s = spec_format_extension(e);
    lemma_range_round_trip(e.range);
    assert(s.subrange(0, 4) =~= spec_format_range(e.range));
    assert(s.subrange(4, 7) =~= e.mnemonic);
    assert forall|i: int| 0 <= i < s.len() implies '\0' <= #[trigger] s[i] <= '\u{7f}' by {
        if i < 4 {
            assert(s[i] == spec_format_range(e.range)[i]);
        } else {
            assert(s[i] == e.mnemonic[i - 4]);
        }
    }
}

/// Translating a declared column range into a slice of a record's trailing
/// free-text region. `base` is the width of the record's mandatory fields;
/// the range addresses 1-indexed columns of the whole line.
pub open spec fn spec_get_extension(base: int, tail: Seq<char>, range: ExtensionRange) -> Result<
    Seq<char>,
    ParseError,
> {
    if range.end_byte < range.start_byte {
        Err(ParseError::BadExtension)
    } else if range.start_byte <= base {
        Err(ParseError::BadExtension)
    } else {
        let start = range.start_byte - base - 1;
        let end = range.end_byte - base;
        if start >= tail.len() || end > tail.len() {
            Err(ParseError::MissingExtension)
        } else {
            Ok(tail.subrange(start, end))
        }
    }
}

/// A range whose end lies before its start always fails as
/// `BadExtension`, regardless of surrounding context: extraction rejects
/// it from any record, and no range window ever decodes to it.
pub proof fn lemma_backwards_range_rejected(
    r: ExtensionRange,
    base: int,
    tail: Seq<char>,
    w: Seq<char>,
)
    requires
        r.end_byte < r.start_byte,
    ensures
        spec_get_extension(base, tail, r) == Err::<Seq<char>, ParseError>(
            ParseError::BadExtension,
        ),
        spec_parse_range(w) != Ok::<ExtensionRange, ParseError>(r),
{
    if w.len() == 4 && all_digits(w.subrange(0, 2)) && all_digits(w.subrange(2, 4)) {
        crate::util::text::lemma_digits_val_bound(w.subrange(0, 2));
        crate::util::text::lemma_digits_val_bound(w.subrange(2, 4));
        lemma_pow10_values();
    }
}

/// Implemented by records which support having extensions.
pub trait Extendable {
    /// The width of this record kind's mandatory fields.
    spec fn spec_base_length() -> int;

    /// The trailing free-text region of the record.
    spec fn spec_extension_string(&self) -> Seq<char>;

    fn base_length(&self) -> (r: usize)
        ensures
            r == Self::spec_base_length(),
    ;

    fn extension_string(&self) -> (r: &str)
        ensures
            r@ == self.spec_extension_string(),
    ;

    /// Get a given declared column range out of this record's tail.
    fn get_extension(&self, range: ExtensionRange) -> (r: Result<&str, ParseError>)
        ensures
            match r {
                Ok(s) => spec_get_extension(
                    Self::spec_base_length(),
                    self.spec_extension_string(),
                    range,
                ) == Ok::<Seq<char>, ParseError>(s@),
                Err(e) => spec_get_extension(
                    Self::spec_base_length(),
                    self.spec_extension_string(),
                    range,
                ) == Err::<Seq<char>, ParseError>(e),
            },
    {
        if range.end_byte < range.start_byte {
            return Err(ParseError::BadExtension);
        }
        let base = self.base_length();
        if range.start_byte as usize <= base {
            return Err(ParseError::BadExtension);
        }
        let ext_str = self.extension_string();
        let start = range.start_byte as usize - base - 1;
        let end = range.end_byte as usize - base;
        let n = ext_str.unicode_len();
        if start >= n || end > n {
            return Err(ParseError::MissingExtension);
        }
        Ok(ext_str.substring_char(start, end))
    }
}

/// The views of a sequence of extension definitions.
pub open spec fn exts_view(v: Seq<Extension>) -> Seq<ExtensionView> {
    v.map_values(|e: Extension| e@)
}

/// What decoding a run of consecutive seven-character extension windows
/// yields: the first failing window aborts the run with its error.
pub open spec fn spec_parse_ext_list(s: Seq<char>) -> Result<Seq<ExtensionView>, ParseError>
    decreases s.len(),
{
    if s.len() == 0 {
        Ok(Seq::empty())
    } else if s.len() < 7 {
        Err(ParseError::SyntaxError)
    } else {
        match spec_parse_extension(s.subrange(0, 7)) {
            Err(e) => Err(e),
            Ok(first) => match spec_parse_ext_list(s.subrange(7, s.len() as int)) {
                Err(e) => Err(e),
                Ok(rest) => Ok(seq![first] + rest),
            },
        }
    }
}

/// The canonical rendering of a run of extension definitions.
pub open spec fn spec_format_ext_list(es: Seq<ExtensionView>) -> Seq<char>
    decreases es.len(),
{
    if es.len() == 0 {
        Seq::empty()
    } else {
        spec_format_extension(es[0]) + spec_format_ext_list(es.subrange(1, es.len() as int))
    }
}

/// Decoding the canonical rendering of well-formed extensions yields them
/// back, seven characters per definition.
pub proof fn lemma_ext_list_round_trip(es: Seq<ExtensionView>)
    requires
        forall|i: int| 0 <= i < es.len() ==> ext_wf(#[trigger] es[i]),
    ensures
        spec_format_ext_list(es).len() == 7 * es.len(),
        is_ascii_chars(spec_format_ext_list(es)),
        spec_parse_ext_list(spec_format_ext_list(es)) == Ok::<Seq<ExtensionView>, ParseError>(es),
    decreases es.len(),
{
    if es.len() > 0 {
        let s = spec_format_ext_list(es);
        let head = spec_format_extension(es[0]);
        let tail = es.subrange(1, es.len() as int);
        lemma_extension_round_trip(es[0]);
        assert(forall|i: int| 0 <= i < tail.len() ==> tail[i] == #[trigger] es[i + 1]);
        lemma_ext_list_round_trip(tail);
        assert(s.len() == 7 * es.len());
        assert(s.subrange(0, 7) =~= head);
        assert(s.subrange(7, s.len() as int) =~= spec_format_ext_list(tail));
        assert(spec_parse_extension(s.subrange(0, 7)) == Ok::<ExtensionView, ParseError>(es[0]));
        assert(spec_parse_ext_list(s.subrange(7, s.len() as int)) == Ok::<
            Seq<ExtensionView>,
            ParseError,
        >(tail));
        assert forall|i: int| 0 <= i < s.len() implies '\0' <= #[trigger] s[i] <= '\u{7f}' by {
            if i < 7 {
                assert(s[i] == head[i]);
            } else {
                assert(s[i] == spec_format_ext_list(tail)[i - 7]);
            }
        }
        assert(seq![es[0]] + tail =~= es);
    } else {
        assert(es =~= Seq::<ExtensionView>::empty());
        assert(spec_format_ext_list(es) =~= Seq::<char>::empty());
    }
}

/// A record defining a set of extensions (either an I or a J record).
#[derive(Debug, PartialEq, Eq)]
pub struct ExtensionDefRecord<'a> {
    pub num_extensions: u8,
    pub extensions: Vec<Extension<'a>>,
}

/// The mathematical value of an extension definition record.
pub ghost struct ExtensionDefView {
    pub num_extensions: u8,
    pub extensions: Seq<ExtensionView>,
}

impl<'a> View for ExtensionDefRecord<'a> {
    type V = ExtensionDefView;

    open spec fn view(&self) -> ExtensionDefView {
        ExtensionDefView {
            num_extensions: self.num_extensions,
            extensions: exts_view(self.extensions@),
        }
    }
}

/// What rendering an extension definition record needs: the declared
/// count names the entries and fits its two columns, and every entry's
/// columns fit theirs.
pub open spec fn ext_def_fmt_wf(d: ExtensionDefView) -> bool {
    &&& d.num_extensions == d.extensions.len()
    &&& d.extensions.len() <= 99
    &&& forall|i: int|
        0 <= i < d.extensions.len() ==> range_fmt_wf(#[trigger] d.extensions[i].range)
}

/// An extension definition record that decodes back to itself: the declared
/// count matches the entries, and every entry is well formed.
pub open spec fn ext_def_wf(d: ExtensionDefView) -> bool {
    &&& d.num_extensions == d.extensions.len()
    &&& d.extensions.len() <= 99
    &&& forall|i: int| 0 <= i < d.extensions.len() ==> ext_wf(#[trigger] d.extensions[i])
}

/// What decoding the body of an I or J record yields: a two-digit declared
/// count, then exactly that many seven-character extension definitions,
/// all of it single-byte text.
pub open spec fn spec_parse_ext_def(s: Seq<char>) -> Result<ExtensionDefView, ParseError> {
    if s.len() < 3 {
        Err(ParseError::SyntaxError)
    } else if !is_ascii_chars(s) {
        Err(ParseError::NonASCIICharacters)
    } else if !all_digits(s.subrange(1, 3)) {
        Err(ParseError::SyntaxError)
    } else {
        let n = digits_val(s.subrange(1, 3));
        if s.len() != 3 + 7 * n {
            Err(ParseError::SyntaxError)
        } else {
            match spec_parse_ext_list(s.subrange(3, s.len() as int)) {
                Err(e) => Err(e),
                Ok(es) => Ok(ExtensionDefView { num_extensions: n as u8, extensions: es }),
            }
        }
    }
}

/// The canonical rendering of an extension definition record led by the
/// given kind letter.
pub open spec fn spec_format_ext_def(d: ExtensionDefView, letter: char) -> Seq<char> {
    seq![letter] + num_str(d.num_extensions as int, 2) + spec_format_ext_list(d.extensions)
}

impl<'a> ExtensionDefRecord<'a> {
    /// Parse either kind of extension definition record (either I or J).
    pub fn parse(line: &'a str) -> (r: Result<Self, ParseError>)
        requires
            line@.len() > 0,
            line@[0] == 'I' || line@[0] == 'J',
        ensures
            match r {
                Ok(d) => spec_parse_ext_def(line@) == Ok::<ExtensionDefView, ParseError>(d@),
                Err(e) => spec_parse_ext_def(line@) == Err::<ExtensionDefView, ParseError>(e),
            },
    {
        let len = line.unicode_len();
        if len < 3 {
            return Err(ParseError::SyntaxError);
        }
        if !line.is_ascii() {
            return Err(ParseError::NonASCIICharacters);
        }
        let num_extensions = match parse_num(line, 1, 2) {
            Some(v) => v,
            None => { return Err(ParseError::SyntaxError) },
        };
        proof {
            lemma_pow10_values();
        }
        if len != 3 + 7 * (num_extensions as usize) {
            return Err(ParseError::SyntaxError);
        }
        let ghost whole = line@.subrange(3, line@.len() as int);
        let mut extensions: Vec<Extension<'a>> = Vec::new();
        let mut i: usize = 0;
        proof {
            assert(whole.subrange(0, whole.len() as int) =~= whole);
            assert(exts_view(extensions@) =~= Seq::<ExtensionView>::empty());
        }
        while i < num_extensions as usize
            invariant
                i <= num_extensions,
                num_extensions < 100,
                line@.len() == 3 + 7 * num_extensions,
                line@.len() <= usize::MAX,
                is_ascii_chars(line@),
                all_digits(line@.subrange(1, 3)),
                digits_val(line@.subrange(1, 3)) == num_extensions,
                whole == line@.subrange(3, line@.len() as int),
                extensions@.len() == i,
                ({
                    let rem = whole.subrange(7 * i as int, whole.len() as int);
                    match spec_parse_ext_list(rem) {
                        Ok(rest) => spec_parse_ext_list(whole) == Ok::<
                            Seq<ExtensionView>,
                            ParseError,
                        >(exts_view(extensions@) + rest),
                        Err(e) => spec_parse_ext_list(whole) == Err::<
                            Seq<ExtensionView>,
                            ParseError,
                        >(e),
                    }
                }),
            decreases num_extensions as int - i as int,
        {
            let chunk = line.substring_ascii(3 + 7 * i, 3 + 7 * i + 7);
            let ghost rem = whole.subrange(7 * i as int, whole.len() as int);
            proof {
                assert(rem.len() == 7 * (num_extensions - i));
                assert(rem.subrange(0, 7) =~= chunk@);
                assert(rem.subrange(7, rem.len() as int) =~= whole.subrange(
                    7 * (i + 1) as int,
                    whole.len() as int,
                ));
            }
            match Extension::parse(chunk) {
                Ok(ext) => {
                    let ghost old_exts = extensions@;
                    extensions.push(ext);
                    proof {
                        assert(exts_view(extensions@) =~= exts_view(old_exts).push(ext@));
                        let rest0 = spec_parse_ext_list(rem);
                        if rest0 is Ok {
                            let rem2 = whole.subrange(7 * (i + 1) as int, whole.len() as int);
                            if spec_parse_ext_list(rem2) is Ok {
                                assert(exts_view(old_exts) + rest0->Ok_0 =~= exts_view(
                                    extensions@,
                                ) + spec_parse_ext_list(rem2)->Ok_0);
                            }
                        }
                    }
                    i = i + 1;
                },
                Err(e) => {
                    proof {
                        assert(spec_parse_ext_list(rem) == Err::<Seq<ExtensionView>, ParseError>(
                            e,
                        ));
                        assert(spec_parse_ext_list(whole) == Err::<Seq<ExtensionView>, ParseError>(
                            e,
                        ));
                        assert(spec_parse_ext_def(line@) == Err::<ExtensionDefView, ParseError>(e));
                    }
                    return Err(e);
                },
            }
        }
        proof {
            let rem = whole.subrange(7 * i as int, whole.len() as int);
            assert(rem.len() == 0);
            assert(rem =~= Seq::<char>::empty());
            assert(exts_view(extensions@) + Seq::<ExtensionView>::empty() =~= exts_view(
                extensions@,
            ));
        }
        Ok(ExtensionDefRecord { num_extensions: num_extensions as u8, extensions })
    }

    /// Renders this record led by the given kind letter.
    pub fn format_with(&self, letter: char) -> (r: String)
        requires
            ext_def_fmt_wf(self@),
        ensures
            r@ == spec_format_ext_def(self@, letter),
    {
        format_def(letter, self.num_extensions, &self.extensions)
    }
}

/// Renders an extension definition record from its parts, led by the given
/// kind letter.
pub fn format_def<'a>(letter: char, num_extensions: u8, extensions: &Vec<Extension<'a>>) -> (r:
    String)
    requires
        num_extensions == extensions@.len(),
        extensions@.len() <= 99,
        forall|i: int|
            0 <= i < extensions@.len() ==> range_fmt_wf(
                #[trigger] exts_view(extensions@)[i].range,
            ),
    ensures
        r@ == spec_format_ext_def(
            ExtensionDefView { num_extensions, extensions: exts_view(extensions@) },
            letter,
        ),
{
    proof {
        lemma_pow10_values();
    }
    let mut out = String::new();
    crate::util::text::push_char(&mut out, letter);
    push_num(&mut out, num_extensions as u32, 2);
    let ghost head = out@;
    let ghost views = exts_view(extensions@);
    let mut i: usize = 0;
    proof {
        assert(out@ =~= head + spec_format_ext_list(views.subrange(0, 0)));
    }
    while i < extensions.len()
        invariant
            i <= extensions@.len(),
            extensions@.len() <= 99,
            views == exts_view(extensions@),
            forall|k: int| 0 <= k < views.len() ==> range_fmt_wf(#[trigger] views[k].range),
            out@ == head + spec_format_ext_list(views.subrange(0, i as int)),
        decreases extensions@.len() - i as int,
    {
        proof {
            assert(views[i as int] == extensions@[i as int]@);
            assert(range_fmt_wf(views[i as int].range));
        }
        let piece = extensions[i].format();
        out.append(piece.as_str());
        proof {
            lemma_format_ext_list_snoc(views, i as int);
        }
        i = i + 1;
    }
    proof {
        assert(views.subrange(0, views.len() as int) =~= views);
        assert(head + spec_format_ext_list(views) =~= spec_format_ext_def(
            ExtensionDefView { num_extensions, extensions: views },
            letter,
        ));
    }
    out
}

/// Appending one definition to a rendered prefix extends the rendering by
/// that definition.
pub proof fn lemma_format_ext_list_snoc(es: Seq<ExtensionView>, i: int)
    requires
        0 <= i < es.len(),
    ensures
        spec_format_ext_list(es.subrange(0, i + 1)) == spec_format_ext_list(es.subrange(0, i))
            + spec_format_extension(es[i]),
    decreases i,
{
    let a = es.subrange(0, i + 1);
    let b = es.subrange(0, i);
    if i == 0 {
        assert(a.len() == 1);
        assert(a[0] == es[0]);
        assert(a.subrange(1, 1) =~= Seq::<ExtensionView>::empty());
        assert(spec_format_ext_list(Seq::<ExtensionView>::empty()) =~= Seq::<char>::empty());
        assert(spec_format_ext_list(a) =~= spec_format_extension(es[0]) + Seq::<char>::empty());
        assert(spec_format_ext_list(b) =~= Seq::<char>::empty());
        assert(spec_format_ext_list(a) =~= spec_format_ext_list(b) + spec_format_extension(es[0]));
    } else {
        let tail = es.subrange(1, es.len() as int);
        lemma_format_ext_list_snoc(tail, i - 1);
        assert(a[0] == es[0]);
        assert(b[0] == es[0]);
        assert(a.subrange(1, a.len() as int) =~= tail.subrange(0, i));
        assert(b.subrange(1, b.len() as int) =~= tail.subrange(0, i - 1));
        assert(tail[i - 1] == es[i]);
        assert(spec_format_ext_list(a) =~= spec_format_extension(es[0]) + (spec_format_ext_list(
            tail.subrange(0, i - 1),
        ) + spec_format_extension(es[i])));
        assert(spec_format_ext_list(b) + spec_format_extension(es[i]) =~= spec_format_extension(
            es[0],
        ) + (spec_format_ext_list(tail.subrange(0, i - 1)) + spec_format_extension(es[i])));
    }
}

/// Decoding the canonical rendering of a well-formed definition record
/// yields it back.
pub proof fn lemma_ext_def_round_trip(d: ExtensionDefView, letter: char)
    requires
        ext_def_wf(d),
        letter == 'I' || letter == 'J',
    ensures
        spec_parse_ext_def(spec_format_ext_def(d, letter)) == Ok::<ExtensionDefView, ParseError>(d),
        spec_format_ext_def(d, letter).len() == 3 + 7 * d.extensions.len(),
        is_ascii_chars(spec_format_ext_def(d, letter)),
        spec_format_ext_def(d, letter)[0] == letter,
{
    let s = spec_format_ext_def(d, letter);
    lemma_pow10_values();
    lemma_num_str_val(d.num_extensions as int, 2);
    lemma_ext_list_round_trip(d.extensions);
    assert(s.subrange(1, 3) =~= num_str(d.num_extensions as int, 2));
    assert(s.subrange(3, s.len() as int) =~= spec_format_ext_list(d.extensions));
    assert forall|i: int| 0 <= i < s.len() implies '\0' <= #[trigger] s[i] <= '\u{7f}' by {
        if i == 0 {
            assert(s[i] == letter);
        } else if i < 3 {
            assert(s[i] == num_str(d.num_extensions as int, 2)[i - 1]);
            assert(crate::util::text::is_digit(s[i]));
        } else {
            assert(s[i] == spec_format_ext_list(d.extensions)[i - 3]);
        }
    }
}


/// Every decoded run of extension definitions is well formed: one
/// definition per seven characters, each with renderable columns in
/// order and a three-character mnemonic.
pub proof fn lemma_parse_ext_list_wf(s: Seq<char>)
    requires
        is_ascii_chars(s),
        spec_parse_ext_list(s) is Ok,
    ensures
        spec_parse_ext_list(s)->Ok_0.len() * 7 == s.len(),
        forall|i: int|
            0 <= i < spec_parse_ext_list(s)->Ok_0.len() ==> ext_wf(
                #[trigger] spec_parse_ext_list(s)->Ok_0[i],
            ),
    decreases s.len(),
{
    if s.len() > 0 {
        let chunk = s.subrange(0, 7);
        let e = spec_parse_extension(chunk)->Ok_0;
        let rest_s = s.subrange(7, s.len() as int);
        assert(ext_wf(e)) by {
            crate::util::text::lemma_digits_val_bound(chunk.subrange(0, 4).subrange(0, 2));
            crate::util::text::lemma_digits_val_bound(chunk.subrange(0, 4).subrange(2, 4));
            lemma_pow10_values();
            let m = chunk.subrange(4, 7);
            assert(forall|i: int| 0 <= i < 3 ==> #[trigger] m[i] == s[i + 4]);
        }
        assert(is_ascii_chars(rest_s)) by {
            assert(forall|i: int|
                0 <= i < rest_s.len() ==> #[trigger] rest_s[i] == s[i + 7]);
        }
        lemma_parse_ext_list_wf(rest_s);
        let es = spec_parse_ext_list(s)->Ok_0;
        let rest = spec_parse_ext_list(rest_s)->Ok_0;
        assert(es =~= seq![e] + rest);
        assert forall|i: int| 0 <= i < es.len() implies ext_wf(#[trigger] es[i]) by {
            if i > 0 {
                assert(es[i] == rest[i - 1]);
            }
        }
    }
}

/// Every decoded definition record is well formed: the declared count
/// matches the definitions, so the round trip law covers the decoder's
/// whole image.
pub proof fn lemma_parse_ext_def_wf(s: Seq<char>)
    requires
        spec_parse_ext_def(s) is Ok,
    ensures
        ext_def_wf(spec_parse_ext_def(s)->Ok_0),
{
    crate::util::text::lemma_digits_val_bound(s.subrange(1, 3));
    lemma_pow10_values();
    let body = s.subrange(3, s.len() as int);
    assert(is_ascii_chars(body)) by {
        assert(forall|i: int| 0 <= i < body.len() ==> #[trigger] body[i] == s[i + 3]);
    }
    lemma_parse_ext_list_wf(body);
}

} // verus!
