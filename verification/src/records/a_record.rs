//! The flight-recorder identification record, with its three historical
//! layouts.

use vstd::prelude::*;

use crate::util::manufacturer::man_wf_triple;
use crate::util::manufacturer::spec_parse_single;
use crate::util::manufacturer::spec_parse_triple;
use crate::util::manufacturer::spec_to_triple;
use crate::util::manufacturer::Manufacturer;
use crate::util::manufacturer::ManufacturerView;
use crate::util::parse_error::ParseError;
use crate::util::text::all_digits;
use crate::util::text::ascii_prefix;
use crate::util::text::is_ascii_chars;
use crate::util::text::is_digit;
use crate::util::text::push_char;

verus! {

/// Represents the flight-recorder identification record.
#[derive(Clone, Debug, PartialEq, Eq)]
pub struct ARecord<'a> {
    pub manufacturer: Manufacturer<'a>,
    pub unique_id: &'a str,
    pub id_extension: Option<&'a str>,
}

/// The mathematical value of an identification record.
pub ghost struct ARecordView {
    pub manufacturer: ManufacturerView,
    pub unique_id: Seq<char>,
    pub id_extension: Option<Seq<char>>,
}

impl<'a> View for ARecord<'a> {
    type V = ARecordView;

    open spec fn view(&self) -> ARecordView {
        ARecordView {
            manufacturer: self.manufacturer@,
            unique_id: self.unique_id@,
            id_extension: match self.id_extension {
                Some(e) => Some(e@),
                None => None,
            },
        }
    }
}

/// Whether a line matches the oldest layout: a single-character vendor
/// code followed by a five-digit serial number.
pub open spec fn a_single_layout(s: Seq<char>) -> bool {
    all_digits(s.subrange(2, 7))
}

/// Whether a line matches the middle layout: a three-character vendor
/// code followed by a five-digit serial number.
pub open spec fn a_triple_serial_layout(s: Seq<char>) -> bool {
    s.len() >= 9 && all_digits(s.subrange(4, 9))
}

/// What decoding an A-led line yields. The three historical layouts are
/// tried in priority order: single-character code with five-digit serial,
/// three-character code with five-digit serial, then the current
/// three-character code with three-character id.
pub open spec fn spec_parse_a(s: Seq<char>) -> Result<ARecordView, ParseError> {
    if s.len() < 7 {
        Err(ParseError::SyntaxError)
    } else if a_single_layout(s) {
        if !(s[1] <= '\u{7f}') {
            Err(ParseError::NonASCIICharacters)
        } else {
            Ok(ARecordView {
                manufacturer: spec_parse_single(s[1] as u8),
                unique_id: s.subrange(2, 7),
                id_extension: if s.len() > 7 {
                    Some(s.subrange(7, s.len() as int))
                } else {
                    None
                },
            })
        }
    } else if a_triple_serial_layout(s) {
        if !is_ascii_chars(s.subrange(0, 4)) {
            Err(ParseError::NonASCIICharacters)
        } else {
            Ok(ARecordView {
                manufacturer: spec_parse_triple(s.subrange(1, 4)),
                unique_id: s.subrange(4, 9),
                id_extension: if s.len() > 9 {
                    Some(s.subrange(9, s.len() as int))
                } else {
                    None
                },
            })
        }
    } else if !is_ascii_chars(s.subrange(0, 7)) {
        Err(ParseError::NonASCIICharacters)
    } else {
        Ok(ARecordView {
            manufacturer: spec_parse_triple(s.subrange(1, 4)),
            unique_id: s.subrange(4, 7),
            id_extension: if s.len() > 7 {
                Some(s.subrange(7, s.len() as int))
            } else {
                None
            },
        })
    }
}

/// The canonical rendering of an identification record: the vendor's
/// three-character code where it has one, nothing otherwise.
pub open spec fn spec_format_a(v: ARecordView) -> Seq<char> {
    seq!['A'] + (match spec_to_triple(v.manufacturer) {
        Some(t) => t,
        None => Seq::empty(),
    }) + v.unique_id + (match v.id_extension {
        Some(e) => e,
        None => Seq::empty(),
    })
}

/// An identification record value whose rendering decodes back to
/// itself. The vendor renders through a three-character code; the id is
/// either the current three-character form or a five-digit legacy serial;
/// and the rendered line must not mimic an older layout than the one it
/// came from, which the two final clauses rule out.
pub open spec fn a_wf(v: ARecordView) -> bool {
    let t = spec_to_triple(v.manufacturer)->Some_0;
    &&& man_wf_triple(v.manufacturer)
    &&& is_ascii_chars(v.unique_id)
    &&& (v.unique_id.len() == 3 || (v.unique_id.len() == 5 && all_digits(v.unique_id)))
    &&& match v.id_extension {
        Some(e) => e.len() >= 1,
        None => true,
    }
    &&& !(is_digit(t[1]) && is_digit(t[2]) && is_digit(v.unique_id[0]) && is_digit(v.unique_id[1])
        && is_digit(v.unique_id[2]))
    &&& !(v.unique_id.len() == 3 && all_digits(v.unique_id) && match v.id_extension {
        Some(e) => e.len() >= 2 && is_digit(e[0]) && is_digit(e[1]),
        None => false,
    })
}

impl<'a> ARecord<'a> {
    pub fn new(
        manufacturer: Manufacturer<'a>,
        unique_id: &'a str,
        id_extension: Option<&'a str>,
    ) -> (r: ARecord<'a>)
        ensures
            r == (ARecord { manufacturer, unique_id, id_extension }),
    {
        ARecord { manufacturer, unique_id, id_extension }
    }

    /// Parse an IGC A record string.
    pub fn parse(line: &'a str) -> (r: Result<Self, ParseError>)
        requires
            line@.len() > 0,
            line@[0] == 'A',
        ensures
            match r {
                Ok(a) => spec_parse_a(line@) == Ok::<ARecordView, ParseError>(a@),
                Err(e) => spec_parse_a(line@) == Err::<ARecordView, ParseError>(e),
            },
    {
        let len = line.unicode_len();
        if len < 7 {
            return Err(ParseError::SyntaxError);
        }
        // Oldest layout, e.g. `AC00069`: all known loggers that used it
        // carry numeric serial numbers, which is the heuristic that
        // detects it.
        if digits_window(line, 2, 7) {
            let man_char = line.get_char(1);
            if !(man_char as u32 <= 127) {
                return Err(ParseError::NonASCIICharacters);
            }
            let manufacturer = Manufacturer::parse_single_char(man_char as u8);
            let unique_id = line.substring_char(2, 7);
            let id_extension = if len > 7 {
                Some(line.substring_char(7, len))
            } else {
                None
            };
            return Ok(ARecord { manufacturer, unique_id, id_extension });
        }
        // Middle layout with a three-letter code, e.g. `AFIL01460FLIGHT:1`,
        // detected by the same numeric-serial heuristic.
        if len >= 9 && digits_window(line, 4, 9) {
            if !ascii_prefix(line, 4) {
                return Err(ParseError::NonASCIICharacters);
            }
            let manufacturer = Manufacturer::parse_triple_char(line.substring_char(1, 4));
            let unique_id = line.substring_char(4, 9);
            let id_extension = if len > 9 {
                Some(line.substring_char(9, len))
            } else {
                None
            };
            return Ok(ARecord { manufacturer, unique_id, id_extension });
        }
        if !ascii_prefix(line, 7) {
            return Err(ParseError::NonASCIICharacters);
        }
        let manufacturer = Manufacturer::parse_triple_char(line.substring_char(1, 4));
        let unique_id = line.substring_char(4, 7);
        let id_extension = if len > 7 {
            Some(line.substring_char(7, len))
        } else {
            None
        };
        Ok(ARecord { manufacturer, unique_id, id_extension })
    }

    /// Renders this record as it should appear in an IGC file.
    pub fn format(&self) -> (r: String)
        ensures
            r@ == spec_format_a(self@),
    {
        let mut out = String::new();
        push_char(&mut out, 'A');
        match self.manufacturer.to_triple_char() {
            Some(t) => out.append(t),
            None => (),
        }
        out.append(self.unique_id);
        match self.id_extension {
            Some(e) => out.append(e),
            None => (),
        }
        proof {
            assert(out@ =~= spec_format_a(self@));
        }
        out
    }
}

/// True when the characters of `s` in `[from, to)` are all decimal
/// digits.
fn digits_window(s: &str, from: usize, to: usize) -> (r: bool)
    requires
        from <= to <= s@.len(),
        s@.len() <= usize::MAX,
    ensures
        r == all_digits(s@.subrange(from as int, to as int)),
{
    let ghost win = s@.subrange(from as int, to as int);
    let mut i: usize = from;
    while i < to
        invariant
            from <= i <= to,
            to <= s@.len(),
            s@.len() <= usize::MAX,
            win == s@.subrange(from as int, to as int),
            forall|j: int| 0 <= j < i - from ==> is_digit(#[trigger] win[j]),
        decreases to - i,
    {
        let c = s.get_char(i);
        proof {
            assert(win[i - from] == c);
        }
        let u: u32 = c as u32;
        if !(48 <= u && u <= 57) {
            proof {
                assert(!is_digit(win[i - from]));
            }
            return false;
        }
        i = i + 1;
    }
    true
}

/// Decoding the canonical rendering of a well-formed identification
/// record yields it back.
pub proof fn lemma_a_round_trip(v: ARecordView)
    requires
        a_wf(v),
    ensures
        spec_format_a(v)[0] == 'A',
        spec_format_a(v).len() >= 7,
        spec_parse_a(spec_format_a(v)) == Ok::<ARecordView, ParseError>(v),
{
    let s = spec_format_a(v);
    let t = spec_to_triple(v.manufacturer)->Some_0;
    let id = v.unique_id;
    let ext = match v.id_extension {
        Some(e) => e,
        None => Seq::<char>::empty(),
    };
    crate::util::manufacturer::lemma_manufacturer_round_trip(v.manufacturer);
    assert(s =~= seq!['A'] + t + id + ext);
    assert(s.len() == 4 + id.len() + ext.len());
    assert(s.subrange(1, 4) =~= t);
    assert(forall|i: int| 0 <= i < t.len() ==> #[trigger] s[1 + i] == t[i]);
    assert(forall|i: int| 0 <= i < id.len() ==> #[trigger] s[4 + i] == id[i]);
    assert(forall|i: int| 0 <= i < ext.len() ==> #[trigger] s[4 + id.len() + i] == ext[i]);
    if id.len() == 5 {
        // The serial is five digits, so the middle layout fires; the
        // oldest cannot, because the vendor code holds a non-digit.
        assert(s[2] == t[1] && s[3] == t[2]);
        assert(s[4] == id[0] && s[5] == id[1] && s[6] == id[2]);
        assert(!a_single_layout(s)) by {
            assert(!(is_digit(t[1]) && is_digit(t[2])));
            let w = s.subrange(2, 7);
            if all_digits(w) {
                assert(is_digit(w[0]) && is_digit(w[1]));
            }
        }
        assert(a_triple_serial_layout(s)) by {
            let w = s.subrange(4, 9);
            assert(forall|i: int| 0 <= i < 5 ==> w[i] == #[trigger] id[i]);
        }
        assert(is_ascii_chars(s.subrange(0, 4))) by {
            let w = s.subrange(0, 4);
            assert(w[0] == 'A' && w[1] == t[0] && w[2] == t[1] && w[3] == t[2]);
        }
        assert(s.subrange(4, 9) =~= id);
        assert(spec_parse_triple(s.subrange(1, 4)) == v.manufacturer);
        match v.id_extension {
            Some(e) => {
                assert(s.len() > 9);
                assert(s.subrange(9, s.len() as int) =~= e);
            },
            None => {
                assert(s.len() == 9);
            },
        }
    } else {
        // The current layout: neither serial heuristic may fire.
        assert(s[2] == t[1] && s[3] == t[2]);
        assert(s[4] == id[0] && s[5] == id[1] && s[6] == id[2]);
        assert(!a_single_layout(s)) by {
            let w = s.subrange(2, 7);
            if all_digits(w) {
                assert(is_digit(w[0]) && is_digit(w[1]) && is_digit(w[2]) && is_digit(w[3])
                    && is_digit(w[4]));
            }
        }
        assert(!a_triple_serial_layout(s)) by {
            if s.len() >= 9 {
                let w = s.subrange(4, 9);
                assert(ext.len() >= 2);
                assert(w[0] == id[0] && w[1] == id[1] && w[2] == id[2]);
                assert(w[3] == ext[0] && w[4] == ext[1]);
                if all_digits(w) {
                    assert(is_digit(w[0]) && is_digit(w[1]) && is_digit(w[2]) && is_digit(w[3])
                        && is_digit(w[4]));
                    assert(all_digits(id)) by {
                        assert(forall|i: int| 0 <= i < 3 ==> #[trigger] id[i] == w[i]);
                    }
                }
            }
        }
        assert(is_ascii_chars(s.subrange(0, 7))) by {
            let w = s.subrange(0, 7);
            assert(w[0] == 'A' && w[1] == t[0] && w[2] == t[1] && w[3] == t[2]);
            assert(w[4] == id[0] && w[5] == id[1] && w[6] == id[2]);
        }
        assert(s.subrange(4, 7) =~= id);
        assert(spec_parse_triple(s.subrange(1, 4)) == v.manufacturer);
        match v.id_extension {
            Some(e) => {
                assert(s.len() > 7);
                assert(s.subrange(7, s.len() as int) =~= e);
            },
            None => {
                assert(s.len() == 7);
            },
        }
    }
}


/// Every decoded identification record whose vendor is not the one-letter
/// legacy form is well formed, so the round trip law covers it. A vendor
/// recorded by a single-character code re-renders through its
/// three-character code, so that one layout does not reproduce its line.
pub proof fn lemma_parse_a_wf(s: Seq<char>)
    requires
        spec_parse_a(s) is Ok,
        !(spec_parse_a(s)->Ok_0.manufacturer is UnknownSingle),
    ensures
        a_wf(spec_parse_a(s)->Ok_0),
{
    let v = spec_parse_a(s)->Ok_0;
    let t = spec_to_triple(v.manufacturer)->Some_0;
    if a_single_layout(s) {
        crate::util::manufacturer::lemma_known_vendor_codes(v.manufacturer);
        let id = s.subrange(2, 7);
        assert forall|i: int| 0 <= i < id.len() implies '\0' <= #[trigger] id[i]
            <= '\u{7f}' by {
            assert(is_digit(id[i]));
        }
    } else {
        let code = s.subrange(1, 4);
        if !(v.manufacturer is UnknownTriple) {
            crate::util::manufacturer::lemma_known_vendor_codes(v.manufacturer);
            crate::util::manufacturer::lemma_parse_triple_inverse(code);
        }
        assert(t == code);
        if a_triple_serial_layout(s) {
            let id = s.subrange(4, 9);
            assert forall|i: int| 0 <= i < id.len() implies '\0' <= #[trigger] id[i]
                <= '\u{7f}' by {
                assert(is_digit(id[i]));
            }
            assert(is_ascii_chars(code)) by {
                assert(forall|i: int|
                    0 <= i < 3 ==> #[trigger] code[i] == s.subrange(0, 4)[i + 1]);
            }
            assert(!(is_digit(t[1]) && is_digit(t[2]) && is_digit(id[0]) && is_digit(id[1])
                && is_digit(id[2]))) by {
                let w = s.subrange(2, 7);
                assert(!all_digits(w));
                let j = choose|j: int| 0 <= j < w.len() && !is_digit(#[trigger] w[j]);
                assert(w[0] == t[1] && w[1] == t[2]);
                assert(w[2] == id[0] && w[3] == id[1] && w[4] == id[2]);
            }
        } else {
            let id = s.subrange(4, 7);
            assert(is_ascii_chars(code)) by {
                assert(forall|i: int|
                    0 <= i < 3 ==> #[trigger] code[i] == s.subrange(0, 7)[i + 1]);
            }
            assert(is_ascii_chars(id)) by {
                assert(forall|i: int|
                    0 <= i < 3 ==> #[trigger] id[i] == s.subrange(0, 7)[i + 4]);
            }
            assert(!(is_digit(t[1]) && is_digit(t[2]) && is_digit(id[0]) && is_digit(id[1])
                && is_digit(id[2]))) by {
                let w = s.subrange(2, 7);
                assert(!all_digits(w));
                let j = choose|j: int| 0 <= j < w.len() && !is_digit(#[trigger] w[j]);
                assert(w[0] == t[1] && w[1] == t[2]);
                assert(w[2] == id[0] && w[3] == id[1] && w[4] == id[2]);
            }
            if s.len() > 7 {
                let e = s.subrange(7, s.len() as int);
                if e.len() >= 2 && all_digits(id) && is_digit(e[0]) && is_digit(e[1]) {
                    let w = s.subrange(4, 9);
                    assert(s.len() >= 9);
                    assert(!all_digits(w));
                    let j = choose|j: int| 0 <= j < w.len() && !is_digit(#[trigger] w[j]);
                    assert(w[0] == id[0] && w[1] == id[1] && w[2] == id[2]);
                    assert(w[3] == e[0] && w[4] == e[1]);
                    assert(false);
                }
            }
        }
    }
}

} // verus!
