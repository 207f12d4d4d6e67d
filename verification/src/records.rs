//! Low level record parsing API.
//!
//! `Record::parse_line` performs a minimal parsing of a single IGC file
//! line, and every decoded record renders back to its canonical line
//! through `format`.

use vstd::prelude::*;

pub mod a_record;
pub mod b_record;
pub mod c_record;
pub mod d_record;
pub mod e_record;
pub mod extension;
pub mod f_record;
pub mod g_record;
pub mod h_record;
pub mod i_record;
pub mod j_record;
pub mod k_record;
pub mod l_record;

pub use self::a_record::ARecord;
pub use self::b_record::BRecord;
pub use self::b_record::FixValid;
pub use self::c_record::CRecordDeclaration;
pub use self::c_record::CRecordTurnpoint;
pub use self::d_record::DRecord;
pub use self::d_record::GpsQualifier;
pub use self::e_record::ERecord;
pub use self::extension::Extendable;
pub use self::extension::Extension;
pub use self::extension::ExtensionDefRecord;
pub use self::extension::ExtensionRange;
pub use self::f_record::FRecord;
pub use self::f_record::SatelliteArray;
pub use self::f_record::SatelliteArrayIter;
pub use self::g_record::GRecord;
pub use self::h_record::DataSource;
pub use self::h_record::HRecord;
pub use self::i_record::IRecord;
pub use self::j_record::JRecord;
pub use self::k_record::KRecord;
pub use self::l_record::LRecord;

use self::a_record::a_wf;
use self::a_record::spec_format_a;
use self::a_record::spec_parse_a;
use self::a_record::ARecordView;
use self::b_record::b_wf;
use self::b_record::spec_format_b;
use self::b_record::spec_parse_b;
use self::b_record::BRecordView;
use self::c_record::c_declaration_wf;
use self::c_record::c_turnpoint_wf;
use self::c_record::spec_format_c_declaration;
use self::c_record::spec_format_c_turnpoint;
use self::c_record::spec_parse_c_declaration;
use self::c_record::spec_parse_c_turnpoint;
use self::c_record::CDeclarationView;
use self::c_record::CTurnpointView;
use self::d_record::d_wf;
use self::d_record::spec_format_d;
use self::d_record::spec_parse_d;
use self::d_record::DRecordView;
use self::e_record::e_wf;
use self::e_record::spec_format_e;
use self::e_record::spec_parse_e;
use self::e_record::ERecordView;
use self::extension::ext_def_fmt_wf;
use self::extension::ext_def_wf;
use self::extension::spec_format_ext_def;
use self::extension::spec_parse_ext_def;
use self::extension::ExtensionDefView;
use self::f_record::f_wf;
use self::f_record::spec_format_f;
use self::f_record::spec_parse_f;
use self::f_record::FRecordView;
use self::g_record::spec_format_g;
use self::g_record::spec_parse_g;
use self::g_record::GRecordView;
use self::h_record::h_wf;
use self::h_record::spec_format_h;
use self::h_record::spec_parse_h;
use self::h_record::HRecordView;
use self::k_record::k_wf;
use self::k_record::spec_format_k;
use self::k_record::spec_parse_k;
use self::k_record::KRecordView;
use self::l_record::spec_format_l;
use self::l_record::spec_parse_l;
use self::l_record::LRecordView;
use crate::util::parse_error::ParseError;

verus! {

/// Sum type of all possible records in an IGC file.
#[derive(Debug, PartialEq, Eq)]
pub enum Record<'a> {
    A(ARecord<'a>),
    B(BRecord<'a>),
    CDeclaration(CRecordDeclaration<'a>),
    CTurnpoint(CRecordTurnpoint<'a>),
    D(DRecord<'a>),
    E(ERecord<'a>),
    F(FRecord<'a>),
    G(GRecord<'a>),
    H(HRecord<'a>),
    I(IRecord<'a>),
    J(JRecord<'a>),
    K(KRecord<'a>),
    L(LRecord<'a>),
    /// Wildcard record type, containing the line that wasn't recognised.
    Unrecognised(&'a str),
}

/// The mathematical value of a decoded line.
pub ghost enum RecordView {
    A(ARecordView),
    B(BRecordView),
    CDeclaration(CDeclarationView),
    CTurnpoint(CTurnpointView),
    D(DRecordView),
    E(ERecordView),
    F(FRecordView),
    G(GRecordView),
    H(HRecordView),
    I(ExtensionDefView),
    J(ExtensionDefView),
    K(KRecordView),
    L(LRecordView),
    Unrecognised(Seq<char>),
}

impl<'a> View for Record<'a> {
    type V = RecordView;

    open spec fn view(&self) -> RecordView {
        match self {
            Record::A(r) => RecordView::A(r@),
            Record::B(r) => RecordView::B(r@),
            Record::CDeclaration(r) => RecordView::CDeclaration(r@),
            Record::CTurnpoint(r) => RecordView::CTurnpoint(r@),
            Record::D(r) => RecordView::D(r@),
            Record::E(r) => RecordView::E(r@),
            Record::F(r) => RecordView::F(r@),
            Record::G(r) => RecordView::G(r@),
            Record::H(r) => RecordView::H(r@),
            Record::I(r) => RecordView::I(r@),
            Record::J(r) => RecordView::J(r@),
            Record::K(r) => RecordView::K(r@),
            Record::L(r) => RecordView::L(r@),
            Record::Unrecognised(l) => RecordView::Unrecognised(l@),
        }
    }
}

/// True when `c` selects one of the thirteen known record kinds.
pub open spec fn known_kind_letter(c: char) -> bool {
    c == 'A' || c == 'B' || c == 'C' || c == 'D' || c == 'E' || c == 'F' || c == 'G' || c == 'H'
        || c == 'I' || c == 'J' || c == 'K' || c == 'L'
}

/// What decoding one line yields: the first character selects the kind,
/// a `C`-led line is disambiguated by its ninth character, and a line of
/// no known kind is carried through unrecognised rather than rejected.
pub open spec fn spec_parse_line(s: Seq<char>) -> Result<RecordView, ParseError> {
    if s.len() == 0 {
        Err(ParseError::SyntaxError)
    } else if s[0] == 'A' {
        match spec_parse_a(s) {
            Ok(v) => Ok(RecordView::A(v)),
            Err(e) => Err(e),
        }
    } else if s[0] == 'B' {
        match spec_parse_b(s) {
            Ok(v) => Ok(RecordView::B(v)),
            Err(e) => Err(e),
        }
    } else if s[0] == 'C' {
        // In a turnpoint C record, the ninth character is the N/S of the
        // latitude; in a declaration it is a digit of the declaration
        // time.
        if s.len() < 9 {
            Err(ParseError::SyntaxError)
        } else if s[8] == 'N' || s[8] == 'S' {
            match spec_parse_c_turnpoint(s) {
                Ok(v) => Ok(RecordView::CTurnpoint(v)),
                Err(e) => Err(e),
            }
        } else {
            match spec_parse_c_declaration(s) {
                Ok(v) => Ok(RecordView::CDeclaration(v)),
                Err(e) => Err(e),
            }
        }
    } else if s[0] == 'D' {
        match spec_parse_d(s) {
            Ok(v) => Ok(RecordView::D(v)),
            Err(e) => Err(e),
        }
    } else if s[0] == 'E' {
        match spec_parse_e(s) {
            Ok(v) => Ok(RecordView::E(v)),
            Err(e) => Err(e),
        }
    } else if s[0] == 'F' {
        match spec_parse_f(s) {
            Ok(v) => Ok(RecordView::F(v)),
            Err(e) => Err(e),
        }
    } else if s[0] == 'G' {
        match spec_parse_g(s) {
            Ok(v) => Ok(RecordView::G(v)),
            Err(e) => Err(e),
        }
    } else if s[0] == 'H' {
        match spec_parse_h(s) {
            Ok(v) => Ok(RecordView::H(v)),
            Err(e) => Err(e),
        }
    } else if s[0] == 'I' {
        match spec_parse_ext_def(s) {
            Ok(v) => Ok(RecordView::I(v)),
            Err(e) => Err(e),
        }
    } else if s[0] == 'J' {
        match spec_parse_ext_def(s) {
            Ok(v) => Ok(RecordView::J(v)),
            Err(e) => Err(e),
        }
    } else if s[0] == 'K' {
        match spec_parse_k(s) {
            Ok(v) => Ok(RecordView::K(v)),
            Err(e) => Err(e),
        }
    } else if s[0] == 'L' {
        match spec_parse_l(s) {
            Ok(v) => Ok(RecordView::L(v)),
            Err(e) => Err(e),
        }
    } else {
        Ok(RecordView::Unrecognised(s))
    }
}

/// The canonical rendering of a decoded line.
pub open spec fn spec_format_record(v: RecordView) -> Seq<char> {
    match v {
        RecordView::A(r) => spec_format_a(r),
        RecordView::B(r) => spec_format_b(r),
        RecordView::CDeclaration(r) => spec_format_c_declaration(r),
        RecordView::CTurnpoint(r) => spec_format_c_turnpoint(r),
        RecordView::D(r) => spec_format_d(r),
        RecordView::E(r) => spec_format_e(r),
        RecordView::F(r) => spec_format_f(r),
        RecordView::G(r) => spec_format_g(r),
        RecordView::H(r) => spec_format_h(r),
        RecordView::I(r) => spec_format_ext_def(r, 'I'),
        RecordView::J(r) => spec_format_ext_def(r, 'J'),
        RecordView::K(r) => spec_format_k(r),
        RecordView::L(r) => spec_format_l(r),
        RecordView::Unrecognised(l) => l,
    }
}

/// What rendering a record needs of each kind: every numeric field fits
/// its fixed-width column. Weaker than `rec_wf`: every decoded record
/// satisfies it, including an identification record whose vendor came as
/// a single-character legacy code.
pub open spec fn rec_fmt_wf(v: RecordView) -> bool {
    match v {
        RecordView::A(_) => true,
        RecordView::B(r) => {
            &&& crate::util::datetime::time_wf(r.timestamp)
            &&& crate::util::coord::pos_wf(r.pos)
            &&& -9999 <= r.pressure_alt
            &&& -9999 <= r.gps_alt
        },
        RecordView::CDeclaration(r) => {
            &&& crate::util::datetime::date_wf(r.date)
            &&& crate::util::datetime::time_wf(r.time)
            &&& crate::util::datetime::date_wf(r.flight_date)
            &&& r.task_id <= 9999
            &&& -9 <= r.turnpoint_count <= 99
        },
        RecordView::CTurnpoint(r) => crate::util::coord::pos_wf(r.position),
        RecordView::D(_) => true,
        RecordView::E(r) => crate::util::datetime::time_wf(r.time),
        RecordView::F(r) => crate::util::datetime::time_wf(r.time),
        RecordView::G(_) => true,
        RecordView::H(_) => true,
        RecordView::I(r) => ext_def_fmt_wf(r),
        RecordView::J(r) => ext_def_fmt_wf(r),
        RecordView::K(r) => crate::util::datetime::time_wf(r.time),
        RecordView::L(_) => true,
        RecordView::Unrecognised(_) => true,
    }
}

/// A record value whose rendering decodes back to itself: each kind's own
/// well-formedness, and for an unrecognised line a non-empty body led by
/// no known kind letter.
pub open spec fn rec_wf(v: RecordView) -> bool {
    match v {
        RecordView::A(r) => a_wf(r),
        RecordView::B(r) => b_wf(r),
        RecordView::CDeclaration(r) => c_declaration_wf(r),
        RecordView::CTurnpoint(r) => c_turnpoint_wf(r),
        RecordView::D(r) => d_wf(r),
        RecordView::E(r) => e_wf(r),
        RecordView::F(r) => f_wf(r),
        RecordView::G(r) => true,
        RecordView::H(r) => h_wf(r),
        RecordView::I(r) => ext_def_wf(r),
        RecordView::J(r) => ext_def_wf(r),
        RecordView::K(r) => k_wf(r),
        RecordView::L(r) => true,
        RecordView::Unrecognised(l) => l.len() >= 1 && !known_kind_letter(l[0]),
    }
}

impl<'a> Record<'a> {
    /// Perform a minimal parsing of a single IGC file line.
    ///
    /// Every line, however malformed, yields a `Result`: an unrecognised
    /// leading character is a valid `Unrecognised` outcome, not an error.
    pub fn parse_line(line: &'a str) -> (r: Result<Self, ParseError>)
        ensures
            match r {
                Ok(rec) => spec_parse_line(line@) == Ok::<RecordView, ParseError>(rec@),
                Err(e) => spec_parse_line(line@) == Err::<RecordView, ParseError>(e),
            },
    {
        if line.is_empty() {
            return Err(ParseError::SyntaxError);
        }
        let c = line.get_char(0);
        if c == 'A' {
            match ARecord::parse(line) {
                Ok(r) => Ok(Record::A(r)),
                Err(e) => Err(e),
            }
        } else if c == 'B' {
            match BRecord::parse(line) {
                Ok(r) => Ok(Record::B(r)),
                Err(e) => Err(e),
            }
        } else if c == 'C' {
            if line.unicode_len() < 9 {
                return Err(ParseError::SyntaxError);
            }
            let c8 = line.get_char(8);
            if c8 == 'N' || c8 == 'S' {
                match CRecordTurnpoint::parse(line) {
                    Ok(r) => Ok(Record::CTurnpoint(r)),
                    Err(e) => Err(e),
                }
            } else {
                match CRecordDeclaration::parse(line) {
                    Ok(r) => Ok(Record::CDeclaration(r)),
                    Err(e) => Err(e),
                }
            }
        } else if c == 'D' {
            match DRecord::parse(line) {
                Ok(r) => Ok(Record::D(r)),
                Err(e) => Err(e),
            }
        } else if c == 'E' {
            match ERecord::parse(line) {
                Ok(r) => Ok(Record::E(r)),
                Err(e) => Err(e),
            }
        } else if c == 'F' {
            match FRecord::parse(line) {
                Ok(r) => Ok(Record::F(r)),
                Err(e) => Err(e),
            }
        } else if c == 'G' {
            match GRecord::parse(line) {
                Ok(r) => Ok(Record::G(r)),
                Err(e) => Err(e),
            }
        } else if c == 'H' {
            match HRecord::parse(line) {
                Ok(r) => Ok(Record::H(r)),
                Err(e) => Err(e),
            }
        } else if c == 'I' {
            match IRecord::parse(line) {
                Ok(r) => Ok(Record::I(r)),
                Err(e) => Err(e),
            }
        } else if c == 'J' {
            match JRecord::parse(line) {
                Ok(r) => Ok(Record::J(r)),
                Err(e) => Err(e),
            }
        } else if c == 'K' {
            match KRecord::parse(line) {
                Ok(r) => Ok(Record::K(r)),
                Err(e) => Err(e),
            }
        } else if c == 'L' {
            match LRecord::parse(line) {
                Ok(r) => Ok(Record::L(r)),
                Err(e) => Err(e),
            }
        } else {
            Ok(Record::Unrecognised(line))
        }
    }

    /// Renders this record as it should appear in an IGC file.
    pub fn format(&self) -> (r: String)
        requires
            rec_fmt_wf(self@),
        ensures
            r@ == spec_format_record(self@),
    {
        match self {
            Record::A(r) => r.format(),
            Record::B(r) => r.format(),
            Record::CDeclaration(r) => r.format(),
            Record::CTurnpoint(r) => r.format(),
            Record::D(r) => r.format(),
            Record::E(r) => r.format(),
            Record::F(r) => r.format(),
            Record::G(r) => r.format(),
            Record::H(r) => r.format(),
            Record::I(r) => r.format(),
            Record::J(r) => r.format(),
            Record::K(r) => r.format(),
            Record::L(r) => r.format(),
            Record::Unrecognised(l) => {
                let mut out = String::new();
                out.append(l);
                proof {
                    assert(out@ =~= spec_format_record(self@));
                }
                out
            },
        }
    }
}

/// Round trip: decoding the canonical rendering of any well-formed record
/// value of any kind yields the value back.
pub proof fn lemma_record_round_trip(v: RecordView)
    requires
        rec_wf(v),
    ensures
        spec_parse_line(spec_format_record(v)) == Ok::<RecordView, ParseError>(v),
{
    let s = spec_format_record(v);
    match v {
        RecordView::A(r) => {
            self::a_record::lemma_a_round_trip(r);
        },
        RecordView::B(r) => {
            self::b_record::lemma_b_round_trip(r);
        },
        RecordView::CDeclaration(r) => {
            self::c_record::lemma_c_declaration_round_trip(r);
        },
        RecordView::CTurnpoint(r) => {
            self::c_record::lemma_c_turnpoint_round_trip(r);
        },
        RecordView::D(r) => {
            self::d_record::lemma_d_round_trip(r);
        },
        RecordView::E(r) => {
            self::e_record::lemma_e_round_trip(r);
        },
        RecordView::F(r) => {
            self::f_record::lemma_f_round_trip(r);
        },
        RecordView::G(r) => {
            self::g_record::lemma_g_round_trip(r);
        },
        RecordView::H(r) => {
            self::h_record::lemma_h_round_trip(r);
        },
        RecordView::I(r) => {
            self::extension::lemma_ext_def_round_trip(r, 'I');
        },
        RecordView::J(r) => {
            self::extension::lemma_ext_def_round_trip(r, 'J');
        },
        RecordView::K(r) => {
            self::k_record::lemma_k_round_trip(r);
        },
        RecordView::L(r) => {
            self::l_record::lemma_l_round_trip(r);
        },
        RecordView::Unrecognised(l) => {
        },
    }
}

/// Idempotent formatting: rendering, decoding and rendering again gives
/// the same text as rendering once.
pub proof fn lemma_format_idempotent(v: RecordView)
    requires
        rec_wf(v),
    ensures
        spec_parse_line(spec_format_record(v)) is Ok,
        spec_format_record(spec_parse_line(spec_format_record(v))->Ok_0) == spec_format_record(v),
{
    lemma_record_round_trip(v);
}


/// Every decoded record is well formed, with one exception: an
/// identification record whose vendor was written as a single-character
/// legacy code. Such a vendor re-renders through its three-character
/// code, so only that shape of decoded value falls outside the round
/// trip law.
pub proof fn lemma_decoded_records_wf(s: Seq<char>)
    requires
        spec_parse_line(s) is Ok,
    ensures
        rec_fmt_wf(spec_parse_line(s)->Ok_0),
        ({
            let v = spec_parse_line(s)->Ok_0;
            rec_wf(v) || (v matches RecordView::A(a) && a.manufacturer is UnknownSingle)
        }),
{
    let v = spec_parse_line(s)->Ok_0;
    match v {
        RecordView::A(a) => {
            if !(a.manufacturer is UnknownSingle) {
                self::a_record::lemma_parse_a_wf(s);
            }
        },
        RecordView::B(_) => {
            self::b_record::lemma_parse_b_wf(s);
        },
        RecordView::CDeclaration(_) => {
            self::c_record::lemma_parse_c_declaration_wf(s);
        },
        RecordView::CTurnpoint(_) => {
            self::c_record::lemma_parse_c_turnpoint_wf(s);
        },
        RecordView::D(_) => {
            self::d_record::lemma_parse_d_wf(s);
        },
        RecordView::E(_) => {
            self::e_record::lemma_parse_e_wf(s);
        },
        RecordView::F(_) => {
            self::f_record::lemma_parse_f_wf(s);
        },
        RecordView::G(_) => {
        },
        RecordView::H(_) => {
            self::h_record::lemma_parse_h_wf(s);
        },
        RecordView::I(_) => {
            self::extension::lemma_parse_ext_def_wf(s);
        },
        RecordView::J(_) => {
            self::extension::lemma_parse_ext_def_wf(s);
        },
        RecordView::K(_) => {
            self::k_record::lemma_parse_k_wf(s);
        },
        RecordView::L(_) => {
        },
        RecordView::Unrecognised(_) => {
        },
    }
}

} // verus!
