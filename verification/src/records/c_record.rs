//! The task records: a declaration describing a whole task, and a
//! turnpoint giving one of its locations.

use vstd::prelude::*;

use crate::util::coord::pos_wf;
use crate::util::coord::spec_format_pos;
use crate::util::coord::spec_parse_pos;
use crate::util::coord::RawPosition;
use crate::util::datetime::date_wf;
use crate::util::datetime::spec_format_date;
use crate::util::datetime::spec_format_time;
use crate::util::datetime::spec_parse_date;
use crate::util::datetime::spec_parse_time;
use crate::util::datetime::time_wf;
use crate::util::datetime::Date;
use crate::util::datetime::Time;
use crate::util::parse_error::ParseError;
use crate::util::text::all_digits;
use crate::util::text::ascii_prefix;
use crate::util::text::digits_val;
use crate::util::text::is_ascii_chars;
use crate::util::text::num_str;
use crate::util::text::parse_i8_2;
use crate::util::text::parse_num;
use crate::util::text::push_char;
use crate::util::text::push_i8_2;
use crate::util::text::push_num;
use crate::util::text::spec_format_i8_2;
use crate::util::text::spec_parse_i8_2;

verus! {

/// The first flavour of C record: a task record which defines some
/// properties of the whole task.
///
/// A conforming file containing a task declaration holds a declaration,
/// immediately followed by (turnpoint_count + 4) turnpoints: the four
/// extra ones are the takeoff and landing locations and the task start
/// and finish locations.
#[derive(Clone, Debug, PartialEq, Eq)]
pub struct CRecordDeclaration<'a> {
    pub date: Date,
    pub time: Time,
    pub flight_date: Date,
    pub task_id: u16,
    pub turnpoint_count: i8,
    pub task_name: Option<&'a str>,
}

/// The mathematical value of a task declaration.
pub ghost struct CDeclarationView {
    pub date: Date,
    pub time: Time,
    pub flight_date: Date,
    pub task_id: u16,
    pub turnpoint_count: i8,
    pub task_name: Option<Seq<char>>,
}

impl<'a> View for CRecordDeclaration<'a> {
    type V = CDeclarationView;

    open spec fn view(&self) -> CDeclarationView {
        CDeclarationView {
            date: self.date,
            time: self.time,
            flight_date: self.flight_date,
            task_id: self.task_id,
            turnpoint_count: self.turnpoint_count,
            task_name: match self.task_name {
                Some(t) => Some(t@),
                None => None,
            },
        }
    }
}

/// The domain of a decoded task declaration: the task id fits its four
/// columns, the count its two, and an absent name is `None`, never empty.
pub open spec fn c_declaration_wf(v: CDeclarationView) -> bool {
    &&& date_wf(v.date)
    &&& time_wf(v.time)
    &&& date_wf(v.flight_date)
    &&& v.task_id <= 9999
    &&& -9 <= v.turnpoint_count <= 99
    &&& match v.task_name {
        Some(t) => t.len() >= 1,
        None => true,
    }
}

/// What decoding a declaration-flavoured C line yields.
pub open spec fn spec_parse_c_declaration(s: Seq<char>) -> Result<CDeclarationView, ParseError> {
    if s.len() < 25 {
        Err(ParseError::SyntaxError)
    } else if !is_ascii_chars(s.subrange(0, 25)) {
        Err(ParseError::NonASCIICharacters)
    } else {
        match spec_parse_date(s.subrange(1, 7)) {
            Err(e) => Err(e),
            Ok(date) => match spec_parse_time(s.subrange(7, 13)) {
                Err(e) => Err(e),
                Ok(time) => match spec_parse_date(s.subrange(13, 19)) {
                    Err(e) => Err(e),
                    Ok(flight_date) => {
                        if !all_digits(s.subrange(19, 23)) {
                            Err(ParseError::SyntaxError)
                        } else {
                            match spec_parse_i8_2(s.subrange(23, 25)) {
                                None => Err(ParseError::SyntaxError),
                                Some(turnpoint_count) => Ok(CDeclarationView {
                                    date,
                                    time,
                                    flight_date,
                                    task_id: digits_val(s.subrange(19, 23)) as u16,
                                    turnpoint_count: turnpoint_count as i8,
                                    task_name: if s.len() > 25 {
                                        Some(s.subrange(25, s.len() as int))
                                    } else {
                                        None
                                    },
                                }),
                            }
                        }
                    },
                },
            },
        }
    }
}

/// The canonical rendering of a task declaration.
pub open spec fn spec_format_c_declaration(v: CDeclarationView) -> Seq<char> {
    seq!['C'] + spec_format_date(v.date) + spec_format_time(v.time) + spec_format_date(
        v.flight_date,
    ) + num_str(v.task_id as int, 4) + spec_format_i8_2(v.turnpoint_count as int) + match v
        .task_name {
        Some(t) => t,
        None => Seq::empty(),
    }
}

impl<'a> CRecordDeclaration<'a> {
    /// Parse a string as a C record task declaration.
    pub fn parse(line: &'a str) -> (r: Result<Self, ParseError>)
        requires
            line@.len() > 0,
            line@[0] == 'C',
        ensures
            match r {
                Ok(c) => spec_parse_c_declaration(line@) == Ok::<CDeclarationView, ParseError>(c@),
                Err(e) => spec_parse_c_declaration(line@) == Err::<CDeclarationView, ParseError>(e),
            },
    {
        let len = line.unicode_len();
        if len < 25 {
            return Err(ParseError::SyntaxError);
        }
        if !ascii_prefix(line, 25) {
            return Err(ParseError::NonASCIICharacters);
        }
        let date = match Date::parse(line.substring_char(1, 7)) {
            Ok(d) => d,
            Err(e) => { return Err(e) },
        };
        let time = match Time::parse(line.substring_char(7, 13)) {
            Ok(t) => t,
            Err(e) => { return Err(e) },
        };
        let flight_date = match Date::parse(line.substring_char(13, 19)) {
            Ok(d) => d,
            Err(e) => { return Err(e) },
        };
        let task_id = match parse_num(line, 19, 4) {
            Some(v) => v as u16,
            None => { return Err(ParseError::SyntaxError) },
        };
        let turnpoint_count = match parse_i8_2(line, 23) {
            Some(v) => v,
            None => { return Err(ParseError::SyntaxError) },
        };
        let task_name = if len > 25 {
            Some(line.substring_char(25, len))
        } else {
            None
        };
        proof {
            crate::util::text::lemma_pow10_values();
        }
        Ok(CRecordDeclaration { date, time, flight_date, task_id, turnpoint_count, task_name })
    }

    /// Renders this record as it should appear in an IGC file.
    pub fn format(&self) -> (r: String)
        requires
            date_wf(self.date),
            time_wf(self.time),
            date_wf(self.flight_date),
            self.task_id <= 9999,
            -9 <= self.turnpoint_count <= 99,
        ensures
            r@ == spec_format_c_declaration(self@),
    {
        proof {
            crate::util::text::lemma_pow10_values();
        }
        let mut out = String::new();
        push_char(&mut out, 'C');
        let date_str = self.date.format();
        out.append(date_str.as_str());
        let time_str = self.time.format();
        out.append(time_str.as_str());
        let flight_date_str = self.flight_date.format();
        out.append(flight_date_str.as_str());
        push_num(&mut out, self.task_id as u32, 4);
        push_i8_2(&mut out, self.turnpoint_count);
        match self.task_name {
            Some(t) => out.append(t),
            None => (),
        }
        proof {
            assert(out@ =~= spec_format_c_declaration(self@));
        }
        out
    }
}

/// Decoding the canonical rendering of a well-formed task declaration
/// yields it back.
pub proof fn lemma_c_declaration_round_trip(v: CDeclarationView)
    requires
        c_declaration_wf(v),
    ensures
        spec_format_c_declaration(v)[0] == 'C',
        spec_format_c_declaration(v).len() >= 25,
        !(spec_format_c_declaration(v)[8] == 'N' || spec_format_c_declaration(v)[8] == 'S'),
        spec_parse_c_declaration(spec_format_c_declaration(v)) == Ok::<
            CDeclarationView,
            ParseError,
        >(v),
{
    let s = spec_format_c_declaration(v);
    let d1 = spec_format_date(v.date);
    let t = spec_format_time(v.time);
    let d2 = spec_format_date(v.flight_date);
    let tid = num_str(v.task_id as int, 4);
    let tc = spec_format_i8_2(v.turnpoint_count as int);
    crate::util::text::lemma_pow10_values();
    crate::util::datetime::lemma_date_round_trip(v.date);
    crate::util::datetime::lemma_time_round_trip(v.time);
    crate::util::datetime::lemma_date_round_trip(v.flight_date);
    crate::util::text::lemma_num_str_val(v.task_id as int, 4);
    crate::util::text::lemma_i8_2_round_trip(v.turnpoint_count as int);
    crate::util::text::lemma_num_str_val(v.date.day as int, 2);
    crate::util::text::lemma_num_str_val(v.date.month as int, 2);
    crate::util::text::lemma_num_str_val(v.date.year as int, 2);
    crate::util::text::lemma_num_str_val(v.time.hours as int, 2);
    crate::util::text::lemma_num_str_val(v.time.minutes as int, 2);
    crate::util::text::lemma_num_str_val(v.time.seconds as int, 2);
    crate::util::text::lemma_num_str_val(v.flight_date.day as int, 2);
    crate::util::text::lemma_num_str_val(v.flight_date.month as int, 2);
    crate::util::text::lemma_num_str_val(v.flight_date.year as int, 2);
    assert(d1.len() == 6 && t.len() == 6 && d2.len() == 6 && tid.len() == 4 && tc.len() == 2);
    assert(s.subrange(1, 7) =~= d1);
    assert(s.subrange(7, 13) =~= t);
    assert(s.subrange(13, 19) =~= d2);
    assert(s.subrange(19, 23) =~= tid);
    assert(s.subrange(23, 25) =~= tc);
    assert(is_ascii_chars(d1) && is_ascii_chars(t) && is_ascii_chars(d2));
    assert forall|i: int| 0 <= i < 25 implies '\0' <= #[trigger] s.subrange(0, 25)[i]
        <= '\u{7f}' by {
        let c = s.subrange(0, 25)[i];
        if i == 0 {
            assert(c == 'C');
        } else if i < 7 {
            assert(c == d1[i - 1]);
        } else if i < 13 {
            assert(c == t[i - 7]);
        } else if i < 19 {
            assert(c == d2[i - 13]);
        } else if i < 23 {
            assert(c == tid[i - 19]);
            assert(crate::util::text::is_digit(c));
        } else {
            assert(c == tc[i - 23]);
        }
    }
    assert(s[8] == t[1]);
    assert(crate::util::text::is_digit(t[1]));
    match v.task_name {
        Some(n) => {
            assert(s.subrange(25, s.len() as int) =~= n);
        },
        None => {
            assert(s.len() == 25);
        },
    }
}

/// The second flavour of C record: a start, turn or end point for a task.
#[derive(Clone, Debug, PartialEq, Eq)]
pub struct CRecordTurnpoint<'a> {
    pub position: RawPosition,
    pub turnpoint_name: Option<&'a str>,
}

/// The mathematical value of a task turnpoint.
pub ghost struct CTurnpointView {
    pub position: RawPosition,
    pub turnpoint_name: Option<Seq<char>>,
}

impl<'a> View for CRecordTurnpoint<'a> {
    type V = CTurnpointView;

    open spec fn view(&self) -> CTurnpointView {
        CTurnpointView {
            position: self.position,
            turnpoint_name: match self.turnpoint_name {
                Some(t) => Some(t@),
                None => None,
            },
        }
    }
}

/// The domain of a decoded turnpoint: an absent name is `None`, never
/// empty.
pub open spec fn c_turnpoint_wf(v: CTurnpointView) -> bool {
    &&& pos_wf(v.position)
    &&& match v.turnpoint_name {
        Some(t) => t.len() >= 1,
        None => true,
    }
}

/// What decoding a turnpoint-flavoured C line yields.
pub open spec fn spec_parse_c_turnpoint(s: Seq<char>) -> Result<CTurnpointView, ParseError> {
    if s.len() < 18 {
        Err(ParseError::SyntaxError)
    } else if !is_ascii_chars(s.subrange(0, 18)) {
        Err(ParseError::NonASCIICharacters)
    } else {
        match spec_parse_pos(s.subrange(1, 18)) {
            Err(e) => Err(e),
            Ok(position) => Ok(CTurnpointView {
                position,
                turnpoint_name: if s.len() > 18 {
                    Some(s.subrange(18, s.len() as int))
                } else {
                    None
                },
            }),
        }
    }
}

/// The canonical rendering of a task turnpoint.
pub open spec fn spec_format_c_turnpoint(v: CTurnpointView) -> Seq<char> {
    seq!['C'] + spec_format_pos(v.position) + match v.turnpoint_name {
        Some(t) => t,
        None => Seq::empty(),
    }
}

impl<'a> CRecordTurnpoint<'a> {
    /// Parse a string as a C record task turnpoint.
    pub fn parse(line: &'a str) -> (r: Result<Self, ParseError>)
        requires
            line@.len() > 0,
            line@[0] == 'C',
        ensures
            match r {
                Ok(c) => spec_parse_c_turnpoint(line@) == Ok::<CTurnpointView, ParseError>(c@),
                Err(e) => spec_parse_c_turnpoint(line@) == Err::<CTurnpointView, ParseError>(e),
            },
    {
        let len = line.unicode_len();
        if len < 18 {
            return Err(ParseError::SyntaxError);
        }
        if !ascii_prefix(line, 18) {
            return Err(ParseError::NonASCIICharacters);
        }
        let position = match RawPosition::parse(line.substring_char(1, 18)) {
            Ok(p) => p,
            Err(e) => { return Err(e) },
        };
        let turnpoint_name = if len > 18 {
            Some(line.substring_char(18, len))
        } else {
            None
        };
        Ok(CRecordTurnpoint { position, turnpoint_name })
    }

    /// Renders this record as it should appear in an IGC file.
    pub fn format(&self) -> (r: String)
        requires
            pos_wf(self.position),
        ensures
            r@ == spec_format_c_turnpoint(self@),
    {
        let mut out = String::new();
        push_char(&mut out, 'C');
        let pos_str = self.position.format();
        out.append(pos_str.as_str());
        match self.turnpoint_name {
            Some(t) => out.append(t),
            None => (),
        }
        proof {
            assert(out@ =~= spec_format_c_turnpoint(self@));
        }
        out
    }
}

/// Decoding the canonical rendering of a well-formed turnpoint yields it
/// back.
pub proof fn lemma_c_turnpoint_round_trip(v: CTurnpointView)
    requires
        c_turnpoint_wf(v),
    ensures
        spec_format_c_turnpoint(v)[0] == 'C',
        spec_format_c_turnpoint(v).len() >= 18,
        spec_format_c_turnpoint(v)[8] == 'N' || spec_format_c_turnpoint(v)[8] == 'S',
        spec_parse_c_turnpoint(spec_format_c_turnpoint(v)) == Ok::<CTurnpointView, ParseError>(v),
{
    let s = spec_format_c_turnpoint(v);
    let p = spec_format_pos(v.position);
    crate::util::text::lemma_pow10_values();
    crate::util::coord::lemma_pos_round_trip(v.position);
    crate::util::text::lemma_num_str_val(v.position.lat.0.degrees as int, 2);
    crate::util::text::lemma_num_str_val(v.position.lat.0.minute_thousandths as int, 5);
    crate::util::text::lemma_num_str_val(v.position.lon.0.degrees as int, 3);
    crate::util::text::lemma_num_str_val(v.position.lon.0.minute_thousandths as int, 5);
    assert(p.len() == 17);
    assert(s.subrange(1, 18) =~= p);
    assert(is_ascii_chars(p));
    assert forall|i: int| 0 <= i < 18 implies '\0' <= #[trigger] s.subrange(0, 18)[i]
        <= '\u{7f}' by {
        let c = s.subrange(0, 18)[i];
        if i == 0 {
            assert(c == 'C');
        } else {
            assert(c == p[i - 1]);
        }
    }
    assert(s[8] == p[7]);
    assert(p[7] == crate::util::coord::compass_char(v.position.lat.0.sign));
    match v.turnpoint_name {
        Some(n) => {
            assert(s.subrange(18, s.len() as int) =~= n);
        },
        None => {
            assert(s.len() == 18);
        },
    }
}


/// Every decoded task declaration is well formed, so the round trip law
/// covers the decoder's whole image.
pub proof fn lemma_parse_c_declaration_wf(s: Seq<char>)
    requires
        spec_parse_c_declaration(s) is Ok,
    ensures
        c_declaration_wf(spec_parse_c_declaration(s)->Ok_0),
{
    crate::util::datetime::lemma_parse_date_wf(s.subrange(1, 7));
    crate::util::datetime::lemma_parse_time_wf(s.subrange(7, 13));
    crate::util::datetime::lemma_parse_date_wf(s.subrange(13, 19));
    crate::util::text::lemma_digits_val_bound(s.subrange(19, 23));
    crate::util::text::lemma_pow10_values();
    crate::util::text::lemma_parse_i8_2_bounds(s.subrange(23, 25));
}

/// Every decoded task turnpoint is well formed, so the round trip law
/// covers the decoder's whole image.
pub proof fn lemma_parse_c_turnpoint_wf(s: Seq<char>)
    requires
        spec_parse_c_turnpoint(s) is Ok,
    ensures
        c_turnpoint_wf(spec_parse_c_turnpoint(s)->Ok_0),
{
    crate::util::coord::lemma_parse_pos_wf(s.subrange(1, 18));
}

} // verus!
