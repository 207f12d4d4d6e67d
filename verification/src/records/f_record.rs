//! The satellite constellation record.

use vstd::prelude::*;

use crate::util::datetime::spec_format_time;
use crate::util::datetime::spec_parse_time;
use crate::util::datetime::time_wf;
use crate::util::datetime::Time;
use crate::util::parse_error::ParseError;
use crate::util::text::is_ascii_chars;
use crate::util::text::push_char;

verus! {

/// A record indicating a change in the satellite constellation being used.
#[derive(Clone, Debug, PartialEq, Eq)]
pub struct FRecord<'a> {
    pub time: Time,
    pub satellites: SatelliteArray<'a>,
}

/// The mathematical value of a constellation record.
pub ghost struct FRecordView {
    pub time: Time,
    pub satellites: Seq<char>,
}

impl<'a> View for FRecord<'a> {
    type V = FRecordView;

    open spec fn view(&self) -> FRecordView {
        FRecordView { time: self.time, satellites: self.satellites@ }
    }
}

/// The domain of a decoded constellation record: an even run of ASCII
/// two-character satellite ids.
pub open spec fn f_wf(v: FRecordView) -> bool {
    &&& time_wf(v.time)
    &&& v.satellites.len() % 2 == 0
    &&& is_ascii_chars(v.satellites)
}

/// What decoding an F-led line yields: a time and an even-length list of
/// two-character satellite ids.
pub open spec fn spec_parse_f(s: Seq<char>) -> Result<FRecordView, ParseError> {
    if s.len() < 7 {
        Err(ParseError::SyntaxError)
    } else if !is_ascii_chars(s) {
        Err(ParseError::NonASCIICharacters)
    } else {
        match spec_parse_time(s.subrange(1, 7)) {
            Err(e) => Err(e),
            Ok(time) => {
                if (s.len() - 7) % 2 != 0 {
                    Err(ParseError::SyntaxError)
                } else {
                    Ok(FRecordView { time, satellites: s.subrange(7, s.len() as int) })
                }
            },
        }
    }
}

/// The canonical rendering of a constellation record.
pub open spec fn spec_format_f(v: FRecordView) -> Seq<char> {
    seq!['F'] + spec_format_time(v.time) + v.satellites
}

impl<'a> FRecord<'a> {
    /// Parse an IGC F record string.
    pub fn parse(line: &'a str) -> (r: Result<Self, ParseError>)
        ensures
            match r {
                Ok(f) => spec_parse_f(line@) == Ok::<FRecordView, ParseError>(f@),
                Err(e) => spec_parse_f(line@) == Err::<FRecordView, ParseError>(e),
            },
    {
        let len = line.unicode_len();
        if len < 7 {
            return Err(ParseError::SyntaxError);
        }
        if !line.is_ascii() {
            return Err(ParseError::NonASCIICharacters);
        }
        let time = match Time::parse(line.substring_ascii(1, 7)) {
            Ok(t) => t,
            Err(e) => { return Err(e) },
        };
        let array_str = line.substring_ascii(7, len);
        if (len - 7) % 2 != 0 {
            return Err(ParseError::SyntaxError);
        }
        let satellites = SatelliteArray::new(array_str);
        Ok(FRecord { time, satellites })
    }

    /// Renders this record as it should appear in an IGC file.
    pub fn format(&self) -> (r: String)
        requires
            time_wf(self.time),
        ensures
            r@ == spec_format_f(self@),
    {
        let mut out = String::new();
        push_char(&mut out, 'F');
        let time_str = self.time.format();
        out.append(time_str.as_str());
        out.append(self.satellites.raw_str);
        proof {
            assert(out@ =~= spec_format_f(self@));
        }
        out
    }
}

/// The even-length run of two-character satellite ids carried by an F
/// record.
#[derive(Clone, Debug, PartialEq, Eq)]
pub struct SatelliteArray<'a> {
    raw_str: &'a str,
}

impl<'a> View for SatelliteArray<'a> {
    type V = Seq<char>;

    closed spec fn view(&self) -> Seq<char> {
        self.raw_str@
    }
}

impl<'a> SatelliteArray<'a> {
    pub fn new(raw_str: &'a str) -> (r: Self)
        requires
            raw_str@.len() % 2 == 0,
        ensures
            r@ == raw_str@,
    {
        Self { raw_str }
    }

    /// Walks the two-character satellite ids in order.
    pub fn iter(&self) -> (r: SatelliteArrayIter<'a>)
        requires
            self@.len() % 2 == 0,
        ensures
            r.wf(),
            r@ == self@,
            r.position() == 0,
    {
        SatelliteArrayIter { index: 0, raw_str: self.raw_str }
    }
}

/// A cursor over the satellite ids of a `SatelliteArray`.
pub struct SatelliteArrayIter<'a> {
    index: usize,
    raw_str: &'a str,
}

impl<'a> View for SatelliteArrayIter<'a> {
    type V = Seq<char>;

    closed spec fn view(&self) -> Seq<char> {
        self.raw_str@
    }
}

impl<'a> SatelliteArrayIter<'a> {
    /// The cursor stands on an id boundary inside the run.
    pub closed spec fn wf(&self) -> bool {
        &&& self.raw_str@.len() % 2 == 0
        &&& self.index % 2 == 0
        &&& self.index <= self.raw_str@.len()
    }

    /// How far the cursor has advanced, in characters.
    pub closed spec fn position(&self) -> int {
        self.index as int
    }

    /// The next two-character satellite id, or `None` at the end of the
    /// run.
    pub fn next(&mut self) -> (r: Option<&'a str>)
        requires
            old(self).wf(),
        ensures
            final(self).wf(),
            final(self)@ == old(self)@,
            match r {
                Some(id) => {
                    &&& old(self).position() + 2 <= old(self)@.len()
                    &&& id@ == old(self)@.subrange(old(self).position(), old(self).position() + 2)
                    &&& final(self).position() == old(self).position() + 2
                },
                None => {
                    &&& old(self).position() == old(self)@.len()
                    &&& final(self).position() == old(self).position()
                },
            },
    {
        let n = self.raw_str.unicode_len();
        if self.index >= n {
            return None;
        }
        let ret = self.raw_str.substring_char(self.index, self.index + 2);
        self.index = self.index + 2;
        Some(ret)
    }
}

/// Decoding the canonical rendering of a well-formed constellation record
/// yields it back.
pub proof fn lemma_f_round_trip(v: FRecordView)
    requires
        f_wf(v),
    ensures
        spec_format_f(v)[0] == 'F',
        spec_format_f(v).len() >= 7,
        spec_parse_f(spec_format_f(v)) == Ok::<FRecordView, ParseError>(v),
{
    let s = spec_format_f(v);
    let t = spec_format_time(v.time);
    crate::util::text::lemma_pow10_values();
    crate::util::datetime::lemma_time_round_trip(v.time);
    crate::util::text::lemma_num_str_val(v.time.hours as int, 2);
    crate::util::text::lemma_num_str_val(v.time.minutes as int, 2);
    crate::util::text::lemma_num_str_val(v.time.seconds as int, 2);
    assert(t.len() == 6);
    assert(s.subrange(1, 7) =~= t);
    assert(s.subrange(7, s.len() as int) =~= v.satellites);
    assert(is_ascii_chars(t));
    assert forall|i: int| 0 <= i < s.len() implies '\0' <= #[trigger] s[i] <= '\u{7f}' by {
        if i == 0 {
            assert(s[i] == 'F');
        } else if i < 7 {
            assert(s[i] == t[i - 1]);
        } else {
            assert(s[i] == v.satellites[i - 7]);
        }
    }
}


/// Every decoded constellation record is well formed, so the round trip
/// law covers the decoder's whole image.
pub proof fn lemma_parse_f_wf(s: Seq<char>)
    requires
        spec_parse_f(s) is Ok,
    ensures
        f_wf(spec_parse_f(s)->Ok_0),
{
    crate::util::datetime::lemma_parse_time_wf(s.subrange(1, 7));
    let sats = s.subrange(7, s.len() as int);
    assert forall|i: int| 0 <= i < sats.len() implies '\0' <= #[trigger] sats[i] <= '\u{7f}' by {
        assert(sats[i] == s[i + 7]);
    }
}

} // verus!
