//! Character-level helpers shared by all field codecs: decimal digit
//! sequences of a fixed width, and their zero-padded rendering.

use vstd::prelude::*;

pub use vstd::utf8::is_ascii_chars;

verus! {

/// True for the ten decimal digit characters.
pub open spec fn is_digit(c: char) -> bool {
    '0' <= c && c <= '9'
}

/// Numeric value of a decimal digit character.
pub open spec fn digit_val(c: char) -> int {
    c as u32 - '0' as u32
}

/// The decimal digit character for a value in `0..10`.
pub open spec fn digit_char(d: int) -> char {
    if d == 0 {
        '0'
    } else if d == 1 {
        '1'
    } else if d == 2 {
        '2'
    } else if d == 3 {
        '3'
    } else if d == 4 {
        '4'
    } else if d == 5 {
        '5'
    } else if d == 6 {
        '6'
    } else if d == 7 {
        '7'
    } else if d == 8 {
        '8'
    } else {
        '9'
    }
}

/// True when every character of `s` is a decimal digit.
pub open spec fn all_digits(s: Seq<char>) -> bool {
    forall|i: int| 0 <= i < s.len() ==> is_digit(#[trigger] s[i])
}

/// Value of a digit sequence read as a base-ten number.
pub open spec fn digits_val(s: Seq<char>) -> int
    decreases s.len(),
{
    if s.len() == 0 {
        0
    } else {
        digits_val(s.drop_last()) * 10 + digit_val(s.last())
    }
}

/// Ten to the power `n`.
pub open spec fn pow10(n: nat) -> int
    decreases n,
{
    if n == 0 {
        1
    } else {
        10 * pow10((n - 1) as nat)
    }
}

/// The `width`-character zero-padded decimal rendering of `v`.
pub open spec fn num_str(v: int, width: nat) -> Seq<char>
    decreases width,
{
    if width == 0 {
        Seq::empty()
    } else {
        num_str(v / 10, (width - 1) as nat).push(digit_char(v % 10))
    }
}

/// The value of each small power of ten, unfolded once and for all.
pub proof fn lemma_pow10_values()
    ensures
        pow10(0) == 1,
        pow10(1) == 10,
        pow10(2) == 100,
        pow10(3) == 1000,
        pow10(4) == 10000,
        pow10(5) == 100000,
        pow10(6) == 1000000,
        pow10(7) == 10000000,
        pow10(8) == 100000000,
        pow10(9) == 1000000000,
{
    assert(pow10(0) == 1);
    assert(pow10(1) == 10);
    assert(pow10(2) == 100);
    assert(pow10(3) == 1000);
    assert(pow10(4) == 10000);
    assert(pow10(5) == 100000);
    assert(pow10(6) == 1000000);
    assert(pow10(7) == 10000000);
    assert(pow10(8) == 100000000);
    assert(pow10(9) == 1000000000);
}

pub proof fn lemma_digit_char_val(d: int)
    requires
        0 <= d < 10,
    ensures
        is_digit(digit_char(d)),
        digit_val(digit_char(d)) == d,
{
}

/// A run of digits reads as a value below ten to its length.
pub proof fn lemma_digits_val_bound(s: Seq<char>)
    requires
        all_digits(s),
    ensures
        0 <= digits_val(s) < pow10(s.len()),
    decreases s.len(),
{
    if s.len() > 0 {
        assert(forall|i: int| 0 <= i < s.len() - 1 ==> s.drop_last()[i] == #[trigger] s[i]);
        lemma_digits_val_bound(s.drop_last());
    }
}

/// Rendering a number of `width` digits and reading it back yields the number.
pub proof fn lemma_num_str_val(v: int, width: nat)
    requires
        0 <= v < pow10(width),
    ensures
        num_str(v, width).len() == width,
        all_digits(num_str(v, width)),
        is_ascii_chars(num_str(v, width)),
        digits_val(num_str(v, width)) == v,
    decreases width,
{
    if width > 0 {
        lemma_num_str_val(v / 10, (width - 1) as nat);
        let s = num_str(v, width);
        assert(s.drop_last() =~= num_str(v / 10, (width - 1) as nat));
        assert(s.last() == digit_char(v % 10));
        lemma_digit_char_val(v % 10);
        assert forall|i: int| 0 <= i < s.len() implies is_digit(#[trigger] s[i]) by {
            if i < s.len() - 1 {
                assert(s[i] == num_str(v / 10, (width - 1) as nat)[i]);
            }
        }
        assert forall|i: int| 0 <= i < s.len() implies '\0' <= #[trigger] s[i] <= '\u{7f}' by {
            assert(is_digit(s[i]));
        }
    }
}

/// Reads the digit value of one character, or reports that it is no digit.
pub fn digit_of(c: char) -> (r: Option<u8>)
    ensures
        match r {
            Some(d) => is_digit(c) && d == digit_val(c),
            None => !is_digit(c),
        },
{
    let u: u32 = c as u32;
    if 48 <= u && u <= 57 {
        Some((u - 48) as u8)
    } else {
        None
    }
}

/// Reads the `count` characters of `s` starting at `start` as an unsigned
/// decimal number, or reports that the window holds a non-digit.
pub fn parse_num(s: &str, start: usize, count: usize) -> (r: Option<u32>)
    requires
        start + count <= s@.len(),
        s@.len() <= usize::MAX,
        count <= 9,
    ensures
        match r {
            Some(v) => {
                &&& all_digits(s@.subrange(start as int, start as int + count as int))
                &&& v == digits_val(s@.subrange(start as int, start as int + count as int))
                &&& v < pow10(count as nat)
            },
            None => !all_digits(s@.subrange(start as int, start as int + count as int)),
        },
{
    proof {
        lemma_pow10_values();
    }
    let mut acc: u32 = 0;
    let mut i: usize = 0;
    proof {
        assert(s@.subrange(start as int, start as int) =~= Seq::<char>::empty());
    }
    while i < count
        invariant
            0 <= i <= count,
            count <= 9,
            start + count <= s@.len(),
            s@.len() <= usize::MAX,
            all_digits(s@.subrange(start as int, start as int + i as int)),
            acc == digits_val(s@.subrange(start as int, start as int + i as int)),
            acc < pow10(i as nat),
            pow10(8) == 100000000,
            pow10(9) == 1000000000,
        decreases count - i,
    {
        proof {
            lemma_pow10_mono(i as nat, 8);
            lemma_pow10_values();
        }
        let c = s.get_char(start + i);
        match digit_of(c) {
            Some(d) => {
                acc = acc * 10 + d as u32;
                proof {
                    let pre = s@.subrange(start as int, start as int + i as int);
                    let post = s@.subrange(start as int, start as int + i as int + 1);
                    assert(post =~= pre.push(c));
                    assert(post.drop_last() =~= pre);
                }
                i = i + 1;
            },
            None => {
                proof {
                    let whole = s@.subrange(start as int, start as int + count as int);
                    assert(whole[i as int] == c);
                }
                return None;
            },
        }
    }
    Some(acc)
}

pub proof fn lemma_pow10_mono(a: nat, b: nat)
    requires
        a <= b,
    ensures
        pow10(a) <= pow10(b),
        pow10(a) >= 1,
    decreases b,
{
    if b > 0 {
        if a == b {
            lemma_pow10_mono((a - 1) as nat, (b - 1) as nat);
        } else {
            lemma_pow10_mono(a, (b - 1) as nat);
        }
    }
}

/// What reading a five-character altitude window as a signed number
/// yields: either five digits, or a sign followed by four digits; a value
/// beyond the signed sixteen-bit range is rejected.
pub open spec fn spec_parse_i16_5(s: Seq<char>) -> Option<int> {
    if s.len() != 5 {
        None
    } else if all_digits(s) {
        if digits_val(s) > 32767 {
            None
        } else {
            Some(digits_val(s))
        }
    } else if (s[0] == '-' || s[0] == '+') && all_digits(s.subrange(1, 5)) {
        if s[0] == '-' {
            Some(-digits_val(s.subrange(1, 5)))
        } else {
            Some(digits_val(s.subrange(1, 5)))
        }
    } else {
        None
    }
}

/// The five-character rendering of a signed altitude: negative values give
/// a sign and four digits.
pub open spec fn spec_format_i16_5(v: int) -> Seq<char> {
    if v >= 0 {
        num_str(v, 5)
    } else {
        seq!['-'] + num_str(-v, 4)
    }
}

/// What reading a two-character count window as a signed number yields:
/// two digits, or a sign and one digit.
pub open spec fn spec_parse_i8_2(s: Seq<char>) -> Option<int> {
    if s.len() != 2 {
        None
    } else if all_digits(s) {
        Some(digits_val(s))
    } else if (s[0] == '-' || s[0] == '+') && all_digits(s.subrange(1, 2)) {
        if s[0] == '-' {
            Some(-digits_val(s.subrange(1, 2)))
        } else {
            Some(digits_val(s.subrange(1, 2)))
        }
    } else {
        None
    }
}

/// The two-character rendering of a signed count: negative values give a
/// sign and one digit.
pub open spec fn spec_format_i8_2(v: int) -> Seq<char> {
    if v >= 0 {
        num_str(v, 2)
    } else {
        seq!['-'] + num_str(-v, 1)
    }
}

/// Reads the five characters of `s` starting at `start` as a signed
/// decimal number.
pub fn parse_i16_5(s: &str, start: usize) -> (r: Option<i16>)
    requires
        start + 5 <= s@.len(),
        s@.len() <= usize::MAX,
    ensures
        match r {
            Some(v) => spec_parse_i16_5(s@.subrange(start as int, start as int + 5)) == Some(
                v as int,
            ),
            None => spec_parse_i16_5(s@.subrange(start as int, start as int + 5)) is None,
        },
{
    proof {
        lemma_pow10_values();
    }
    let ghost win = s@.subrange(start as int, start as int + 5);
    let c0 = s.get_char(start);
    if c0 == '-' || c0 == '+' {
        proof {
            assert(win[0] == c0);
            assert(!is_digit(c0));
            assert(!all_digits(win));
            assert(win.subrange(1, 5) =~= s@.subrange(start as int + 1, start as int + 5));
        }
        match parse_num(s, start + 1, 4) {
            Some(v) => {
                if c0 == '-' {
                    Some(-(v as i16))
                } else {
                    Some(v as i16)
                }
            },
            None => None,
        }
    } else {
        proof {
            assert(win[0] == c0);
        }
        match parse_num(s, start, 5) {
            Some(v) => {
                proof {
                    assert(win =~= s@.subrange(start as int, start as int + 5));
                }
                if v > 32767 {
                    None
                } else {
                    Some(v as i16)
                }
            },
            None => {
                proof {
                    if all_digits(win) {
                        assert(false);
                    }
                }
                None
            },
        }
    }
}

/// Appends the five-character rendering of a signed altitude.
pub fn push_i16_5(s: &mut String, v: i16)
    requires
        -9999 <= v <= 32767,
    ensures
        final(s)@ == old(s)@ + spec_format_i16_5(v as int),
{
    proof {
        lemma_pow10_values();
    }
    if v >= 0 {
        push_num(s, v as u32, 5);
    } else {
        push_char(s, '-');
        push_num(s, (-(v as i32)) as u32, 4);
        proof {
            assert(old(s)@ + spec_format_i16_5(v as int) =~= (old(s)@.push('-')) + num_str(
                -(v as int),
                4,
            ));
        }
    }
}

/// Decoding the canonical rendering of an in-range signed altitude yields
/// it back.
pub proof fn lemma_i16_5_round_trip(v: int)
    requires
        -9999 <= v <= 32767,
    ensures
        spec_format_i16_5(v).len() == 5,
        is_ascii_chars(spec_format_i16_5(v)),
        spec_parse_i16_5(spec_format_i16_5(v)) == Some(v),
{
    lemma_pow10_values();
    let s = spec_format_i16_5(v);
    if v >= 0 {
        lemma_num_str_val(v, 5);
    } else {
        lemma_num_str_val(-v, 4);
        assert(s[0] == '-');
        assert(!is_digit('-'));
        assert(!all_digits(s));
        assert(s.subrange(1, 5) =~= num_str(-v, 4));
        assert forall|i: int| 0 <= i < s.len() implies '\0' <= #[trigger] s[i] <= '\u{7f}' by {
            if i >= 1 {
                assert(s[i] == num_str(-v, 4)[i - 1]);
                assert(is_digit(s[i]));
            }
        }
    }
}

/// Reads the two characters of `s` starting at `start` as a signed
/// decimal count.
pub fn parse_i8_2(s: &str, start: usize) -> (r: Option<i8>)
    requires
        start + 2 <= s@.len(),
        s@.len() <= usize::MAX,
    ensures
        match r {
            Some(v) => spec_parse_i8_2(s@.subrange(start as int, start as int + 2)) == Some(
                v as int,
            ),
            None => spec_parse_i8_2(s@.subrange(start as int, start as int + 2)) is None,
        },
{
    proof {
        lemma_pow10_values();
    }
    let ghost win = s@.subrange(start as int, start as int + 2);
    let c0 = s.get_char(start);
    if c0 == '-' || c0 == '+' {
        proof {
            assert(win[0] == c0);
            assert(!is_digit(c0));
            assert(!all_digits(win));
            assert(win.subrange(1, 2) =~= s@.subrange(start as int + 1, start as int + 2));
        }
        match parse_num(s, start + 1, 1) {
            Some(v) => {
                if c0 == '-' {
                    Some(-(v as i8))
                } else {
                    Some(v as i8)
                }
            },
            None => None,
        }
    } else {
        proof {
            assert(win[0] == c0);
        }
        match parse_num(s, start, 2) {
            Some(v) => {
                proof {
                    assert(win =~= s@.subrange(start as int, start as int + 2));
                }
                Some(v as i8)
            },
            None => {
                proof {
                    if all_digits(win) {
                        assert(false);
                    }
                }
                None
            },
        }
    }
}

/// Appends the two-character rendering of a signed count.
pub fn push_i8_2(s: &mut String, v: i8)
    requires
        -9 <= v <= 99,
    ensures
        final(s)@ == old(s)@ + spec_format_i8_2(v as int),
{
    proof {
        lemma_pow10_values();
    }
    if v >= 0 {
        push_num(s, v as u32, 2);
    } else {
        push_char(s, '-');
        push_num(s, (-(v as i32)) as u32, 1);
        proof {
            assert(old(s)@ + spec_format_i8_2(v as int) =~= (old(s)@.push('-')) + num_str(
                -(v as int),
                1,
            ));
        }
    }
}

/// Decoding the canonical rendering of an in-range signed count yields it
/// back.
pub proof fn lemma_i8_2_round_trip(v: int)
    requires
        -9 <= v <= 99,
    ensures
        spec_format_i8_2(v).len() == 2,
        is_ascii_chars(spec_format_i8_2(v)),
        spec_parse_i8_2(spec_format_i8_2(v)) == Some(v),
{
    lemma_pow10_values();
    let s = spec_format_i8_2(v);
    if v >= 0 {
        lemma_num_str_val(v, 2);
    } else {
        lemma_num_str_val(-v, 1);
        assert(s[0] == '-');
        assert(!is_digit('-'));
        assert(!all_digits(s));
        assert(s.subrange(1, 2) =~= num_str(-v, 1));
        assert forall|i: int| 0 <= i < s.len() implies '\0' <= #[trigger] s[i] <= '\u{7f}' by {
            if i >= 1 {
                assert(s[i] == num_str(-v, 1)[i - 1]);
                assert(is_digit(s[i]));
            }
        }
    }
}

/// First index at which `c` occurs in `s`, or -1 when it does not occur.
pub open spec fn find_char(s: Seq<char>, c: char) -> int
    decreases s.len(),
{
    if s.len() == 0 {
        -1
    } else if s[0] == c {
        0
    } else {
        let r = find_char(s.drop_first(), c);
        if r < 0 {
            -1
        } else {
            r + 1
        }
    }
}

/// Every decoded five-character signed altitude fits its field: five
/// digits reach the signed sixteen-bit maximum, a sign leaves four.
pub proof fn lemma_parse_i16_5_bounds(s: Seq<char>)
    requires
        spec_parse_i16_5(s) is Some,
    ensures
        -9999 <= spec_parse_i16_5(s)->0 <= 32767,
{
    lemma_pow10_values();
    if all_digits(s) {
        lemma_digits_val_bound(s);
    } else {
        lemma_digits_val_bound(s.subrange(1, 5));
    }
}

/// Every decoded two-character signed count fits its field.
pub proof fn lemma_parse_i8_2_bounds(s: Seq<char>)
    requires
        spec_parse_i8_2(s) is Some,
    ensures
        -9 <= spec_parse_i8_2(s)->0 <= 99,
{
    lemma_pow10_values();
    if all_digits(s) {
        lemma_digits_val_bound(s);
    } else {
        lemma_digits_val_bound(s.subrange(1, 2));
    }
}

/// Where `find_char` points, the character stands, and nowhere earlier.
pub proof fn lemma_find_char(s: Seq<char>, c: char)
    ensures
        find_char(s, c) < 0 ==> forall|i: int| 0 <= i < s.len() ==> #[trigger] s[i] != c,
        find_char(s, c) >= 0 ==> {
            &&& find_char(s, c) < s.len()
            &&& s[find_char(s, c)] == c
            &&& forall|i: int| 0 <= i < find_char(s, c) ==> #[trigger] s[i] != c
        },
    decreases s.len(),
{
    if s.len() > 0 && s[0] != c {
        lemma_find_char(s.drop_first(), c);
        assert(forall|i: int| 0 <= i < s.len() - 1 ==> s.drop_first()[i] == #[trigger] s[i + 1]);
        let r = find_char(s.drop_first(), c);
        if r >= 0 {
            assert(s[r + 1] == s.drop_first()[r]);
            assert forall|i: int| 0 <= i < r + 1 implies #[trigger] s[i] != c by {
                if i > 0 {
                    assert(s[i] == s.drop_first()[i - 1]);
                }
            }
        } else {
            assert forall|i: int| 0 <= i < s.len() implies #[trigger] s[i] != c by {
                if i > 0 {
                    assert(s[i] == s.drop_first()[i - 1]);
                }
            }
        }
    }
}

/// An occurrence with no earlier occurrence is where `find_char` points.
pub proof fn lemma_find_char_is(s: Seq<char>, c: char, r: int)
    requires
        0 <= r < s.len(),
        s[r] == c,
        forall|i: int| 0 <= i < r ==> #[trigger] s[i] != c,
    ensures
        find_char(s, c) == r,
    decreases s.len(),
{
    if r > 0 {
        assert(forall|i: int| 0 <= i < s.len() - 1 ==> s.drop_first()[i] == #[trigger] s[i + 1]);
        assert(s.drop_first()[r - 1] == c);
        assert forall|i: int| 0 <= i < r - 1 implies #[trigger] s.drop_first()[i] != c by {
            assert(s.drop_first()[i] == s[i + 1]);
        }
        lemma_find_char_is(s.drop_first(), c, r - 1);
    }
}

/// A sequence without `c` is one where `find_char` reports no occurrence.
pub proof fn lemma_find_char_none(s: Seq<char>, c: char)
    requires
        forall|i: int| 0 <= i < s.len() ==> #[trigger] s[i] != c,
    ensures
        find_char(s, c) == -1,
    decreases s.len(),
{
    if s.len() > 0 {
        assert(forall|i: int| 0 <= i < s.len() - 1 ==> s.drop_first()[i] == #[trigger] s[i + 1]);
        lemma_find_char_none(s.drop_first(), c);
    }
}

/// Scans `s` from `start` for the first occurrence of `c`.
pub fn find_char_at(s: &str, start: usize, c: char) -> (r: Option<usize>)
    requires
        start <= s@.len(),
        s@.len() <= usize::MAX,
    ensures
        match r {
            Some(k) => {
                &&& start <= k < s@.len()
                &&& find_char(s@.subrange(start as int, s@.len() as int), c) == k - start
            },
            None => find_char(s@.subrange(start as int, s@.len() as int), c) == -1,
        },
{
    let ghost tail = s@.subrange(start as int, s@.len() as int);
    let n = s.unicode_len();
    let mut i: usize = start;
    while i < n
        invariant
            start <= i <= n,
            n == s@.len(),
            tail == s@.subrange(start as int, s@.len() as int),
            forall|j: int| start <= j < i ==> #[trigger] s@[j] != c,
        decreases n - i,
    {
        let ch = s.get_char(i);
        if ch == c {
            proof {
                assert(tail[i - start] == c);
                assert forall|j: int| 0 <= j < i - start implies #[trigger] tail[j] != c by {
                    assert(tail[j] == s@[start + j]);
                }
                lemma_find_char_is(tail, c, i as int - start as int);
            }
            return Some(i);
        }
        i = i + 1;
    }
    proof {
        assert forall|j: int| 0 <= j < tail.len() implies #[trigger] tail[j] != c by {
            assert(tail[j] == s@[start + j]);
        }
        lemma_find_char_none(tail, c);
    }
    None
}

/// True when the first `count` characters of `s` are ASCII.
pub fn ascii_prefix(s: &str, count: usize) -> (r: bool)
    requires
        count <= s@.len(),
        s@.len() <= usize::MAX,
    ensures
        r == is_ascii_chars(s@.subrange(0, count as int)),
{
    let ghost win = s@.subrange(0, count as int);
    let mut i: usize = 0;
    while i < count
        invariant
            0 <= i <= count,
            count <= s@.len(),
            s@.len() <= usize::MAX,
            win == s@.subrange(0, count as int),
            forall|j: int| 0 <= j < i ==> '\0' <= #[trigger] win[j] <= '\u{7f}',
        decreases count - i,
    {
        let c = s.get_char(i);
        proof {
            assert(win[i as int] == c);
        }
        if !(c as u32 <= 127) {
            proof {
                assert(!('\0' <= win[i as int] <= '\u{7f}'));
            }
            return false;
        }
        i = i + 1;
    }
    true
}

/// Relies on `String::push`: appends exactly the given character.
#[verifier::external_body]
pub fn push_char(s: &mut String, c: char)
    ensures
        final(s)@ == old(s)@.push(c),
{
    s.push(c);
}

/// Appends the `width`-character zero-padded decimal rendering of `v`.
pub fn push_num(s: &mut String, v: u32, width: usize)
    requires
        width <= 9,
        v < pow10(width as nat),
    ensures
        final(s)@ == old(s)@ + num_str(v as int, width as nat),
    decreases width,
{
    if width == 0 {
        proof {
            assert(old(s)@ + num_str(v as int, 0) =~= old(s)@);
        }
    } else {
        proof {
            lemma_pow10_mono((width - 1) as nat, 8);
            lemma_pow10_values();
        }
        push_num(s, v / 10, width - 1);
        let d: u32 = v % 10;
        push_char(s, ((48 + d) as u8) as char);
        proof {
            assert(((48 + d) as u8) as char == digit_char(v as int % 10));
            assert(old(s)@ + num_str(v as int, width as nat) =~= (old(s)@ + num_str(
                v as int / 10,
                (width - 1) as nat,
            )).push(digit_char(v as int % 10)));
        }
    }
}

} // verus!
