//! Absolute timestamps with a fixed UTC offset, and their ISO-8601 extended
//! text form `YYYY-MM-DDThh:mm:ss±hh:mm` (on input, a trailing `Z` stands for
//! a zero offset, and a fraction of a second after the seconds is accepted
//! and ignored).
//!
//! A status expiration is carried through the engine as one of these values;
//! rendering and parsing are verified inverses, which is what makes the
//! status round-trip law provable.

use vstd::prelude::*;

use crate::text::is_digit;
use crate::text::is_digit_char;

verus! {

/// A calendar date and clock time with a UTC offset in minutes.
#[derive(Clone, Copy, Debug, Hash, PartialEq, Eq, Structural)]
pub struct Timestamp {
    pub year: u16,
    pub month: u8,
    pub day: u8,
    pub hour: u8,
    pub minute: u8,
    pub second: u8,
    /// Offset from UTC in minutes, negative for western offsets.
    pub offset_minutes: i32,
}

pub open spec fn is_leap_year(y: int) -> bool {
    (y % 4 == 0 && y % 100 != 0) || y % 400 == 0
}

pub open spec fn days_in_month(y: int, m: int) -> int {
    if m == 2 {
        if is_leap_year(y) {
            29
        } else {
            28
        }
    } else if m == 4 || m == 6 || m == 9 || m == 11 {
        30
    } else {
        31
    }
}

impl Timestamp {
    /// A well-formed timestamp: a real calendar date, a real clock time, and
    /// an offset of strictly less than one day, with hours and minutes each in
    /// their usual range.
    pub open spec fn wf(self) -> bool {
        &&& self.year <= 9999
        &&& 1 <= self.month <= 12
        &&& 1 <= self.day <= days_in_month(self.year as int, self.month as int)
        &&& self.hour <= 23
        &&& self.minute <= 59
        &&& self.second <= 59
        &&& -(23 * 60 + 59) <= self.offset_minutes <= 23 * 60 + 59
    }
}

fn is_leap_year_exec(y: u16) -> (r: bool)
    ensures
        r == is_leap_year(y as int),
{
    (y % 4 == 0 && y % 100 != 0) || y % 400 == 0
}

fn days_in_month_exec(y: u16, m: u8) -> (r: u8)
    ensures
        r == days_in_month(y as int, m as int),
{
    if m == 2 {
        if is_leap_year_exec(y) {
            29
        } else {
            28
        }
    } else if m == 4 || m == 6 || m == 9 || m == 11 {
        30
    } else {
        31
    }
}

/// Whether the fields form a well-formed timestamp.
pub fn timestamp_wf(t: &Timestamp) -> (r: bool)
    ensures
        r == t.wf(),
{
    t.year <= 9999 && 1 <= t.month && t.month <= 12 && 1 <= t.day && t.day <= days_in_month_exec(
        t.year,
        t.month,
    ) && t.hour <= 23 && t.minute <= 59 && t.second <= 59 && -(23 * 60 + 59) <= t.offset_minutes
        && t.offset_minutes <= 23 * 60 + 59
}

/// The timestamp a clock answer denotes: the calendar fields are kept exactly
/// when they form a well-formed timestamp in UTC, and rejected otherwise.
pub open spec fn clock_timestamp_spec(
    year: i32,
    month: u8,
    day: u8,
    hour: u8,
    minute: u8,
    second: u8,
) -> Option<Timestamp> {
    if 0 <= year <= 9999 {
        let t = Timestamp {
            year: year as u16,
            month,
            day,
            hour,
            minute,
            second,
            offset_minutes: 0,
        };
        if t.wf() {
            Some(t)
        } else {
            None
        }
    } else {
        None
    }
}

/// Converts a clock answer, split into calendar fields, into a timestamp:
/// the fields are kept exactly when they form a well-formed timestamp in UTC,
/// and rejected otherwise.
pub fn clock_to_timestamp(year: i32, month: u8, day: u8, hour: u8, minute: u8, second: u8) -> (r:
    Option<Timestamp>)
    ensures
        r == clock_timestamp_spec(year, month, day, hour, minute, second),
{
    if year < 0 || year > 9999 {
        return None;
    }
    let t = Timestamp {
        year: year as u16,
        month,
        day,
        hour,
        minute,
        second,
        offset_minutes: 0,
    };
    if timestamp_wf(&t) {
        Some(t)
    } else {
        None
    }
}

/// A clock answer whose fields form a real calendar date and clock time is
/// never dropped: the conversion keeps it, field for field.
pub proof fn lemma_valid_clock_yields_timestamp(
    year: i32,
    month: u8,
    day: u8,
    hour: u8,
    minute: u8,
    second: u8,
)
    requires
        0 <= year <= 9999,
        1 <= month <= 12,
        1 <= day <= days_in_month(year as int, month as int),
        hour <= 23,
        minute <= 59,
        second <= 59,
    ensures
        clock_timestamp_spec(year, month, day, hour, minute, second) == Some(
            Timestamp {
                year: year as u16,
                month,
                day,
                hour,
                minute,
                second,
                offset_minutes: 0,
            },
        ),
{
}

/// The decimal digit character for `d`.
pub open spec fn digit_char(d: int) -> char {
    if d == 0 {
        '0'
    } else if d == 1 {
        '1'
    } else if d == 2 {
        '2'
    } else if d == 3 {
        '3'
    } else if d == 4 {
        '4'
    } else if d == 5 {
        '5'
    } else if d == 6 {
        '6'
    } else if d == 7 {
        '7'
    } else if d == 8 {
        '8'
    } else {
        '9'
    }
}

/// The numeric value of a decimal digit character.
pub open spec fn digit_val(c: char) -> int {
    c as u32 - 48
}

pub proof fn lemma_digit_char_val(d: int)
    requires
        0 <= d <= 9,
    ensures
        digit_val(digit_char(d)) == d,
        is_digit_char(digit_char(d)),
{
}

pub(crate) fn digit_char_exec(d: u32) -> (r: char)
    requires
        d <= 9,
    ensures
        r == digit_char(d as int),
{
    if d == 0 {
        '0'
    } else if d == 1 {
        '1'
    } else if d == 2 {
        '2'
    } else if d == 3 {
        '3'
    } else if d == 4 {
        '4'
    } else if d == 5 {
        '5'
    } else if d == 6 {
        '6'
    } else if d == 7 {
        '7'
    } else if d == 8 {
        '8'
    } else {
        '9'
    }
}

/// Two zero-padded decimal digits.
pub open spec fn two_digits(n: int) -> Seq<char> {
    seq![digit_char(n / 10), digit_char(n % 10)]
}

/// Four zero-padded decimal digits.
pub open spec fn four_digits(n: int) -> Seq<char> {
    seq![
        digit_char(n / 1000),
        digit_char((n / 100) % 10),
        digit_char((n / 10) % 10),
        digit_char(n % 10),
    ]
}

/// The ISO-8601 extended rendering `YYYY-MM-DDThh:mm:ss±hh:mm`.
pub open spec fn render_iso(t: Timestamp) -> Seq<char> {
    let off = if t.offset_minutes < 0 {
        -t.offset_minutes as int
    } else {
        t.offset_minutes as int
    };
    let sign = if t.offset_minutes < 0 {
        '-'
    } else {
        '+'
    };
    four_digits(t.year as int) + seq!['-'] + two_digits(t.month as int) + seq!['-'] + two_digits(
        t.day as int,
    ) + seq!['T'] + two_digits(t.hour as int) + seq![':'] + two_digits(t.minute as int) + seq![':']
        + two_digits(t.second as int) + seq![sign] + two_digits(off / 60) + seq![':'] + two_digits(
        off % 60,
    )
}

fn push_two_digits(out: &mut Vec<char>, n: u32)
    requires
        n <= 99,
    ensures
        final(out)@ == old(out)@ + two_digits(n as int),
{
    out.push(digit_char_exec(n / 10));
    out.push(digit_char_exec(n % 10));
    proof {
        assert(final(out)@ =~= old(out)@ + two_digits(n as int));
    }
}

/// Renders `t` in the ISO-8601 extended form, as its characters.
#[verifier::rlimit(50)]
pub fn render_iso_chars(t: &Timestamp) -> (r: Vec<char>)
    requires
        t.wf(),
    ensures
        r@ == render_iso(*t),
{
    let mut out: Vec<char> = Vec::new();
    let y = t.year as u32;
    out.push(digit_char_exec(y / 1000));
    out.push(digit_char_exec((y / 100) % 10));
    out.push(digit_char_exec((y / 10) % 10));
    out.push(digit_char_exec(y % 10));
    out.push('-');
    push_two_digits(&mut out, t.month as u32);
    out.push('-');
    push_two_digits(&mut out, t.day as u32);
    out.push('T');
    push_two_digits(&mut out, t.hour as u32);
    out.push(':');
    push_two_digits(&mut out, t.minute as u32);
    out.push(':');
    push_two_digits(&mut out, t.second as u32);
    let off: u32 = if t.offset_minutes < 0 {
        (-t.offset_minutes) as u32
    } else {
        t.offset_minutes as u32
    };
    if t.offset_minutes < 0 {
        out.push('-');
    } else {
        out.push('+');
    }
    push_two_digits(&mut out, off / 60);
    out.push(':');
    push_two_digits(&mut out, off % 60);
    proof {
        assert(out@ =~= render_iso(*t));
    }
    out
}

/// All characters of `s[lo..hi]` are decimal digits.
pub open spec fn all_digits(s: Seq<char>, lo: int, hi: int) -> bool {
    forall|k: int| lo <= k < hi ==> is_digit_char(#[trigger] s[k])
}

/// The two-digit number at position `i`.
pub open spec fn num2(s: Seq<char>, i: int) -> int {
    digit_val(s[i]) * 10 + digit_val(s[i + 1])
}

/// The four-digit number at position `i`.
pub open spec fn num4(s: Seq<char>, i: int) -> int {
    digit_val(s[i]) * 1000 + digit_val(s[i + 1]) * 100 + digit_val(s[i + 2]) * 10 + digit_val(
        s[i + 3],
    )
}

/// Whether `s` has the fixed date-time skeleton
/// `YYYY-MM-DDThh:mm:ss` at its start.
pub open spec fn iso_skeleton_ok(s: Seq<char>) -> bool {
    &&& all_digits(s, 0, 4)
    &&& s[4] == '-'
    &&& all_digits(s, 5, 7)
    &&& s[7] == '-'
    &&& all_digits(s, 8, 10)
    &&& s[10] == 'T'
    &&& all_digits(s, 11, 13)
    &&& s[13] == ':'
    &&& all_digits(s, 14, 16)
    &&& s[16] == ':'
    &&& all_digits(s, 17, 19)
}

/// The first position `>= i` holding a non-digit, or the length.
pub open spec fn digits_end(s: Seq<char>, i: int) -> int
    decreases s.len() - i,
{
    if i < 0 || i >= s.len() {
        s.len() as int
    } else if !is_digit_char(s[i]) {
        i
    } else {
        digits_end(s, i + 1)
    }
}

pub proof fn lemma_digits_end_bounds(s: Seq<char>, i: int)
    requires
        0 <= i <= s.len(),
    ensures
        i <= digits_end(s, i) <= s.len(),
        digits_end(s, i) < s.len() ==> !is_digit_char(s[digits_end(s, i)]),
        forall|j: int| i <= j < digits_end(s, i) ==> is_digit_char(s[j]),
    decreases s.len() - i,
{
    if i < s.len() && is_digit_char(s[i]) {
        lemma_digits_end_bounds(s, i + 1);
    }
}

fn digits_end_exec(v: &Vec<char>, i: usize) -> (r: usize)
    requires
        i <= v@.len(),
    ensures
        r == digits_end(v@, i as int),
    decreases v@.len() - i,
{
    if i == v.len() {
        i
    } else if !is_digit(v[i]) {
        i
    } else {
        digits_end_exec(v, i + 1)
    }
}

/// Where the offset designator starts: right after the seconds, or after an
/// optional fraction of a second (a dot and at least one digit). The fraction
/// is accepted and ignored; the timestamp keeps whole seconds.
pub open spec fn iso_fraction_end(s: Seq<char>) -> int {
    if s.len() > 20 && s[19] == '.' && is_digit_char(s[20]) {
        digits_end(s, 20)
    } else {
        19
    }
}

/// The parsed offset in minutes, if the tail of `s` from position `p` on is a
/// valid `Z` or `±hh:mm` designator reaching the end.
pub open spec fn iso_offset_at(s: Seq<char>, p: int) -> Option<int> {
    if s.len() == p + 1 {
        if s[p] == 'Z' {
            Some(0int)
        } else {
            None
        }
    } else if s.len() == p + 6 {
        if (s[p] == '+' || s[p] == '-') && all_digits(s, p + 1, p + 3) && s[p + 3] == ':'
            && all_digits(s, p + 4, p + 6) && num2(s, p + 1) <= 23 && num2(s, p + 4) <= 59 {
            if s[p] == '-' {
                Some(-(num2(s, p + 1) * 60 + num2(s, p + 4)))
            } else {
                Some(num2(s, p + 1) * 60 + num2(s, p + 4))
            }
        } else {
            None
        }
    } else {
        None
    }
}

/// The timestamp denoted by `s`, if `s` is a valid ISO-8601 extended
/// date-time with offset (an optional fraction of a second is ignored) and
/// the fields are in range.
pub open spec fn parse_iso_spec(s: Seq<char>) -> Option<Timestamp> {
    if s.len() >= 20 && iso_skeleton_ok(s) && iso_offset_at(s, iso_fraction_end(s)) is Some {
        let t = Timestamp {
            year: num4(s, 0) as u16,
            month: num2(s, 5) as u8,
            day: num2(s, 8) as u8,
            hour: num2(s, 11) as u8,
            minute: num2(s, 14) as u8,
            second: num2(s, 17) as u8,
            offset_minutes: iso_offset_at(s, iso_fraction_end(s))->Some_0 as i32,
        };
        if t.wf() {
            Some(t)
        } else {
            None
        }
    } else {
        None
    }
}

fn read2(v: &Vec<char>, i: usize) -> (r: u32)
    requires
        i + 2 <= v@.len(),
        all_digits(v@, i as int, i + 2),
    ensures
        r == num2(v@, i as int),
        r <= 99,
{
    let n = v.len();
    proof {
        assert(i + 2 <= n);
    }
    let a = v[i] as u32;
    let b = v[i + 1] as u32;
    (a - 48) * 10 + (b - 48)
}

fn check_digits(v: &Vec<char>, lo: usize, hi: usize) -> (r: bool)
    requires
        lo <= hi <= v@.len(),
    ensures
        r == all_digits(v@, lo as int, hi as int),
{
    let mut k: usize = lo;
    while k < hi
        invariant
            lo <= k <= hi <= v@.len(),
            forall|j: int| lo <= j < k ==> is_digit_char(#[trigger] v@[j]),
        decreases hi - k,
    {
        if !is_digit(v[k]) {
            return false;
        }
        k = k + 1;
    }
    true
}

/// Parses an ISO-8601 extended date-time with offset; an optional fraction of
/// a second is accepted and ignored. Any shape that the grammar does not
/// cover yields `None`, never an error.
pub fn parse_iso_chars(v: &Vec<char>) -> (r: Option<Timestamp>)
    ensures
        r == parse_iso_spec(v@),
{
    if v.len() < 20 {
        return None;
    }
    let skeleton = check_digits(v, 0, 4) && v[4] == '-' && check_digits(v, 5, 7) && v[7] == '-'
        && check_digits(v, 8, 10) && v[10] == 'T' && check_digits(v, 11, 13) && v[13] == ':'
        && check_digits(v, 14, 16) && v[16] == ':' && check_digits(v, 17, 19);
    if !skeleton {
        return None;
    }
    let p: usize = if v.len() > 20 && v[19] == '.' && is_digit(v[20]) {
        digits_end_exec(v, 20)
    } else {
        19
    };
    proof {
        if v@.len() > 20 && v@[19] == '.' && is_digit_char(v@[20]) {
            lemma_digits_end_bounds(v@, 20);
        }
        assert(p == iso_fraction_end(v@));
    }
    let offset_minutes: i32 = if p == v.len() - 1 {
        if v[p] == 'Z' {
            0
        } else {
            return None;
        }
    } else if v.len() >= 6 && p == v.len() - 6 {
        let signed = v[p] == '+' || v[p] == '-';
        if signed && check_digits(v, p + 1, p + 3) && v[p + 3] == ':' && check_digits(
            v,
            p + 4,
            p + 6,
        ) {
            let hh = read2(v, p + 1);
            let mm = read2(v, p + 4);
            if hh <= 23 && mm <= 59 {
                let a = (hh * 60 + mm) as i32;
                if v[p] == '-' {
                    -a
                } else {
                    a
                }
            } else {
                return None;
            }
        } else {
            return None;
        }
    } else {
        return None;
    };
    let year4 = {
        let a = v[0] as u32;
        let b = v[1] as u32;
        let c = v[2] as u32;
        let d = v[3] as u32;
        (a - 48) * 1000 + (b - 48) * 100 + (c - 48) * 10 + (d - 48)
    };
    let t = Timestamp {
        year: year4 as u16,
        month: read2(v, 5) as u8,
        day: read2(v, 8) as u8,
        hour: read2(v, 11) as u8,
        minute: read2(v, 14) as u8,
        second: read2(v, 17) as u8,
        offset_minutes,
    };
    proof {
        assert(year4 == num4(v@, 0));
        assert(year4 <= 9999);
    }
    if timestamp_wf(&t) {
        Some(t)
    } else {
        None
    }
}

/// Rendering a well-formed timestamp and parsing the rendered form gives the
/// timestamp back.
pub proof fn lemma_iso_round_trip(t: Timestamp)
    requires
        t.wf(),
    ensures
        parse_iso_spec(render_iso(t)) == Some(t),
{
    let s = render_iso(t);
    let off = if t.offset_minutes < 0 {
        -t.offset_minutes as int
    } else {
        t.offset_minutes as int
    };
    assert(s.len() == 25);
    assert forall|d: int| 0 <= d <= 9 implies digit_val(digit_char(d)) == d && is_digit_char(
        digit_char(d),
    ) by {
        lemma_digit_char_val(d);
    }
    let y = t.year as int;
    assert(y / 1000 <= 9 && (y / 100) % 10 <= 9 && (y / 10) % 10 <= 9 && y % 10 <= 9);
    assert(s[0] == digit_char(y / 1000));
    assert(s[1] == digit_char((y / 100) % 10));
    assert(s[2] == digit_char((y / 10) % 10));
    assert(s[3] == digit_char(y % 10));
    assert(s[4] == '-');
    assert(s[5] == digit_char(t.month as int / 10));
    assert(s[6] == digit_char(t.month as int % 10));
    assert(s[7] == '-');
    assert(s[8] == digit_char(t.day as int / 10));
    assert(s[9] == digit_char(t.day as int % 10));
    assert(s[10] == 'T');
    assert(s[11] == digit_char(t.hour as int / 10));
    assert(s[12] == digit_char(t.hour as int % 10));
    assert(s[13] == ':');
    assert(s[14] == digit_char(t.minute as int / 10));
    assert(s[15] == digit_char(t.minute as int % 10));
    assert(s[16] == ':');
    assert(s[17] == digit_char(t.second as int / 10));
    assert(s[18] == digit_char(t.second as int % 10));
    assert(s[19] == (if t.offset_minutes < 0 {
        '-'
    } else {
        '+'
    }));
    assert(s[20] == digit_char((off / 60) / 10));
    assert(s[21] == digit_char((off / 60) % 10));
    assert(s[22] == ':');
    assert(s[23] == digit_char((off % 60) / 10));
    assert(s[24] == digit_char((off % 60) % 10));
    assert(iso_skeleton_ok(s));
    assert(num4(s, 0) == (y / 1000) * 1000 + ((y / 100) % 10) * 100 + ((y / 10) % 10) * 10 + y
        % 10);
    lemma_four_digit_decomposition(y);
    assert(num4(s, 0) == y);
    lemma_two_digit_decomposition(t.month as int);
    lemma_two_digit_decomposition(t.day as int);
    lemma_two_digit_decomposition(t.hour as int);
    lemma_two_digit_decomposition(t.minute as int);
    lemma_two_digit_decomposition(t.second as int);
    lemma_two_digit_decomposition(off / 60);
    lemma_two_digit_decomposition(off % 60);
    assert(num2(s, 5) == t.month as int);
    assert(num2(s, 8) == t.day as int);
    assert(num2(s, 11) == t.hour as int);
    assert(num2(s, 14) == t.minute as int);
    assert(num2(s, 17) == t.second as int);
    assert(num2(s, 20) == off / 60);
    assert(num2(s, 23) == off % 60);
    assert(off <= 23 * 60 + 59);
    assert(off / 60 <= 23);
    assert(off % 60 <= 59);
    assert((off / 60) * 60 + off % 60 == off);
    // the rendered form carries no fraction: a sign stands where a dot would
    assert(iso_fraction_end(s) == 19);
    assert(iso_offset_at(s, 19) == Some(t.offset_minutes as int));
    assert(parse_iso_spec(s) == Some(t));
}

proof fn lemma_digit_char_class(d: int)
    ensures
        digit_char(d) != '>',
        digit_char(d) != '<',
        !crate::text::is_space_char(digit_char(d)),
{
}

/// The rendered form is 25 characters of digits and the separators
/// `-`, `+`, `:` and `T`: in particular it holds no angle bracket and no
/// whitespace, and neither end is whitespace.
pub proof fn lemma_render_iso_shape(t: Timestamp)
    requires
        t.wf(),
    ensures
        render_iso(t).len() == 25,
        forall|k: int|
            0 <= k < 25 ==> (#[trigger] render_iso(t)[k]) != '>' && render_iso(t)[k] != '<'
                && !crate::text::is_space_char(render_iso(t)[k]),
{
    let s = render_iso(t);
    let off = if t.offset_minutes < 0 {
        -t.offset_minutes as int
    } else {
        t.offset_minutes as int
    };
    let y = t.year as int;
    assert(s.len() == 25);
    assert(s[0] == digit_char(y / 1000));
    assert(s[1] == digit_char((y / 100) % 10));
    assert(s[2] == digit_char((y / 10) % 10));
    assert(s[3] == digit_char(y % 10));
    assert(s[4] == '-');
    assert(s[5] == digit_char(t.month as int / 10));
    assert(s[6] == digit_char(t.month as int % 10));
    assert(s[7] == '-');
    assert(s[8] == digit_char(t.day as int / 10));
    assert(s[9] == digit_char(t.day as int % 10));
    assert(s[10] == 'T');
    assert(s[11] == digit_char(t.hour as int / 10));
    assert(s[12] == digit_char(t.hour as int % 10));
    assert(s[13] == ':');
    assert(s[14] == digit_char(t.minute as int / 10));
    assert(s[15] == digit_char(t.minute as int % 10));
    assert(s[16] == ':');
    assert(s[17] == digit_char(t.second as int / 10));
    assert(s[18] == digit_char(t.second as int % 10));
    assert(s[19] == (if t.offset_minutes < 0 {
        '-'
    } else {
        '+'
    }));
    assert(s[20] == digit_char((off / 60) / 10));
    assert(s[21] == digit_char((off / 60) % 10));
    assert(s[22] == ':');
    assert(s[23] == digit_char((off % 60) / 10));
    assert(s[24] == digit_char((off % 60) % 10));
    assert forall|k: int| 0 <= k < 25 implies (#[trigger] s[k]) != '>' && s[k] != '<'
        && !crate::text::is_space_char(s[k]) by {
        lemma_digit_char_class(y / 1000);
        lemma_digit_char_class((y / 100) % 10);
        lemma_digit_char_class((y / 10) % 10);
        lemma_digit_char_class(y % 10);
        lemma_digit_char_class(t.month as int / 10);
        lemma_digit_char_class(t.month as int % 10);
        lemma_digit_char_class(t.day as int / 10);
        lemma_digit_char_class(t.day as int % 10);
        lemma_digit_char_class(t.hour as int / 10);
        lemma_digit_char_class(t.hour as int % 10);
        lemma_digit_char_class(t.minute as int / 10);
        lemma_digit_char_class(t.minute as int % 10);
        lemma_digit_char_class(t.second as int / 10);
        lemma_digit_char_class(t.second as int % 10);
        lemma_digit_char_class((off / 60) / 10);
        lemma_digit_char_class((off / 60) % 10);
        lemma_digit_char_class((off % 60) / 10);
        lemma_digit_char_class((off % 60) % 10);
    }
}

proof fn lemma_two_digit_decomposition(n: int)
    requires
        0 <= n <= 99,
    ensures
        (n / 10) * 10 + n % 10 == n,
{
}

proof fn lemma_four_digit_decomposition(n: int)
    requires
        0 <= n <= 9999,
    ensures
        (n / 1000) * 1000 + ((n / 100) % 10) * 100 + ((n / 10) % 10) * 10 + n % 10 == n,
{
    assert((n / 1000) * 1000 + ((n / 100) % 10) * 100 + ((n / 10) % 10) * 10 + n % 10 == n) by (nonlinear_arith)
        requires
            0 <= n <= 9999,
    ;
}

} // verus!
