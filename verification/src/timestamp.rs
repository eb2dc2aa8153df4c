//! The timestamp codec: calendar timestamps (UTC only), the external
//! store's fixed-width export pattern `YYYYMMDDThhmmssZ`, and the
//! colon-separated form `YYYY-MM-DDThh:mm:ssZ` used for outbound mutation
//! arguments.

use vstd::prelude::*;

verus! {

/// A calendar timestamp in UTC, held as plain field values.
#[derive(Debug, Clone, Copy, PartialEq, Eq, Structural)]
pub struct Timestamp {
    pub year: u16,
    pub month: u8,
    pub day: u8,
    pub hour: u8,
    pub minute: u8,
    pub second: u8,
}

/// Whether a year is a leap year in the proleptic Gregorian calendar.
pub open spec fn spec_is_leap_year(y: int) -> bool {
    y % 4 == 0 && (y % 100 != 0 || y % 400 == 0)
}

/// The number of days of a month, 0 when the month number is invalid.
pub open spec fn spec_days_in_month(y: int, m: int) -> int {
    if m == 1 || m == 3 || m == 5 || m == 7 || m == 8 || m == 10 || m == 12 {
        31
    } else if m == 4 || m == 6 || m == 9 || m == 11 {
        30
    } else if m == 2 {
        if spec_is_leap_year(y) {
            29
        } else {
            28
        }
    } else {
        0
    }
}

impl Timestamp {
    /// A timestamp is well formed when every field lies in its calendar
    /// range; years are limited to the four-digit range of the external
    /// store's patterns.
    pub open spec fn well_formed(self) -> bool {
        &&& self.year <= 9999
        &&& 1 <= self.month <= 12
        &&& 1 <= self.day <= spec_days_in_month(self.year as int, self.month as int)
        &&& self.hour <= 23
        &&& self.minute <= 59
        &&& self.second <= 59
    }
}

/// The decimal digit character of a value below ten.
pub open spec fn spec_digit(d: int) -> char {
    if d == 0 {
        '0'
    } else if d == 1 {
        '1'
    } else if d == 2 {
        '2'
    } else if d == 3 {
        '3'
    } else if d == 4 {
        '4'
    } else if d == 5 {
        '5'
    } else if d == 6 {
        '6'
    } else if d == 7 {
        '7'
    } else if d == 8 {
        '8'
    } else {
        '9'
    }
}

/// The value of a decimal digit character, or `None` for any other
/// character.
pub open spec fn spec_digit_val(c: char) -> Option<int> {
    if '0' <= c && c <= '9' {
        Some(c as int - '0' as int)
    } else {
        None
    }
}

/// A number below ten thousand, zero-padded to four digits.
pub open spec fn spec_pad4(n: int) -> Seq<char> {
    seq![
        spec_digit(n / 1000 % 10),
        spec_digit(n / 100 % 10),
        spec_digit(n / 10 % 10),
        spec_digit(n % 10),
    ]
}

/// A number below one hundred, zero-padded to two digits.
pub open spec fn spec_pad2(n: int) -> Seq<char> {
    seq![spec_digit(n / 10 % 10), spec_digit(n % 10)]
}

/// The colon-separated outbound form `YYYY-MM-DDThh:mm:ssZ`.
pub open spec fn spec_format_date(t: Timestamp) -> Seq<char> {
    spec_pad4(t.year as int) + seq!['-'] + spec_pad2(t.month as int) + seq!['-'] + spec_pad2(
        t.day as int,
    ) + seq!['T'] + spec_pad2(t.hour as int) + seq![':'] + spec_pad2(t.minute as int) + seq![':']
        + spec_pad2(t.second as int) + seq!['Z']
}

/// The fixed-width export form `YYYYMMDDThhmmssZ`.
pub open spec fn spec_tw_text(t: Timestamp) -> Seq<char> {
    spec_pad4(t.year as int) + spec_pad2(t.month as int) + spec_pad2(t.day as int) + seq!['T']
        + spec_pad2(t.hour as int) + spec_pad2(t.minute as int) + spec_pad2(t.second as int)
        + seq!['Z']
}

/// The fixed-width export pattern reads back to the timestamp it was
/// written from: the codec loses nothing on well formed values.
#[verifier::rlimit(100)]
pub proof fn lemma_tw_text_round_trip(t: Timestamp)
    requires
        t.well_formed(),
    ensures
        spec_parse_tw(spec_tw_text(t)) == Some(t),
{
    let s = spec_tw_text(t);
    let y = t.year as int;
    let mo = t.month as int;
    let d = t.day as int;
    let h = t.hour as int;
    let mi = t.minute as int;
    let sec = t.second as int;
    let e = seq![
        spec_digit(y / 1000 % 10),
        spec_digit(y / 100 % 10),
        spec_digit(y / 10 % 10),
        spec_digit(y % 10),
        spec_digit(mo / 10 % 10),
        spec_digit(mo % 10),
        spec_digit(d / 10 % 10),
        spec_digit(d % 10),
        'T',
        spec_digit(h / 10 % 10),
        spec_digit(h % 10),
        spec_digit(mi / 10 % 10),
        spec_digit(mi % 10),
        spec_digit(sec / 10 % 10),
        spec_digit(sec % 10),
        'Z',
    ];
    assert(s =~= e);
    assert(forall|v: int| 0 <= v < 10 ==> spec_digit_val(#[trigger] spec_digit(v)) == Some(v));
    assert(forall|i: int|
        (0 <= i < 8 || 9 <= i < 15) ==> spec_digit_val(#[trigger] e[i]) is Some);
    assert(y / 1000 % 10 * 1000 + y / 100 % 10 * 100 + y / 10 % 10 * 10 + y % 10 == y);
    assert(mo / 10 % 10 * 10 + mo % 10 == mo);
    assert(d / 10 % 10 * 10 + d % 10 == d);
    assert(h / 10 % 10 * 10 + h % 10 == h);
    assert(mi / 10 % 10 * 10 + mi % 10 == mi);
    assert(sec / 10 % 10 * 10 + sec % 10 == sec);
    assert(spec_parse_tw(s) == Some(t));
}

/// The timestamp encoded by a string in the fixed-width export pattern:
/// `Some` exactly when the string is sixteen characters long, has digits,
/// `T` and `Z` in the pattern's positions, and the digits name a well
/// formed calendar timestamp.
pub open spec fn spec_parse_tw(s: Seq<char>) -> Option<Timestamp> {
    if s.len() == 16 && s[8] == 'T' && s[15] == 'Z' && (forall|i: int|
        (0 <= i < 8 || 9 <= i < 15) ==> spec_digit_val(#[trigger] s[i]) is Some) {
        let t = Timestamp {
            year: (spec_digit_val(s[0]).unwrap() * 1000 + spec_digit_val(s[1]).unwrap() * 100
                + spec_digit_val(s[2]).unwrap() * 10 + spec_digit_val(s[3]).unwrap()) as u16,
            month: (spec_digit_val(s[4]).unwrap() * 10 + spec_digit_val(s[5]).unwrap()) as u8,
            day: (spec_digit_val(s[6]).unwrap() * 10 + spec_digit_val(s[7]).unwrap()) as u8,
            hour: (spec_digit_val(s[9]).unwrap() * 10 + spec_digit_val(s[10]).unwrap()) as u8,
            minute: (spec_digit_val(s[11]).unwrap() * 10 + spec_digit_val(s[12]).unwrap()) as u8,
            second: (spec_digit_val(s[13]).unwrap() * 10 + spec_digit_val(s[14]).unwrap()) as u8,
        };
        if t.well_formed() {
            Some(t)
        } else {
            None
        }
    } else {
        None
    }
}

/// The digit character of a value below ten.
pub fn digit_char(d: u8) -> (r: char)
    requires
        d < 10,
    ensures
        r == spec_digit(d as int),
{
    match d {
        0 => '0',
        1 => '1',
        2 => '2',
        3 => '3',
        4 => '4',
        5 => '5',
        6 => '6',
        7 => '7',
        8 => '8',
        _ => '9',
    }
}

/// The value of a digit character.
pub fn digit_val(c: char) -> (r: Option<u8>)
    ensures
        match r {
            Some(v) => spec_digit_val(c) == Some(v as int),
            None => spec_digit_val(c) is None,
        },
{
    let v = c as u32;
    if 48 <= v && v <= 57 {
        proof {
            assert('0' <= c && c <= '9');
            assert(c as int - '0' as int == v - 48);
        }
        Some((v - 48) as u8)
    } else {
        proof {
            assert(!('0' <= c && c <= '9'));
        }
        None
    }
}

/// Appends the four-digit form of a value below ten thousand.
fn push_pad4(out: &mut Vec<char>, n: u16)
    requires
        n <= 9999,
    ensures
        final(out)@ == old(out)@ + spec_pad4(n as int),
{
    let ghost orig = out@;
    out.push(digit_char((n / 1000 % 10) as u8));
    out.push(digit_char((n / 100 % 10) as u8));
    out.push(digit_char((n / 10 % 10) as u8));
    out.push(digit_char((n % 10) as u8));
    proof {
        assert(out@ =~= orig + spec_pad4(n as int));
    }
}

/// Appends the two-digit form of a value below one hundred.
fn push_pad2(out: &mut Vec<char>, n: u8)
    requires
        n <= 99,
    ensures
        final(out)@ == old(out)@ + spec_pad2(n as int),
{
    let ghost orig = out@;
    out.push(digit_char(n / 10 % 10));
    out.push(digit_char(n % 10));
    proof {
        assert(out@ =~= orig + spec_pad2(n as int));
    }
}

/// Formats a timestamp in the colon-separated outbound form the mutation
/// subcommand expects.
pub fn format_date(t: &Timestamp) -> (r: String)
    requires
        t.well_formed(),
    ensures
        r@ == spec_format_date(*t),
{
    let mut out: Vec<char> = Vec::new();
    push_pad4(&mut out, t.year);
    out.push('-');
    push_pad2(&mut out, t.month);
    out.push('-');
    push_pad2(&mut out, t.day);
    out.push('T');
    push_pad2(&mut out, t.hour);
    out.push(':');
    push_pad2(&mut out, t.minute);
    out.push(':');
    push_pad2(&mut out, t.second);
    out.push('Z');
    proof {
        assert(out@ =~= spec_format_date(*t));
    }
    crate::chars::string_of(&out)
}

/// Whether a year is a leap year.
pub fn is_leap_year(y: u16) -> (r: bool)
    ensures
        r == spec_is_leap_year(y as int),
{
    y % 4 == 0 && (y % 100 != 0 || y % 400 == 0)
}

/// The number of days of a month, 0 for an invalid month number.
pub fn days_in_month(y: u16, m: u8) -> (r: u8)
    ensures
        r as int == spec_days_in_month(y as int, m as int),
{
    match m {
        1 | 3 | 5 | 7 | 8 | 10 | 12 => 31,
        4 | 6 | 9 | 11 => 30,
        2 => if is_leap_year(y) {
            29
        } else {
            28
        },
        _ => 0,
    }
}

/// Parses the fixed-width export pattern; any violation of the exact
/// pattern yields `None`.
pub fn parse_tw_timestamp(s: &str) -> (r: Option<Timestamp>)
    ensures
        r == spec_parse_tw(s@),
        r matches Some(t) ==> t.well_formed(),
{
    let chars = crate::chars::chars_of(s);
    if chars.len() != 16 {
        return None;
    }
    if chars[8] != 'T' || chars[15] != 'Z' {
        return None;
    }
    let mut digits: Vec<u8> = Vec::new();
    let mut i: usize = 0;
    while i < 16
        invariant
            chars@ == s@,
            chars@.len() == 16,
            i <= 16,
            digits@.len() == i,
            forall|j: int| 0 <= j < i && (0 <= j < 8 || 9 <= j < 15) ==> spec_digit_val(
                #[trigger] chars@[j],
            ) == Some(digits@[j] as int),
            forall|j: int| 0 <= j < i && (0 <= j < 8 || 9 <= j < 15) ==> digits@[j] < 10,
        decreases 16 - i,
    {
        if i == 8 || i == 15 {
            digits.push(0);
        } else {
            match digit_val(chars[i]) {
                Some(v) => {
                    proof {
                        assert(v < 10);
                    }
                    digits.push(v);
                },
                None => {
                    return None;
                },
            }
        }
        i = i + 1;
    }
    let year: u16 = digits[0] as u16 * 1000 + digits[1] as u16 * 100 + digits[2] as u16 * 10
        + digits[3] as u16;
    let month: u8 = digits[4] * 10 + digits[5];
    let day: u8 = digits[6] * 10 + digits[7];
    let hour: u8 = digits[9] * 10 + digits[10];
    let minute: u8 = digits[11] * 10 + digits[12];
    let second: u8 = digits[13] * 10 + digits[14];
    let t = Timestamp { year, month, day, hour, minute, second };
    let ok = month >= 1 && month <= 12 && day >= 1 && day <= days_in_month(year, month) && hour
        <= 23 && minute <= 59 && second <= 59;
    if ok {
        proof {
            assert(t.well_formed());
            assert(spec_parse_tw(s@) == Some(t));
        }
        Some(t)
    } else {
        proof {
            assert(spec_parse_tw(s@) is None);
        }
        None
    }
}

} // verus!
