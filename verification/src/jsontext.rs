//! The textual layer of the metadata codec: whitespace, string escapes,
//! string tokens, and skipping of arbitrary well-formed values. Every
//! executable function mirrors a specification function over `Seq<char>`
//! suffixes exactly.

use vstd::prelude::*;

verus! {

/// JSON insignificant whitespace.
pub open spec fn spec_is_ws(c: char) -> bool {
    c == ' ' || c == '\t' || c == '\n' || c == '\r'
}

/// Drops leading insignificant whitespace.
pub open spec fn spec_skip_ws(s: Seq<char>) -> Seq<char>
    decreases s.len(),
{
    if s.len() > 0 && spec_is_ws(s[0]) {
        spec_skip_ws(s.skip(1))
    } else {
        s
    }
}

/// The lowercase hexadecimal digit character of a value below sixteen.
pub open spec fn spec_hexdigit(d: int) -> char {
    if d < 10 {
        crate::timestamp::spec_digit(d)
    } else if d == 10 {
        'a'
    } else if d == 11 {
        'b'
    } else if d == 12 {
        'c'
    } else if d == 13 {
        'd'
    } else if d == 14 {
        'e'
    } else {
        'f'
    }
}

/// The value of a hexadecimal digit character, or `None` for any other
/// character.
pub open spec fn spec_hex_val(c: char) -> Option<int> {
    if '0' <= c && c <= '9' {
        Some(c as int - '0' as int)
    } else if 'a' <= c && c <= 'f' {
        Some(c as int - 'a' as int + 10)
    } else if 'A' <= c && c <= 'F' {
        Some(c as int - 'A' as int + 10)
    } else {
        None
    }
}

/// The encoded form of one character inside a JSON string: quote and
/// backslash take a two-character escape, the five named control
/// characters take their short escapes, any other control character takes
/// the `\u00XX` form, and every other character stands for itself.
pub open spec fn spec_escape_char(c: char) -> Seq<char> {
    if c == '"' {
        seq!['\\', '"']
    } else if c == '\\' {
        seq!['\\', '\\']
    } else if c == '\u{8}' {
        seq!['\\', 'b']
    } else if c == '\u{c}' {
        seq!['\\', 'f']
    } else if c == '\n' {
        seq!['\\', 'n']
    } else if c == '\r' {
        seq!['\\', 'r']
    } else if c == '\t' {
        seq!['\\', 't']
    } else if (c as u32) < 0x20 {
        seq!['\\', 'u', '0', '0', spec_hexdigit((c as u32) as int / 16), spec_hexdigit((c as u32) as int % 16)]
    } else {
        seq![c]
    }
}

/// The encoded form of a string's characters.
pub open spec fn spec_escape(s: Seq<char>) -> Seq<char>
    decreases s.len(),
{
    if s.len() == 0 {
        Seq::empty()
    } else {
        spec_escape_char(s[0]) + spec_escape(s.skip(1))
    }
}

/// The character named by a short escape, or `None` when the character
/// after the backslash is not a legal escape name (`u` is handled apart).
pub open spec fn spec_unescape_char(e: char) -> Option<char> {
    if e == '"' {
        Some('"')
    } else if e == '\\' {
        Some('\\')
    } else if e == '/' {
        Some('/')
    } else if e == 'b' {
        Some('\u{8}')
    } else if e == 'f' {
        Some('\u{c}')
    } else if e == 'n' {
        Some('\n')
    } else if e == 'r' {
        Some('\r')
    } else if e == 't' {
        Some('\t')
    } else {
        None
    }
}

/// Reads a string token from just after its opening quote: yields the
/// decoded content and the suffix after the closing quote. Unterminated
/// text, a bad escape, a `\u` escape naming a surrogate, or a raw control
/// character yield `None`.
pub open spec fn spec_str_rest(s: Seq<char>) -> Option<(Seq<char>, Seq<char>)>
    decreases s.len(),
{
    if s.len() == 0 {
        None
    } else if s[0] == '"' {
        Some((Seq::empty(), s.skip(1)))
    } else if s[0] == '\\' {
        if s.len() < 2 {
            None
        } else if s[1] == 'u' {
            if s.len() < 6 {
                None
            } else {
                match (spec_hex_val(s[2]), spec_hex_val(s[3]), spec_hex_val(s[4]), spec_hex_val(
                    s[5],
                )) {
                    (Some(h1), Some(h2), Some(h3), Some(h4)) => {
                        let v = h1 * 4096 + h2 * 256 + h3 * 16 + h4;
                        if 0xD800 <= v < 0xE000 {
                            None
                        } else {
                            match spec_str_rest(s.skip(6)) {
                                Some((cs, r)) => Some((seq![(v as u32) as char] + cs, r)),
                                None => None,
                            }
                        }
                    },
                    _ => None,
                }
            }
        } else {
            match spec_unescape_char(s[1]) {
                Some(c) => match spec_str_rest(s.skip(2)) {
                    Some((cs, r)) => Some((seq![c] + cs, r)),
                    None => None,
                },
                None => None,
            }
        }
    } else if (s[0] as u32) < 0x20 {
        None
    } else {
        match spec_str_rest(s.skip(1)) {
            Some((cs, r)) => Some((seq![s[0]] + cs, r)),
            None => None,
        }
    }
}

/// Drops leading decimal digits.
pub open spec fn spec_skip_digits(s: Seq<char>) -> Seq<char>
    decreases s.len(),
{
    if s.len() > 0 && crate::timestamp::spec_digit_val(s[0]) is Some {
        spec_skip_digits(s.skip(1))
    } else {
        s
    }
}

/// Skips a JSON number (integer part, optional fraction, optional
/// exponent); yields the suffix after it, or `None` when the text does not
/// begin with a well-formed number.
pub open spec fn spec_skip_number(s: Seq<char>) -> Option<Seq<char>> {
    let s1 = if s.len() > 0 && s[0] == '-' {
        s.skip(1)
    } else {
        s
    };
    if s1.len() == 0 {
        None
    } else if s1[0] == '0' {
        spec_skip_number_frac(s1.skip(1))
    } else if crate::timestamp::spec_digit_val(s1[0]) is Some {
        spec_skip_number_frac(spec_skip_digits(s1))
    } else {
        None
    }
}

/// Skips the optional fraction part of a number, then its exponent part.
pub open spec fn spec_skip_number_frac(s: Seq<char>) -> Option<Seq<char>> {
    if s.len() >= 2 && s[0] == '.' && crate::timestamp::spec_digit_val(s[1]) is Some {
        spec_skip_number_exp(spec_skip_digits(s.skip(1)))
    } else if s.len() >= 1 && s[0] == '.' {
        None
    } else {
        spec_skip_number_exp(s)
    }
}

/// Skips the optional exponent part of a number.
pub open spec fn spec_skip_number_exp(s: Seq<char>) -> Option<Seq<char>> {
    if s.len() >= 1 && (s[0] == 'e' || s[0] == 'E') {
        let s1 = if s.len() >= 2 && (s[1] == '+' || s[1] == '-') {
            s.skip(2)
        } else {
            s.skip(1)
        };
        if s1.len() >= 1 && crate::timestamp::spec_digit_val(s1[0]) is Some {
            Some(spec_skip_digits(s1))
        } else {
            None
        }
    } else {
        Some(s)
    }
}

/// Skips one well-formed JSON value; yields the suffix after it.
pub open spec fn spec_skip_value(s: Seq<char>) -> Option<Seq<char>>
    decreases s.len(), 0int,
{
    if s.len() == 0 {
        None
    } else if s[0] == '"' {
        match spec_str_rest(s.skip(1)) {
            Some((_cs, r)) => Some(r),
            None => None,
        }
    } else if s[0] == '{' {
        spec_skip_object_rest(s.skip(1))
    } else if s[0] == '[' {
        spec_skip_array_rest(s.skip(1))
    } else if s[0] == 't' {
        if s.len() >= 4 && s[1] == 'r' && s[2] == 'u' && s[3] == 'e' {
            Some(s.skip(4))
        } else {
            None
        }
    } else if s[0] == 'f' {
        if s.len() >= 5 && s[1] == 'a' && s[2] == 'l' && s[3] == 's' && s[4] == 'e' {
            Some(s.skip(5))
        } else {
            None
        }
    } else if s[0] == 'n' {
        if s.len() >= 4 && s[1] == 'u' && s[2] == 'l' && s[3] == 'l' {
            Some(s.skip(4))
        } else {
            None
        }
    } else if s[0] == '-' || crate::timestamp::spec_digit_val(s[0]) is Some {
        spec_skip_number(s)
    } else {
        None
    }
}

/// Skips the rest of an object, from just after its opening brace.
pub open spec fn spec_skip_object_rest(s: Seq<char>) -> Option<Seq<char>>
    decreases s.len(), 2int,
{
    let s1 = spec_skip_ws(s);
    if s1.len() <= s.len() {
        if s1.len() > 0 && s1[0] == '}' {
            Some(s1.skip(1))
        } else {
            spec_skip_members(s1)
        }
    } else {
        None
    }
}

/// Skips the members of an object, from the opening quote of a key; ends
/// after the closing brace.
pub open spec fn spec_skip_members(s: Seq<char>) -> Option<Seq<char>>
    decreases s.len(), 1int,
{
    if s.len() == 0 || s[0] != '"' {
        None
    } else {
        match spec_str_rest(s.skip(1)) {
            Some((_key, r1)) => {
                let r2 = spec_skip_ws(r1);
                if r2.len() > 0 && r2[0] == ':' {
                    let r3 = spec_skip_ws(r2.skip(1));
                    if r3.len() <= s.len() {
                        match spec_skip_value(r3) {
                            Some(r4) => {
                                let r5 = spec_skip_ws(r4);
                                if r5.len() > 0 && r5[0] == ',' {
                                    let r6 = spec_skip_ws(r5.skip(1));
                                    if r6.len() < s.len() {
                                        spec_skip_members(r6)
                                    } else {
                                        None
                                    }
                                } else if r5.len() > 0 && r5[0] == '}' {
                                    Some(r5.skip(1))
                                } else {
                                    None
                                }
                            },
                            None => None,
                        }
                    } else {
                        None
                    }
                } else {
                    None
                }
            },
            None => None,
        }
    }
}

/// Skips the rest of an array, from just after its opening bracket.
pub open spec fn spec_skip_array_rest(s: Seq<char>) -> Option<Seq<char>>
    decreases s.len(), 2int,
{
    let s1 = spec_skip_ws(s);
    if s1.len() <= s.len() {
        if s1.len() > 0 && s1[0] == ']' {
            Some(s1.skip(1))
        } else {
            spec_skip_elements(s1)
        }
    } else {
        None
    }
}

/// Skips the elements of an array, from the first character of an element;
/// ends after the closing bracket.
pub open spec fn spec_skip_elements(s: Seq<char>) -> Option<Seq<char>>
    decreases s.len(), 1int,
{
    match spec_skip_value(s) {
        Some(r) => {
            let r1 = spec_skip_ws(r);
            if r1.len() > 0 && r1[0] == ',' {
                let r2 = spec_skip_ws(r1.skip(1));
                if r2.len() < s.len() {
                    spec_skip_elements(r2)
                } else {
                    None
                }
            } else if r1.len() > 0 && r1[0] == ']' {
                Some(r1.skip(1))
            } else {
                None
            }
        },
        None => None,
    }
}

/// A character that stands for itself inside a JSON string.
pub open spec fn spec_plain_char(c: char) -> bool {
    c != '"' && c != '\\' && (c as u32) >= 0x20
}

/// Escaping characters that need no escape changes nothing.
pub proof fn lemma_escape_plain(s: Seq<char>)
    requires
        forall|i: int| 0 <= i < s.len() ==> spec_plain_char(#[trigger] s[i]),
    ensures
        spec_escape(s) == s,
    decreases s.len(),
{
    if s.len() == 0 {
        assert(spec_escape(s) =~= s);
    } else {
        assert(spec_plain_char(s[0]));
        assert(spec_escape_char(s[0]) =~= seq![s[0]]);
        lemma_escape_plain(s.skip(1));
        assert(spec_escape(s) =~= s);
    }
}

/// A hexadecimal digit character decodes to its value.
pub proof fn lemma_hexdigit_val(d: int)
    requires
        0 <= d < 16,
    ensures
        spec_hex_val(spec_hexdigit(d)) == Some(d),
{
}

/// Reading a string token from the escaped form of a text followed by the
/// closing quote recovers exactly that text.
#[verifier::rlimit(50)]
pub proof fn lemma_str_rest_escaped(c: Seq<char>, rest: Seq<char>)
    ensures
        spec_str_rest(spec_escape(c) + seq!['"'] + rest) == Some((c, rest)),
    decreases c.len(),
{
    let s = spec_escape(c) + seq!['"'] + rest;
    if c.len() == 0 {
        assert(s =~= seq!['"'] + rest);
        assert(s[0] == '"');
        assert(s.skip(1) =~= rest);
        assert(Seq::<char>::empty() =~= c);
        assert(spec_str_rest(s) == Some((c, rest)));
    } else {
        let c0 = c[0];
        let e = spec_escape_char(c0);
        let tail = spec_escape(c.skip(1)) + seq!['"'] + rest;
        assert(spec_escape(c) == e + spec_escape(c.skip(1)));
        assert(s =~= e + tail);
        lemma_str_rest_escaped(c.skip(1), rest);
        assert(seq![c0] + c.skip(1) =~= c);
        if c0 == '"' {
            assert(s[0] == '\\' && s[1] == '"');
            assert(s.skip(2) =~= tail);
            assert(spec_str_rest(s) == Some((c, rest)));
        } else if c0 == '\\' {
            assert(s[0] == '\\' && s[1] == '\\');
            assert(s.skip(2) =~= tail);
            assert(spec_str_rest(s) == Some((c, rest)));
        } else if c0 == '\u{8}' {
            assert(s[0] == '\\' && s[1] == 'b');
            assert(s.skip(2) =~= tail);
            assert(spec_str_rest(s) == Some((c, rest)));
        } else if c0 == '\u{c}' {
            assert(s[0] == '\\' && s[1] == 'f');
            assert(s.skip(2) =~= tail);
            assert(spec_str_rest(s) == Some((c, rest)));
        } else if c0 == '\n' {
            assert(s[0] == '\\' && s[1] == 'n');
            assert(s.skip(2) =~= tail);
            assert(spec_str_rest(s) == Some((c, rest)));
        } else if c0 == '\r' {
            assert(s[0] == '\\' && s[1] == 'r');
            assert(s.skip(2) =~= tail);
            assert(spec_str_rest(s) == Some((c, rest)));
        } else if c0 == '\t' {
            assert(s[0] == '\\' && s[1] == 't');
            assert(s.skip(2) =~= tail);
            assert(spec_str_rest(s) == Some((c, rest)));
        } else if (c0 as u32) < 0x20 {
            let cv = (c0 as u32) as int;
            assert(0 <= cv && cv < 0x20);
            let hi = cv / 16;
            let lo = cv % 16;
            lemma_hexdigit_val(hi);
            lemma_hexdigit_val(lo);
            assert(s[0] == '\\' && s[1] == 'u' && s[2] == '0' && s[3] == '0');
            assert(s[4] == spec_hexdigit(hi) && s[5] == spec_hexdigit(lo));
            assert(s.len() >= 6);
            assert(spec_hex_val('0') == Some(0int));
            let v = 0 * 4096 + 0 * 256 + hi * 16 + lo;
            assert(v == cv);
            assert(0 <= v < 0x20);
            assert(v as u32 == c0 as u32);
            assert(!(0xD800 <= v < 0xE000));
            assert(s.skip(6) =~= tail);
            vstd::utf8::char_u32_cast(c0, c0 as u32);
            assert((v as u32) as char == c0);
            assert(spec_str_rest(s) == Some((c, rest)));
        } else {
            assert(spec_plain_char(c0));
            assert(e =~= seq![c0]);
            assert(s[0] == c0);
            assert(s.skip(1) =~= tail);
            assert(spec_str_rest(s) == Some((c, rest)));
        }
    }
}

/// Escaping a concatenation escapes the parts.
pub proof fn lemma_escape_concat(a: Seq<char>, b: Seq<char>)
    ensures
        spec_escape(a + b) == spec_escape(a) + spec_escape(b),
    decreases a.len(),
{
    if a.len() == 0 {
        assert(a + b =~= b);
        assert(spec_escape(a) + spec_escape(b) =~= spec_escape(b));
    } else {
        assert((a + b)[0] == a[0]);
        assert((a + b).skip(1) =~= a.skip(1) + b);
        lemma_escape_concat(a.skip(1), b);
        assert(spec_escape(a + b) =~= spec_escape(a) + spec_escape(b));
    }
}

/// Drops the first `k` characters of a slice.
pub(crate) fn skip<'a>(s: &'a [char], k: usize) -> (r: &'a [char])
    requires
        k <= s@.len(),
    ensures
        r@ == s@.skip(k as int),
{
    let r = vstd::slice::slice_subrange(s, k, s.len());
    proof {
        assert(r@ =~= s@.skip(k as int));
    }
    r
}

/// Whether a character is JSON insignificant whitespace.
pub(crate) fn is_ws_c(c: char) -> (r: bool)
    ensures
        r == spec_is_ws(c),
{
    c == ' ' || c == '\t' || c == '\n' || c == '\r'
}

/// Drops leading insignificant whitespace.
pub(crate) fn ws<'a>(s: &'a [char]) -> (r: &'a [char])
    ensures
        r@ == spec_skip_ws(s@),
    decreases s@.len(),
{
    if s.len() > 0 && is_ws_c(s[0]) {
        ws(skip(s, 1))
    } else {
        s
    }
}

/// The lowercase hexadecimal digit character of a value below sixteen.
pub(crate) fn hexdigit_c(d: u8) -> (r: char)
    requires
        d < 16,
    ensures
        r == spec_hexdigit(d as int),
{
    if d < 10 {
        crate::timestamp::digit_char(d)
    } else {
        match d {
            10 => 'a',
            11 => 'b',
            12 => 'c',
            13 => 'd',
            14 => 'e',
            _ => 'f',
        }
    }
}

/// The value of a hexadecimal digit character.
pub(crate) fn hex_val_c(c: char) -> (r: Option<u8>)
    ensures
        match r {
            Some(v) => spec_hex_val(c) == Some(v as int),
            None => spec_hex_val(c) is None,
        },
{
    let v = c as u32;
    if 48 <= v && v <= 57 {
        proof {
            assert('0' <= c && c <= '9');
        }
        Some((v - 48) as u8)
    } else if 97 <= v && v <= 102 {
        proof {
            assert('a' <= c && c <= 'f');
        }
        Some((v - 97 + 10) as u8)
    } else if 65 <= v && v <= 70 {
        proof {
            assert(!('0' <= c && c <= '9') && !('a' <= c && c <= 'f'));
            assert('A' <= c && c <= 'F');
        }
        Some((v - 65 + 10) as u8)
    } else {
        proof {
            assert(!('0' <= c && c <= '9') && !('a' <= c && c <= 'f') && !('A' <= c && c <= 'F'));
        }
        None
    }
}

/// The character named by a short escape.
pub(crate) fn unescape_c(e: char) -> (r: Option<char>)
    ensures
        r == spec_unescape_char(e),
{
    match e {
        '"' => Some('"'),
        '\\' => Some('\\'),
        '/' => Some('/'),
        'b' => Some('\u{8}'),
        'f' => Some('\u{c}'),
        'n' => Some('\n'),
        'r' => Some('\r'),
        't' => Some('\t'),
        _ => None,
    }
}

/// Appends the escaped form of one character.
pub(crate) fn push_escape_char(out: &mut Vec<char>, c: char)
    ensures
        final(out)@ == old(out)@ + spec_escape_char(c),
{
    let ghost orig = out@;
    if c == '"' {
        out.push('\\');
        out.push('"');
    } else if c == '\\' {
        out.push('\\');
        out.push('\\');
    } else if c == '\u{8}' {
        out.push('\\');
        out.push('b');
    } else if c == '\u{c}' {
        out.push('\\');
        out.push('f');
    } else if c == '\n' {
        out.push('\\');
        out.push('n');
    } else if c == '\r' {
        out.push('\\');
        out.push('r');
    } else if c == '\t' {
        out.push('\\');
        out.push('t');
    } else if (c as u32) < 0x20 {
        let v = c as u32;
        out.push('\\');
        out.push('u');
        out.push('0');
        out.push('0');
        out.push(hexdigit_c((v / 16) as u8));
        out.push(hexdigit_c((v % 16) as u8));
    } else {
        out.push(c);
    }
    proof {
        assert(out@ =~= orig + spec_escape_char(c));
    }
}

/// Appends the escaped form of a string's characters.
pub(crate) fn push_escaped(out: &mut Vec<char>, s: &str)
    ensures
        final(out)@ == old(out)@ + spec_escape(s@),
{
    let chars = crate::chars::chars_of(s);
    let ghost orig = out@;
    let mut i: usize = 0;
    while i < chars.len()
        invariant
            chars@ == s@,
            i <= chars@.len(),
            out@ == orig + spec_escape(s@.subrange(0, i as int)),
        decreases chars@.len() - i,
    {
        push_escape_char(out, chars[i]);
        proof {
            assert(s@.subrange(0, i + 1) =~= s@.subrange(0, i as int) + seq![s@[i as int]]);
            lemma_escape_concat(s@.subrange(0, i as int), seq![s@[i as int]]);
            assert(seq![s@[i as int]].skip(1) =~= Seq::<char>::empty());
            assert(spec_escape(seq![s@[i as int]]) =~= spec_escape_char(s@[i as int]) + spec_escape(
                Seq::<char>::empty(),
            ));
            assert(spec_escape(seq![s@[i as int]]) =~= spec_escape_char(s@[i as int]));
        }
        i = i + 1;
    }
    proof {
        assert(s@.subrange(0, s@.len() as int) =~= s@);
    }
}

/// Reads a string token from just after its opening quote, appending its
/// decoded content; yields the suffix after the closing quote.
pub(crate) fn parse_str_rest<'a>(s: &'a [char], out: &mut Vec<char>) -> (r: Option<&'a [char]>)
    ensures
        match spec_str_rest(s@) {
            Some((cs, rest)) => r matches Some(sl) && sl@ == rest && final(out)@ == old(out)@ + cs,
            None => r is None,
        },
    decreases s@.len(),
{
    if s.len() == 0 {
        None
    } else if s[0] == '"' {
        proof {
            assert(out@ =~= out@ + Seq::<char>::empty());
        }
        Some(skip(s, 1))
    } else if s[0] == '\\' {
        if s.len() < 2 {
            None
        } else if s[1] == 'u' {
            if s.len() < 6 {
                return None;
            }
            let h1 = hex_val_c(s[2]);
            let h2 = hex_val_c(s[3]);
            let h3 = hex_val_c(s[4]);
            let h4 = hex_val_c(s[5]);
            match (h1, h2, h3, h4) {
                (Some(a), Some(b), Some(c), Some(d)) => {
                    let v: u32 = a as u32 * 4096 + b as u32 * 256 + c as u32 * 16 + d as u32;
                    if 0xD800 <= v && v < 0xE000 {
                        None
                    } else {
                        let ch = match char::from_u32(v) {
                            Some(ch) => ch,
                            None => {
                                proof {
                                    assert(v < 0xD800 || (0xE000 <= v && v <= 0x10FFFF));
                                }
                                return None;
                            },
                        };
                        let ghost mid = out@;
                        out.push(ch);
                        match parse_str_rest(skip(s, 6), out) {
                            Some(rest) => {
                                proof {
                                    vstd::utf8::char_u32_cast(ch, v);
                                    let (cs, _r) = spec_str_rest(s@.skip(6)).unwrap();
                                    assert(out@ =~= mid + (seq![(v as u32) as char] + cs));
                                }
                                Some(rest)
                            },
                            None => None,
                        }
                    }
                },
                _ => None,
            }
        } else {
            match unescape_c(s[1]) {
                Some(c) => {
                    let ghost mid = out@;
                    out.push(c);
                    match parse_str_rest(skip(s, 2), out) {
                        Some(rest) => {
                            proof {
                                let (cs, _r) = spec_str_rest(s@.skip(2)).unwrap();
                                assert(out@ =~= mid + (seq![c] + cs));
                            }
                            Some(rest)
                        },
                        None => None,
                    }
                },
                None => None,
            }
        }
    } else if (s[0] as u32) < 0x20 {
        None
    } else {
        let c = s[0];
        let ghost mid = out@;
        out.push(c);
        match parse_str_rest(skip(s, 1), out) {
            Some(rest) => {
                proof {
                    let (cs, _r) = spec_str_rest(s@.skip(1)).unwrap();
                    assert(out@ =~= mid + (seq![c] + cs));
                }
                Some(rest)
            },
            None => None,
        }
    }
}

/// Drops leading decimal digits.
pub(crate) fn skip_digits<'a>(s: &'a [char]) -> (r: &'a [char])
    ensures
        r@ == spec_skip_digits(s@),
    decreases s@.len(),
{
    if s.len() > 0 && crate::timestamp::digit_val(s[0]).is_some() {
        skip_digits(skip(s, 1))
    } else {
        s
    }
}

/// Skips a JSON number.
pub(crate) fn skip_number<'a>(s: &'a [char]) -> (r: Option<&'a [char]>)
    ensures
        match spec_skip_number(s@) {
            Some(rest) => r matches Some(sl) && sl@ == rest,
            None => r is None,
        },
{
    let s1 = if s.len() > 0 && s[0] == '-' {
        skip(s, 1)
    } else {
        s
    };
    if s1.len() == 0 {
        None
    } else if s1[0] == '0' {
        skip_number_frac(skip(s1, 1))
    } else if crate::timestamp::digit_val(s1[0]).is_some() {
        skip_number_frac(skip_digits(s1))
    } else {
        None
    }
}

/// Skips the optional fraction part of a number, then its exponent part.
pub(crate) fn skip_number_frac<'a>(s: &'a [char]) -> (r: Option<&'a [char]>)
    ensures
        match spec_skip_number_frac(s@) {
            Some(rest) => r matches Some(sl) && sl@ == rest,
            None => r is None,
        },
{
    if s.len() >= 2 && s[0] == '.' && crate::timestamp::digit_val(s[1]).is_some() {
        skip_number_exp(skip_digits(skip(s, 1)))
    } else if s.len() >= 1 && s[0] == '.' {
        None
    } else {
        skip_number_exp(s)
    }
}

/// Skips the optional exponent part of a number.
pub(crate) fn skip_number_exp<'a>(s: &'a [char]) -> (r: Option<&'a [char]>)
    ensures
        match spec_skip_number_exp(s@) {
            Some(rest) => r matches Some(sl) && sl@ == rest,
            None => r is None,
        },
{
    if s.len() >= 1 && (s[0] == 'e' || s[0] == 'E') {
        let s1 = if s.len() >= 2 && (s[1] == '+' || s[1] == '-') {
            skip(s, 2)
        } else {
            skip(s, 1)
        };
        if s1.len() >= 1 && crate::timestamp::digit_val(s1[0]).is_some() {
            Some(skip_digits(s1))
        } else {
            None
        }
    } else {
        Some(s)
    }
}

/// Skips one well-formed JSON value.
pub(crate) fn skip_value<'a>(s: &'a [char]) -> (r: Option<&'a [char]>)
    ensures
        match spec_skip_value(s@) {
            Some(rest) => r matches Some(sl) && sl@ == rest,
            None => r is None,
        },
    decreases s@.len(), 0int,
{
    if s.len() == 0 {
        None
    } else if s[0] == '"' {
        let mut scratch: Vec<char> = Vec::new();
        match parse_str_rest(skip(s, 1), &mut scratch) {
            Some(rest) => Some(rest),
            None => None,
        }
    } else if s[0] == '{' {
        skip_object_rest(skip(s, 1))
    } else if s[0] == '[' {
        skip_array_rest(skip(s, 1))
    } else if s[0] == 't' {
        if s.len() >= 4 && s[1] == 'r' && s[2] == 'u' && s[3] == 'e' {
            Some(skip(s, 4))
        } else {
            None
        }
    } else if s[0] == 'f' {
        if s.len() >= 5 && s[1] == 'a' && s[2] == 'l' && s[3] == 's' && s[4] == 'e' {
            Some(skip(s, 5))
        } else {
            None
        }
    } else if s[0] == 'n' {
        if s.len() >= 4 && s[1] == 'u' && s[2] == 'l' && s[3] == 'l' {
            Some(skip(s, 4))
        } else {
            None
        }
    } else if s[0] == '-' || crate::timestamp::digit_val(s[0]).is_some() {
        skip_number(s)
    } else {
        None
    }
}

/// Skips the rest of an object, from just after its opening brace.
pub(crate) fn skip_object_rest<'a>(s: &'a [char]) -> (r: Option<&'a [char]>)
    ensures
        match spec_skip_object_rest(s@) {
            Some(rest) => r matches Some(sl) && sl@ == rest,
            None => r is None,
        },
    decreases s@.len(), 2int,
{
    let s1 = ws(s);
    if s1.len() <= s.len() {
        if s1.len() > 0 && s1[0] == '}' {
            Some(skip(s1, 1))
        } else {
            skip_members(s1)
        }
    } else {
        None
    }
}

/// Skips the members of an object, from the opening quote of a key.
pub(crate) fn skip_members<'a>(s: &'a [char]) -> (r: Option<&'a [char]>)
    ensures
        match spec_skip_members(s@) {
            Some(rest) => r matches Some(sl) && sl@ == rest,
            None => r is None,
        },
    decreases s@.len(), 1int,
{
    if s.len() == 0 || s[0] != '"' {
        return None;
    }
    let mut scratch: Vec<char> = Vec::new();
    match parse_str_rest(skip(s, 1), &mut scratch) {
        Some(r1) => {
            let r2 = ws(r1);
            if r2.len() > 0 && r2[0] == ':' {
                let r3 = ws(skip(r2, 1));
                if r3.len() <= s.len() {
                    match skip_value(r3) {
                        Some(r4) => {
                            let r5 = ws(r4);
                            if r5.len() > 0 && r5[0] == ',' {
                                let r6 = ws(skip(r5, 1));
                                if r6.len() < s.len() {
                                    skip_members(r6)
                                } else {
                                    None
                                }
                            } else if r5.len() > 0 && r5[0] == '}' {
                                Some(skip(r5, 1))
                            } else {
                                None
                            }
                        },
                        None => None,
                    }
                } else {
                    None
                }
            } else {
                None
            }
        },
        None => None,
    }
}

/// Skips the rest of an array, from just after its opening bracket.
pub(crate) fn skip_array_rest<'a>(s: &'a [char]) -> (r: Option<&'a [char]>)
    ensures
        match spec_skip_array_rest(s@) {
            Some(rest) => r matches Some(sl) && sl@ == rest,
            None => r is None,
        },
    decreases s@.len(), 2int,
{
    let s1 = ws(s);
    if s1.len() <= s.len() {
        if s1.len() > 0 && s1[0] == ']' {
            Some(skip(s1, 1))
        } else {
            skip_elements(s1)
        }
    } else {
        None
    }
}

/// Skips the elements of an array, from the first character of an element.
pub(crate) fn skip_elements<'a>(s: &'a [char]) -> (r: Option<&'a [char]>)
    ensures
        match spec_skip_elements(s@) {
            Some(rest) => r matches Some(sl) && sl@ == rest,
            None => r is None,
        },
    decreases s@.len(), 1int,
{
    match skip_value(s) {
        Some(r) => {
            let r1 = ws(r);
            if r1.len() > 0 && r1[0] == ',' {
                let r2 = ws(skip(r1, 1));
                if r2.len() < s.len() {
                    skip_elements(r2)
                } else {
                    None
                }
            } else if r1.len() > 0 && r1[0] == ']' {
                Some(skip(r1, 1))
            } else {
                None
            }
        },
        None => None,
    }
}

} // verus!
