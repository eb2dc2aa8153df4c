//! Identifier codecs: the transient local id (a decimal integer) and the
//! durable task identifier (a 128-bit value in the canonical hyphenated
//! hexadecimal form).

use vstd::prelude::*;

use crate::task::TaskId;
use crate::timestamp::{digit_char, spec_digit, spec_digit_val};
use crate::jsontext::{spec_hexdigit, spec_hex_val};

verus! {

/// The transient small-integer reference of a task, valid only within the
/// current snapshot of the external store; never used as a durable key.
#[derive(Debug, Clone, Copy, PartialEq, Eq, Structural)]
pub struct TaskwarriorTaskLocalId(pub u64);

/// The external store's durable task identifier.
#[derive(Debug, Clone, Copy, PartialEq, Eq, Structural)]
pub struct TaskwarriorTaskId(pub u128);

impl TaskwarriorTaskId {
    /// The durable identifier of the internal model carried by this key.
    pub fn to_task_id(&self) -> (r: TaskId)
        ensures
            r == TaskId(self.0),
    {
        TaskId(self.0)
    }

    /// The external store's key for an internal durable identifier.
    pub fn from_task_id(id: &TaskId) -> (r: TaskwarriorTaskId)
        ensures
            r == TaskwarriorTaskId(id.0),
    {
        TaskwarriorTaskId(id.0)
    }
}

/// The decimal text of a number, without leading zeros.
pub open spec fn spec_decimal(n: int) -> Seq<char>
    decreases n,
{
    if n < 10 {
        seq![spec_digit(n)]
    } else {
        spec_decimal(n / 10) + seq![spec_digit(n % 10)]
    }
}

/// Appends the decimal text of a number.
fn push_decimal(out: &mut Vec<char>, n: u64)
    ensures
        final(out)@ == old(out)@ + spec_decimal(n as int),
    decreases n,
{
    if n < 10 {
        out.push(digit_char(n as u8));
        proof {
            assert(out@ =~= old(out)@ + spec_decimal(n as int));
        }
    } else {
        push_decimal(out, n / 10);
        let ghost mid = out@;
        out.push(digit_char((n % 10) as u8));
        proof {
            assert(out@ =~= old(out)@ + spec_decimal(n as int));
        }
    }
}

/// The decimal text of a local id, as it appears in filter tokens.
pub fn local_id_text(id: &TaskwarriorTaskLocalId) -> (r: String)
    ensures
        r@ == spec_decimal(id.0 as int),
{
    let mut out: Vec<char> = Vec::new();
    push_decimal(&mut out, id.0);
    crate::chars::string_of(&out)
}

/// The fixed-width hexadecimal text of a number.
pub open spec fn spec_hex_width(n: int, w: nat) -> Seq<char>
    decreases w,
{
    if w == 0 {
        Seq::empty()
    } else {
        spec_hex_width(n / 16, (w - 1) as nat) + seq![spec_hexdigit(n % 16)]
    }
}

/// The canonical hyphenated form of a durable identifier: five lowercase
/// hexadecimal groups of 8, 4, 4, 4 and 12 digits.
pub open spec fn spec_uuid_text(n: int) -> Seq<char> {
    spec_hex_width(n / 0x1000000000000000000000000, 8) + seq!['-'] + spec_hex_width(
        n / 0x100000000000000000000 % 0x10000,
        4,
    ) + seq!['-'] + spec_hex_width(n / 0x10000000000000000 % 0x10000, 4) + seq!['-']
        + spec_hex_width(n / 0x1000000000000 % 0x10000, 4) + seq!['-'] + spec_hex_width(
        n % 0x1000000000000,
        12,
    )
}

/// Appends the fixed-width hexadecimal text of a number.
fn push_hex_width(out: &mut Vec<char>, n: u128, w: u8)
    ensures
        final(out)@ == old(out)@ + spec_hex_width(n as int, w as nat),
    decreases w,
{
    if w == 0 {
        proof {
            assert(out@ =~= old(out)@ + spec_hex_width(n as int, 0));
        }
    } else {
        push_hex_width(out, n / 16, w - 1);
        out.push(crate::jsontext::hexdigit_c((n % 16) as u8));
        proof {
            assert(out@ =~= old(out)@ + spec_hex_width(n as int, w as nat));
        }
    }
}

/// The canonical hyphenated text of a durable identifier.
pub fn uuid_text(id: &TaskwarriorTaskId) -> (r: String)
    ensures
        r@ == spec_uuid_text(id.0 as int),
{
    let n = id.0;
    let mut out: Vec<char> = Vec::new();
    push_hex_width(&mut out, n / 0x1000000000000000000000000, 8);
    out.push('-');
    push_hex_width(&mut out, n / 0x100000000000000000000 % 0x10000, 4);
    out.push('-');
    push_hex_width(&mut out, n / 0x10000000000000000 % 0x10000, 4);
    out.push('-');
    push_hex_width(&mut out, n / 0x1000000000000 % 0x10000, 4);
    out.push('-');
    push_hex_width(&mut out, n % 0x1000000000000, 12);
    proof {
        assert(out@ =~= spec_uuid_text(id.0 as int));
    }
    crate::chars::string_of(&out)
}

/// Sixteen to a power.
pub open spec fn pow16(w: int) -> int
    decreases w,
{
    if w <= 0 {
        1
    } else {
        16 * pow16(w - 1)
    }
}

/// The value of a fixed-width run of hexadecimal digit characters, or
/// `None` when one of them is no such digit.
pub open spec fn spec_hex_group(s: Seq<char>, start: int, w: int) -> Option<int>
    decreases w,
{
    if w <= 0 {
        Some(0)
    } else {
        match (spec_hex_group(s, start, w - 1), spec_hex_val(s[start + w - 1])) {
            (Some(hi), Some(d)) => Some(hi * 16 + d),
            _ => None,
        }
    }
}

/// A hexadecimal digit run's value lies below sixteen to its width.
proof fn lemma_hex_group_bound(s: Seq<char>, start: int, w: int)
    ensures
        spec_hex_group(s, start, w) matches Some(v) ==> 0 <= v < pow16(w),
    decreases w,
{
    if w > 0 {
        lemma_hex_group_bound(s, start, w - 1);
    }
}

/// The durable identifier encoded by a text in the canonical hyphenated
/// shape, or `None` for any other text.
pub open spec fn spec_parse_uuid(s: Seq<char>) -> Option<int> {
    if s.len() == 36 && s[8] == '-' && s[13] == '-' && s[18] == '-' && s[23] == '-' {
        match (
            spec_hex_group(s, 0, 8),
            spec_hex_group(s, 9, 4),
            spec_hex_group(s, 14, 4),
            spec_hex_group(s, 19, 4),
            spec_hex_group(s, 24, 12),
        ) {
            (Some(g1), Some(g2), Some(g3), Some(g4), Some(g5)) => Some(
                g1 * 0x1000000000000000000000000 + g2 * 0x100000000000000000000 + g3
                    * 0x10000000000000000 + g4 * 0x1000000000000 + g5,
            ),
            _ => None,
        }
    } else {
        None
    }
}

/// A fixed-width hexadecimal text has exactly its width.
proof fn lemma_hex_width_len(n: int, w: nat)
    ensures
        spec_hex_width(n, w).len() == w,
    decreases w,
{
    if w > 0 {
        lemma_hex_width_len(n / 16, (w - 1) as nat);
    }
}

/// A fixed-width hexadecimal text reads back to the value it was written
/// from, wherever it stands.
proof fn lemma_hex_width_group(s: Seq<char>, start: int, n: int, w: int)
    requires
        0 <= w,
        0 <= start,
        start + w <= s.len(),
        s.subrange(start, start + w) == spec_hex_width(n, w as nat),
        0 <= n < pow16(w),
    ensures
        spec_hex_group(s, start, w) == Some(n),
    decreases w,
{
    if w == 0 {
        assert(n == 0);
    } else {
        let sub = s.subrange(start, start + w);
        lemma_hex_width_len(n / 16, (w - 1) as nat);
        assert(sub =~= spec_hex_width(n / 16, (w - 1) as nat) + seq![spec_hexdigit(n % 16)]);
        assert(s[start + w - 1] == sub[w - 1]);
        assert(sub[w - 1] == spec_hexdigit(n % 16));
        assert(s.subrange(start, start + w - 1) =~= spec_hex_width(n / 16, (w - 1) as nat));
        assert(pow16(w) == 16 * pow16(w - 1));
        assert(0 <= n / 16 < pow16(w - 1));
        lemma_hex_width_group(s, start, n / 16, w - 1);
        crate::jsontext::lemma_hexdigit_val(n % 16);
        assert(spec_hex_group(s, start, w) == Some(n / 16 * 16 + n % 16));
    }
}

/// Rendering law: the canonical hyphenated text of a durable identifier
/// parses back to that identifier, so the rendering is lossless.
#[verifier::rlimit(100)]
pub proof fn lemma_uuid_text_round_trip(id: TaskwarriorTaskId)
    ensures
        spec_parse_uuid(spec_uuid_text(id.0 as int)) == Some(id.0 as int),
{
    let n = id.0 as int;
    let g1 = n / 0x1000000000000000000000000;
    let g2 = n / 0x100000000000000000000 % 0x10000;
    let g3 = n / 0x10000000000000000 % 0x10000;
    let g4 = n / 0x1000000000000 % 0x10000;
    let g5 = n % 0x1000000000000;
    let s = spec_uuid_text(n);
    lemma_hex_width_len(g1, 8);
    lemma_hex_width_len(g2, 4);
    lemma_hex_width_len(g3, 4);
    lemma_hex_width_len(g4, 4);
    lemma_hex_width_len(g5, 12);
    assert(s.len() == 36);
    assert(s[8] == '-' && s[13] == '-' && s[18] == '-' && s[23] == '-');
    assert(s.subrange(0, 8) =~= spec_hex_width(g1, 8));
    assert(s.subrange(9, 13) =~= spec_hex_width(g2, 4));
    assert(s.subrange(14, 18) =~= spec_hex_width(g3, 4));
    assert(s.subrange(19, 23) =~= spec_hex_width(g4, 4));
    assert(s.subrange(24, 36) =~= spec_hex_width(g5, 12));
    assert(pow16(8) == 0x100000000) by {
        reveal_with_fuel(pow16, 9);
    }
    assert(pow16(4) == 0x10000) by {
        reveal_with_fuel(pow16, 5);
    }
    assert(pow16(12) == 0x1000000000000) by {
        reveal_with_fuel(pow16, 13);
    }
    assert(0 <= g1 < pow16(8));
    assert(0 <= g2 < pow16(4));
    assert(0 <= g3 < pow16(4));
    assert(0 <= g4 < pow16(4));
    assert(0 <= g5 < pow16(12));
    lemma_hex_width_group(s, 0, g1, 8);
    lemma_hex_width_group(s, 9, g2, 4);
    lemma_hex_width_group(s, 14, g3, 4);
    lemma_hex_width_group(s, 19, g4, 4);
    lemma_hex_width_group(s, 24, g5, 12);
    assert(n / 0x1000000000000 / 0x10000 == n / 0x10000000000000000) by {
        vstd::arithmetic::div_mod::lemma_div_denominator(n, 0x1000000000000, 0x10000);
    }
    assert(n / 0x10000000000000000 / 0x10000 == n / 0x100000000000000000000) by {
        vstd::arithmetic::div_mod::lemma_div_denominator(n, 0x10000000000000000, 0x10000);
    }
    assert(n / 0x100000000000000000000 / 0x10000 == n / 0x1000000000000000000000000) by {
        vstd::arithmetic::div_mod::lemma_div_denominator(n, 0x100000000000000000000, 0x10000);
    }
    assert(n == n / 0x1000000000000 * 0x1000000000000 + g5) by {
        vstd::arithmetic::div_mod::lemma_fundamental_div_mod(n, 0x1000000000000);
    }
    assert(n / 0x1000000000000 == n / 0x10000000000000000 * 0x10000 + g4) by {
        vstd::arithmetic::div_mod::lemma_fundamental_div_mod(n / 0x1000000000000, 0x10000);
    }
    assert(n / 0x10000000000000000 == n / 0x100000000000000000000 * 0x10000 + g3) by {
        vstd::arithmetic::div_mod::lemma_fundamental_div_mod(n / 0x10000000000000000, 0x10000);
    }
    assert(n / 0x100000000000000000000 == g1 * 0x10000 + g2) by {
        vstd::arithmetic::div_mod::lemma_fundamental_div_mod(n / 0x100000000000000000000, 0x10000);
    }
    assert(g1 * 0x1000000000000000000000000 + g2 * 0x100000000000000000000 + g3
        * 0x10000000000000000 + g4 * 0x1000000000000 + g5 == n);
    assert(spec_parse_uuid(s) == Some(n));
}

/// The value of one fixed-width hexadecimal group.
fn hex_group_val(chars: &Vec<char>, start: usize, w: usize) -> (r: Option<u64>)
    requires
        start + w <= chars@.len(),
        w <= 12,
    ensures
        match r {
            Some(v) => spec_hex_group(chars@, start as int, w as int) == Some(v as int) && v
                < 0x1000000000000,
            None => spec_hex_group(chars@, start as int, w as int) is None,
        },
{
    proof {
        assert(pow16(12) == 0x1000000000000) by {
            reveal_with_fuel(pow16, 13);
        }
    }
    let n = chars.len();
    let mut acc: u64 = 0;
    let mut j: usize = 0;
    while j < w
        invariant
            n == chars@.len(),
            start + w <= n,
            w <= 12,
            j <= w,
            spec_hex_group(chars@, start as int, j as int) == Some(acc as int),
            (acc as int) < pow16(j as int),
            pow16(12) == 0x1000000000000,
        decreases w - j,
    {
        match crate::jsontext::hex_val_c(chars[start + j]) {
            Some(v) => {
                proof {
                    assert(v < 16);
                    assert(pow16(j + 1) == 16 * pow16(j as int));
                    assert(pow16(j + 1) <= pow16(12)) by {
                        lemma_pow16_monotonic(j + 1, 12);
                    }
                }
                acc = acc * 16 + v as u64;
            },
            None => {
                proof {
                    assert(spec_hex_group(chars@, start as int, w as int) is None) by {
                        lemma_hex_group_none(chars@, start as int, j as int, w as int);
                    }
                }
                return None;
            },
        }
        j = j + 1;
    }
    proof {
        lemma_pow16_monotonic(w as int, 12);
    }
    Some(acc)
}

/// Sixteen to a power is positive.
proof fn lemma_pow16_pos(w: int)
    ensures
        pow16(w) >= 1,
    decreases w,
{
    if w > 0 {
        lemma_pow16_pos(w - 1);
    }
}

/// Sixteen to a power grows with the exponent.
proof fn lemma_pow16_monotonic(a: int, b: int)
    requires
        0 <= a <= b,
    ensures
        pow16(a) <= pow16(b),
    decreases b,
{
    if a < b {
        lemma_pow16_monotonic(a, b - 1);
        lemma_pow16_pos(b - 1);
    }
}

/// A run with a bad digit inside has no value.
proof fn lemma_hex_group_none(s: Seq<char>, start: int, j: int, w: int)
    requires
        0 <= j < w,
        spec_hex_val(s[start + j]) is None,
    ensures
        spec_hex_group(s, start, w) is None,
    decreases w,
{
    if j < w - 1 {
        lemma_hex_group_none(s, start, j, w - 1);
    }
}

/// Parses the canonical hyphenated identifier form; any other shape
/// yields `None`.
pub fn parse_uuid(s: &str) -> (r: Option<TaskwarriorTaskId>)
    ensures
        match r {
            Some(id) => spec_parse_uuid(s@) == Some(id.0 as int),
            None => spec_parse_uuid(s@) is None,
        },
{
    let chars = crate::chars::chars_of(s);
    if chars.len() != 36 {
        return None;
    }
    if chars[8] != '-' || chars[13] != '-' || chars[18] != '-' || chars[23] != '-' {
        return None;
    }
    let g1 = match hex_group_val(&chars, 0, 8) {
        Some(v) => v,
        None => {
            return None;
        },
    };
    let g2 = match hex_group_val(&chars, 9, 4) {
        Some(v) => v,
        None => {
            return None;
        },
    };
    let g3 = match hex_group_val(&chars, 14, 4) {
        Some(v) => v,
        None => {
            return None;
        },
    };
    let g4 = match hex_group_val(&chars, 19, 4) {
        Some(v) => v,
        None => {
            return None;
        },
    };
    let g5 = match hex_group_val(&chars, 24, 12) {
        Some(v) => v,
        None => {
            return None;
        },
    };
    proof {
        lemma_hex_group_bound(chars@, 0, 8);
        lemma_hex_group_bound(chars@, 9, 4);
        lemma_hex_group_bound(chars@, 14, 4);
        lemma_hex_group_bound(chars@, 19, 4);
        lemma_hex_group_bound(chars@, 24, 12);
        assert(pow16(8) == 0x100000000) by {
            reveal_with_fuel(pow16, 9);
        }
        assert(pow16(4) == 0x10000) by {
            reveal_with_fuel(pow16, 5);
        }
    }
    let v: u128 = g1 as u128 * 0x1000000000000000000000000 + g2 as u128 * 0x100000000000000000000
        + g3 as u128 * 0x10000000000000000 + g4 as u128 * 0x1000000000000 + g5 as u128;
    Some(TaskwarriorTaskId(v))
}

} // verus!
