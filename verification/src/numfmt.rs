//! Decimal and hexadecimal digits: reading a run of ASCII digits as a
//! number, and writing numbers back out.

use vstd::prelude::*;

use crate::text::{all_digit_chars, is_digit, string_of};

verus! {

pub open spec fn digit_char_spec(d: int) -> char {
    (('0' as u32) + d) as char
}

pub open spec fn digit_value(c: char) -> int {
    (c as u32) - ('0' as u32)
}

/// Value of a run of decimal digits (leading zeros allowed).
pub open spec fn decimal_value(s: Seq<char>) -> nat
    decreases s.len(),
{
    if s.len() == 0 {
        0
    } else {
        let v = decimal_value(s.drop_last()) * 10 + digit_value(s.last());
        if v < 0 {
            0
        } else {
            v as nat
        }
    }
}

/// Decimal representation of `n`, without leading zeros.
pub open spec fn decimal_spec(n: nat) -> Seq<char>
    decreases n,
{
    if n < 10 {
        seq![digit_char_spec(n as int)]
    } else {
        decimal_spec(n / 10).push(digit_char_spec((n % 10) as int))
    }
}

pub open spec fn hex_digit_spec(d: int) -> char {
    if d < 10 {
        (('0' as u32) + d) as char
    } else {
        (('a' as u32) + d - 10) as char
    }
}

/// The low `k` hexadecimal digits of `n`, most significant first,
/// lowercase, zero-padded.
pub open spec fn hex_spec(n: nat, k: nat) -> Seq<char>
    decreases k,
{
    if k == 0 {
        Seq::empty()
    } else {
        hex_spec(n / 16, (k - 1) as nat).push(hex_digit_spec((n % 16) as int))
    }
}

pub proof fn lemma_decimal_prefix(s: Seq<char>, i: int)
    requires
        all_digit_chars(s),
        0 <= i <= s.len(),
    ensures
        decimal_value(s.take(i)) <= decimal_value(s),
    decreases s.len(),
{
    if i < s.len() {
        let t = s.drop_last();
        assert(all_digit_chars(t)) by {
            assert forall|k: int| 0 <= k < t.len() implies is_digit(#[trigger] t[k]) by {
                assert(t[k] == s[k]);
            }
        }
        assert(s.take(i) =~= t.take(i));
        lemma_decimal_prefix(t, i);
        assert(is_digit(s[s.len() - 1]));
    } else {
        assert(s.take(i) =~= s);
    }
}

pub fn digit_char(d: u32) -> (r: char)
    requires
        d <= 9,
    ensures
        r == digit_char_spec(d as int),
        is_digit(r),
{
    ((d + 48) as u8) as char
}

/// Value of a non-empty run of digits, when it fits in `u32`.
pub fn parse_decimal_u32(s: &Vec<char>) -> (r: Option<u32>)
    requires
        all_digit_chars(s@),
    ensures
        match r {
            Some(v) => decimal_value(s@) <= u32::MAX && v == decimal_value(s@),
            None => decimal_value(s@) > u32::MAX,
        },
{
    let mut acc: u64 = 0;
    for i in 0..s.len()
        invariant
            all_digit_chars(s@),
            acc == decimal_value(s@.take(i as int)),
            acc <= u32::MAX,
    {
        let c = s[i];
        assert(is_digit(s@[i as int]));
        let d = (c as u32 - '0' as u32) as u64;
        assert(s@.take(i + 1).drop_last() =~= s@.take(i as int));
        acc = acc * 10 + d;
        if acc > 0xffff_ffff {
            proof {
                lemma_decimal_prefix(s@, i + 1);
            }
            return None;
        }
    }
    assert(s@.take(s.len() as int) =~= s@);
    Some(acc as u32)
}

fn push_decimal(n: u64, out: &mut Vec<char>)
    ensures
        final(out)@ == old(out)@ + decimal_spec(n as nat),
    decreases n,
{
    if n >= 10 {
        push_decimal(n / 10, out);
    }
    out.push(digit_char((n % 10) as u32));
    assert(final(out)@ =~= old(out)@ + decimal_spec(n as nat));
}

/// Decimal text of `n` (`u64::to_string`).
pub fn decimal_string(n: u64) -> (r: String)
    ensures
        r@ == decimal_spec(n as nat),
{
    let mut v: Vec<char> = Vec::new();
    push_decimal(n, &mut v);
    assert(v@ =~= decimal_spec(n as nat));
    string_of(&v)
}

fn hex_digit(d: u64) -> (r: char)
    requires
        d < 16,
    ensures
        r == hex_digit_spec(d as int),
{
    if d < 10 {
        ((d + 48) as u8) as char
    } else {
        ((d + 87) as u8) as char
    }
}

fn push_hex(n: u64, k: u32, out: &mut Vec<char>)
    ensures
        final(out)@ == old(out)@ + hex_spec(n as nat, k as nat),
    decreases k,
{
    if k > 0 {
        push_hex(n / 16, k - 1, out);
        out.push(hex_digit(n % 16));
    }
    assert(final(out)@ =~= old(out)@ + hex_spec(n as nat, k as nat));
}

/// Sixteen lowercase hex digits of `n` (`format!("{n:016x}")`).
pub fn hex16(n: u64) -> (r: String)
    ensures
        r@ == hex_spec(n as nat, 16),
{
    let mut v: Vec<char> = Vec::new();
    push_hex(n, 16, &mut v);
    assert(v@ =~= hex_spec(n as nat, 16));
    string_of(&v)
}

} // verus!
