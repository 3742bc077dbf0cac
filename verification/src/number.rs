//! Decimal integers: reading them from text and writing them as text.

use vstd::prelude::*;

verus! {

/// The ASCII digits `0` to `9`.
pub open spec fn is_digit(c: char) -> bool {
    0x30 <= c as u32 <= 0x39
}

/// What a digit counts for; zero for any other character.
pub open spec fn digit_value(c: char) -> nat {
    if is_digit(c) {
        (c as u32 - 0x30) as nat
    } else {
        0
    }
}

/// Whether `s` holds nothing but digits.
pub open spec fn all_digits(s: Seq<char>) -> bool {
    forall|i: int| 0 <= i < s.len() ==> is_digit(#[trigger] s[i])
}

/// The number that a run of digits denotes in base ten. Leading zeros count for
/// nothing; the empty run denotes zero.
pub open spec fn decimal_value(s: Seq<char>) -> nat
    decreases s.len(),
{
    if s.len() == 0 {
        0
    } else {
        decimal_value(s.drop_last()) * 10 + digit_value(s.last())
    }
}

/// The integer that `s` denotes: an optional sign, `+` or `-`, and then one
/// digit or more, with nothing before, between or after. `None` for any other
/// text.
pub open spec fn integer_literal(s: Seq<char>) -> Option<int> {
    if s.len() == 0 {
        None
    } else {
        let digits = if s[0] == '-' || s[0] == '+' {
            s.skip(1)
        } else {
            s
        };
        if digits.len() == 0 || !all_digits(digits) {
            None
        } else if s[0] == '-' {
            Some(-(decimal_value(digits) as int))
        } else {
            Some(decimal_value(digits) as int)
        }
    }
}

/// The integer that `s` denotes, if it denotes one and a signed 64-bit integer
/// can hold it.
pub open spec fn parse_i64(s: Seq<char>) -> Option<i64> {
    match integer_literal(s) {
        Some(v) => if i64::MIN <= v <= i64::MAX {
            Some(v as i64)
        } else {
            None
        },
        None => None,
    }
}

/// The digit for a number below ten.
pub open spec fn digit_char(d: nat) -> char {
    if d == 0 {
        '0'
    } else if d == 1 {
        '1'
    } else if d == 2 {
        '2'
    } else if d == 3 {
        '3'
    } else if d == 4 {
        '4'
    } else if d == 5 {
        '5'
    } else if d == 6 {
        '6'
    } else if d == 7 {
        '7'
    } else if d == 8 {
        '8'
    } else {
        '9'
    }
}

/// A natural number in base ten, without leading zeros.
pub open spec fn decimal(n: nat) -> Seq<char>
    decreases n,
{
    if n < 10 {
        seq![digit_char(n)]
    } else {
        decimal(n / 10).push(digit_char(n % 10))
    }
}

/// An integer in base ten, with `-` in front where it is negative.
pub open spec fn signed_decimal(v: int) -> Seq<char> {
    if v < 0 {
        seq!['-'] + decimal((-v) as nat)
    } else {
        decimal(v as nat)
    }
}

/// A run of digits denotes at least what any of its beginnings denotes.
pub proof fn lemma_decimal_value_grows(s: Seq<char>, k: int)
    requires
        0 <= k <= s.len(),
    ensures
        decimal_value(s.take(k)) <= decimal_value(s),
    decreases s.len(),
{
    if k == s.len() {
        assert(s.take(k) == s);
    } else {
        assert(s.drop_last().take(k) == s.take(k));
        lemma_decimal_value_grows(s.drop_last(), k);
    }
}

/// What `decimal` writes is a run of digits that denotes the number written.
pub proof fn lemma_decimal_is_read_back(n: nat)
    ensures
        decimal(n).len() > 0,
        all_digits(decimal(n)),
        decimal_value(decimal(n)) == n,
    decreases n,
{
    if n < 10 {
        let s = decimal(n);
        assert(decimal_value(s) == decimal_value(s.drop_last()) * 10 + digit_value(s.last()));
    } else {
        lemma_decimal_is_read_back(n / 10);
        let s = decimal(n);
        assert(s.drop_last() == decimal(n / 10));
    }
}

/// Reading back what was written for a 64-bit integer gives that integer.
pub proof fn lemma_written_integer_is_read_back(v: i64)
    ensures
        parse_i64(signed_decimal(v as int)) == Some(v),
{
    let s = signed_decimal(v as int);
    if v < 0 {
        let n = (-(v as int)) as nat;
        lemma_decimal_is_read_back(n);
        assert(s.skip(1) == decimal(n));
    } else {
        let n = v as nat;
        lemma_decimal_is_read_back(n);
    }
}

/// Reads a signed 64-bit integer from text in base ten.
///
/// The whole text must be the number: a sign or none, then digits. Text that
/// is no such number, or whose number is out of range, gives `None`.
pub fn parse_integer(text: &str) -> (r: Option<i64>)
    ensures
        r == parse_i64(text@),
{
    let mut at_start: bool = true;
    let mut signed: bool = false;
    let mut negative: bool = false;
    let mut any: bool = false;
    let mut magnitude: u64 = 0;
    for c in it: text.chars()
        invariant
            it.seq() == text@,
            at_start <==> it.index() == 0,
            signed <==> it.index() > 0 && (text@[0] == '-' || text@[0] == '+'),
            negative <==> it.index() > 0 && text@[0] == '-',
            ({
                let start = if signed {
                    1int
                } else {
                    0int
                };
                let digits = text@.subrange(start, it.index() as int);
                &&& all_digits(digits)
                &&& magnitude == decimal_value(digits)
                &&& any <==> digits.len() > 0
            }),
            magnitude <= 0x8000_0000_0000_0000,
            !negative ==> magnitude <= 0x7fff_ffff_ffff_ffff,
    {
        let ghost index = it.index() as int;
        if at_start && (c == '-' || c == '+') {
            signed = true;
            negative = c == '-';
        } else {
            let n: u32 = c as u32;
            let ghost start = if signed {
                1int
            } else {
                0int
            };
            let ghost whole = text@.skip(start);
            let ghost digits = text@.subrange(start, index);
            let ghost longer = text@.subrange(start, index + 1);
            assert(text@.skip(0) == text@);
            assert(whole[index - start] == c);
            if n < 0x30 || n > 0x39 {
                return None;
            }
            assert(longer.drop_last() == digits);
            let next: u128 = (magnitude as u128) * 10 + ((n - 0x30) as u128);
            let limit: u128 = if negative {
                0x8000_0000_0000_0000
            } else {
                0x7fff_ffff_ffff_ffff
            };
            if next > limit {
                proof {
                    assert(whole.take(index + 1 - start) == longer);
                    lemma_decimal_value_grows(whole, index + 1 - start);
                }
                return None;
            }
            magnitude = next as u64;
            any = true;
        }
        at_start = false;
    }
    assert(text@.skip(0) == text@);
    if !any {
        None
    } else if negative {
        if magnitude == 0x8000_0000_0000_0000 {
            Some(i64::MIN)
        } else {
            Some(-(magnitude as i64))
        }
    } else {
        Some(magnitude as i64)
    }
}

/// The digit for a number below ten.
fn digit_of(d: u8) -> (c: char)
    requires
        d < 10,
    ensures
        c == digit_char(d as nat),
{
    if d == 0 {
        '0'
    } else if d == 1 {
        '1'
    } else if d == 2 {
        '2'
    } else if d == 3 {
        '3'
    } else if d == 4 {
        '4'
    } else if d == 5 {
        '5'
    } else if d == 6 {
        '6'
    } else if d == 7 {
        '7'
    } else if d == 8 {
        '8'
    } else {
        '9'
    }
}

/// Writes `n` in base ten at the end of `out`.
pub fn push_decimal(out: &mut String, n: u64)
    ensures
        final(out)@ == old(out)@ + decimal(n as nat),
    decreases n,
{
    if n >= 10 {
        push_decimal(out, n / 10);
    }
    out.push(digit_of((n % 10) as u8));
}

/// Writes `v` in base ten at the end of `out`, with `-` in front where it is
/// negative.
pub fn push_signed_decimal(out: &mut String, v: i64)
    ensures
        final(out)@ == old(out)@ + signed_decimal(v as int),
{
    if v < 0 {
        out.push('-');
        let magnitude: u64 = if v == i64::MIN {
            0x8000_0000_0000_0000
        } else {
            (-v) as u64
        };
        push_decimal(out, magnitude);
    } else {
        push_decimal(out, v as u64);
    }
}

} // verus!
