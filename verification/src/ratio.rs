//! Floating-point literals: telling them from other text.
//!
//! This library computes with no floating-point number. It only decides
//! whether a text is one that the standard library reads as a binary64 number,
//! so that text which is none can be replaced by zero before the number is
//! read.

use vstd::prelude::*;
use crate::number::{all_digits, is_digit};

verus! {

/// The two signs.
pub open spec fn is_sign(c: char) -> bool {
    c == '+' || c == '-'
}

/// Whether `c` is the ASCII letter `letter`, given in lower case, in either
/// case.
pub open spec fn is_letter(c: char, letter: char) -> bool {
    c == letter || c as u32 + 0x20 == letter as u32
}

/// Whether `s` is `word`, given in lower case, in any mix of cases.
pub open spec fn spells(s: Seq<char>, word: Seq<char>) -> bool {
    &&& s.len() == word.len()
    &&& forall|i: int| 0 <= i < s.len() ==> is_letter(#[trigger] s[i], word[i])
}

/// `s` without the sign at its front, if it has one there.
pub open spec fn without_sign(s: Seq<char>) -> Seq<char> {
    if s.len() > 0 && is_sign(s[0]) {
        s.skip(1)
    } else {
        s
    }
}

/// Digits with at most one point before, between or after them, and at least
/// one digit.
pub open spec fn is_mantissa(s: Seq<char>) -> bool {
    &&& forall|i: int| 0 <= i < s.len() ==> is_digit(#[trigger] s[i]) || s[i] == '.'
    &&& forall|i: int, j: int| 0 <= i < j < s.len() ==> !(#[trigger] s[i] == '.' && #[trigger] s[j] == '.')
    &&& exists|i: int| 0 <= i < s.len() && is_digit(#[trigger] s[i])
}

/// The letter `e`, a sign or none, and one digit or more.
pub open spec fn is_exponent(s: Seq<char>) -> bool {
    &&& s.len() > 0
    &&& is_letter(s[0], 'e')
    &&& without_sign(s.skip(1)).len() > 0
    &&& all_digits(without_sign(s.skip(1)))
}

/// Whether the first `k` characters of `s` are a mantissa and the rest is an
/// exponent or nothing.
pub open spec fn splits_as_number(s: Seq<char>, k: int) -> bool {
    &&& 0 <= k <= s.len()
    &&& is_mantissa(s.take(k))
    &&& (k == s.len() || is_exponent(s.skip(k)))
}

/// A mantissa, with an exponent behind it or none.
pub open spec fn is_number(s: Seq<char>) -> bool {
    exists|k: int| splits_as_number(s, k)
}

/// The texts that denote a binary64 number: a sign or none, and then a
/// number in decimal notation or one of the words `inf`, `infinity` and `nan`
/// in any mix of cases.
pub open spec fn is_float_literal(s: Seq<char>) -> bool {
    let body = without_sign(s);
    ||| spells(body, seq!['i', 'n', 'f'])
    ||| spells(body, seq!['i', 'n', 'f', 'i', 'n', 'i', 't', 'y'])
    ||| spells(body, seq!['n', 'a', 'n'])
    ||| is_number(body)
}

/// The literal of a ratio: the field's text where that denotes a number, zero
/// where it does not.
pub open spec fn ratio_or_zero(field: Seq<char>) -> Seq<char> {
    if is_float_literal(field) {
        field
    } else {
        seq!['0', '.', '0']
    }
}

fn chars_of(s: &str) -> (chars: Vec<char>)
    ensures
        chars@ == s@,
{
    let mut chars: Vec<char> = Vec::new();
    for c in it: s.chars()
        invariant
            it.seq() == s@,
            chars@ == s@.take(it.index() as int),
    {
        chars.push(c);
    }
    chars
}

fn char_is_digit(c: char) -> (b: bool)
    ensures
        b == is_digit(c),
{
    let n: u32 = c as u32;
    0x30 <= n && n <= 0x39
}

fn char_is_letter(c: char, letter: char) -> (b: bool)
    ensures
        b == is_letter(c, letter),
{
    c == letter || c as u32 + 0x20 == letter as u32
}

/// Whether `chars` from `from` on is `word`, given in lower case, in any mix
/// of cases.
fn spells_from(chars: &Vec<char>, from: usize, word: &Vec<char>) -> (b: bool)
    requires
        from <= chars.len(),
    ensures
        b == spells(chars@.skip(from as int), word@),
{
    if chars.len() - from != word.len() {
        return false;
    }
    let mut i: usize = 0;
    while i < word.len()
        invariant
            from <= chars.len(),
            chars.len() - from == word.len(),
            i <= word.len(),
            forall|k: int| 0 <= k < i ==> is_letter(#[trigger] chars@.skip(from as int)[k], word@[k]),
        decreases word.len() - i,
    {
        if !char_is_letter(chars[from + i], word[i]) {
            assert(!is_letter(chars@.skip(from as int)[i as int], word@[i as int]));
            return false;
        }
        i += 1;
    }
    true
}

/// The end of the run of digits that starts at `from`.
fn digits_end(chars: &Vec<char>, from: usize) -> (to: usize)
    requires
        from <= chars.len(),
    ensures
        from <= to <= chars.len(),
        forall|k: int| from <= k < to ==> is_digit(#[trigger] chars@[k]),
        to < chars.len() ==> !is_digit(chars@[to as int]),
{
    let mut to: usize = from;
    while to < chars.len() && char_is_digit(chars[to])
        invariant
            from <= to <= chars.len(),
            forall|k: int| from <= k < to ==> is_digit(#[trigger] chars@[k]),
        decreases chars.len() - to,
    {
        to += 1;
    }
    to
}

/// Whether `chars` from `from` on is an exponent.
fn exponent_from(chars: &Vec<char>, from: usize) -> (b: bool)
    requires
        from < chars.len(),
    ensures
        b == is_exponent(chars@.skip(from as int)),
{
    let ghost s = chars@.skip(from as int);
    if !char_is_letter(chars[from], 'e') {
        return false;
    }
    let n: usize = chars.len();
    let mut digits: usize = from + 1;
    if digits < n && (chars[digits] == '+' || chars[digits] == '-') {
        digits += 1;
    }
    let end: usize = digits_end(chars, digits);
    proof {
        let rest = s.skip(1);
        assert(rest == chars@.skip(from as int + 1));
        assert(without_sign(rest) == chars@.skip(digits as int));
        if end == n {
            assert(all_digits(chars@.skip(digits as int)));
        } else {
            assert(chars@.skip(digits as int)[end - digits] == chars@[end as int]);
        }
    }
    end == n && end > digits
}

/// Whether `text` denotes a binary64 number.
pub fn is_float_text(text: &str) -> (b: bool)
    ensures
        b == is_float_literal(text@),
{
    let chars = chars_of(text);
    let n: usize = chars.len();
    let start: usize = if n > 0 && (chars[0] == '+' || chars[0] == '-') {
        1
    } else {
        0
    };
    let ghost body = without_sign(text@);
    assert(body == chars@.skip(start as int));
    if spells_from(&chars, start, &vec!['i', 'n', 'f']) {
        return true;
    }
    if spells_from(&chars, start, &vec!['i', 'n', 'f', 'i', 'n', 'i', 't', 'y']) {
        return true;
    }
    if spells_from(&chars, start, &vec!['n', 'a', 'n']) {
        return true;
    }
    let whole: usize = digits_end(&chars, start);
    let point: bool = whole < n && chars[whole] == '.';
    let end: usize = if point {
        digits_end(&chars, whole + 1)
    } else {
        whole
    };
    let any_digit: bool = whole > start || (point && end > whole + 1);
    let tail: bool = if end == n {
        true
    } else {
        exponent_from(&chars, end)
    };
    proof {
        // The mantissa can only end where the scan ended: a longer one would
        // hold the character that stopped the scan, which is no digit and no
        // first point; behind a shorter one stands a digit or a point, which
        // starts no exponent.
        let m = end - start;
        assert(body.skip(m) == chars@.skip(end as int));
        assert forall|k: int| splits_as_number(body, k) implies k == m by {
            if k > m {
                assert(body.take(k)[m] == chars@[end as int]);
                if point {
                    assert(body.take(k)[whole - start] == '.');
                }
            } else if k < m {
                assert(body.skip(k)[0] == chars@[start + k]);
            }
        }
        let mantissa = body.take(m);
        assert forall|i: int| 0 <= i < mantissa.len() implies is_digit(#[trigger] mantissa[i])
            || mantissa[i] == '.' by {
            assert(mantissa[i] == chars@[start + i]);
        }
        assert forall|i: int, j: int| 0 <= i < j < mantissa.len() implies !(#[trigger] mantissa[i]
            == '.' && #[trigger] mantissa[j] == '.') by {
            assert(mantissa[i] == chars@[start + i]);
            assert(mantissa[j] == chars@[start + j]);
        }
        if any_digit {
            if whole > start {
                assert(is_digit(mantissa[0]));
            } else {
                assert(is_digit(mantissa[whole + 1 - start]));
            }
            assert(is_mantissa(mantissa));
        } else {
            assert forall|i: int| 0 <= i < mantissa.len() implies !is_digit(
                #[trigger] mantissa[i],
            ) by {
                assert(mantissa[i] == chars@[start + i]);
            }
        }
        assert(is_mantissa(mantissa) == any_digit);
        assert(is_number(body) == splits_as_number(body, m));
    }
    any_digit && tail
}

/// The literal of a ratio: the field's text where that denotes a number, zero
/// where it does not.
pub fn ratio_literal(field: &String) -> (literal: String)
    ensures
        literal@ == ratio_or_zero(field@),
        is_float_literal(literal@),
{
    if is_float_text(field.as_str()) {
        field.clone()
    } else {
        let mut zero: String = String::new();
        zero.push('0');
        zero.push('.');
        zero.push('0');
        proof {
            lemma_zero_is_a_literal();
        }
        zero
    }
}

/// The text `0.0` denotes a number.
pub proof fn lemma_zero_is_a_literal()
    ensures
        is_float_literal(seq!['0', '.', '0']),
{
    let s = seq!['0', '.', '0'];
    assert(without_sign(s) == s);
    assert(s.take(3) == s);
    assert(is_digit(s[0]));
    assert(is_mantissa(s));
    assert(splits_as_number(s, 3));
}

} // verus!
