//! Numbers in text: decimal and hexadecimal digits, the grammar of numbers,
//! rounding.
use vstd::prelude::*;
use vstd::slice::slice_subrange;

use crate::text;
use crate::text::{chars_of, first_index_of, lower_chars};

verus! {

/// The digit that stands for `d`, below ten.
pub open spec fn digit_char(d: nat) -> char {
    (0x30 + d) as char
}

/// Whether `c` is an ASCII digit.
pub open spec fn is_digit(c: char) -> bool {
    0x30 <= c as u32 <= 0x39
}

/// What the digit `c` stands for.
pub open spec fn digit_value(c: char) -> nat {
    (c as u32 - 0x30) as nat
}

/// `n` in decimal digits, without leading zeros.
pub open spec fn decimal(n: nat) -> Seq<char>
    decreases n,
{
    if n < 10 {
        seq![digit_char(n)]
    } else {
        decimal(n / 10).push(digit_char(n % 10))
    }
}

/// The hexadecimal digit, in small letters, that stands for `d`, below sixteen.
pub open spec fn hex_char(d: nat) -> char {
    if d < 10 {
        (0x30 + d) as char
    } else {
        (0x57 + d) as char
    }
}

/// The last `width` hexadecimal digits of `n`, zeros in front.
pub open spec fn hex(n: nat, width: nat) -> Seq<char>
    decreases width,
{
    if width == 0 {
        seq![]
    } else {
        hex(n / 16, (width - 1) as nat).push(hex_char(n % 16))
    }
}

/// Whether `text` is nothing but digits (it may be empty).
pub open spec fn all_digits(text: Seq<char>) -> bool {
    forall|i: int| 0 <= i < text.len() ==> is_digit(#[trigger] text[i])
}

/// The number that a run of digits writes down.
pub open spec fn digits_value(text: Seq<char>) -> nat
    decreases text.len(),
{
    if text.len() == 0 {
        0
    } else {
        digits_value(text.drop_last()) * 10 + digit_value(text.last())
    }
}

/// `text` without one plus or minus in front.
pub open spec fn without_sign(text: Seq<char>) -> Seq<char> {
    if text.len() > 0 && (text[0] == '+' || text[0] == '-') {
        text.skip(1)
    } else {
        text
    }
}

/// The number that `text` writes down: digits, with at most one sign in front.
pub open spec fn integer_value(text: Seq<char>) -> Option<int> {
    let digits = without_sign(text);
    if digits.len() == 0 || !all_digits(digits) {
        None
    } else if text[0] == '-' {
        Some(-(digits_value(digits) as int))
    } else {
        Some(digits_value(digits) as int)
    }
}

/// The 64-bit signed number that `text` writes down.
pub open spec fn i64_value(text: Seq<char>) -> Option<i64> {
    match integer_value(text) {
        Some(n) => if i64::MIN <= n <= i64::MAX {
            Some(n as i64)
        } else {
            None
        },
        None => None,
    }
}

/// Digits with at most one point among them, and at least one digit.
pub open spec fn is_mantissa(text: Seq<char>) -> bool {
    let point = text::first_index(text, '.') as int;
    if point >= text.len() {
        text.len() > 0 && all_digits(text)
    } else {
        text.len() > 1 && all_digits(text.take(point)) && all_digits(text.skip(point + 1))
    }
}

/// At least one digit, with at most one sign in front.
pub open spec fn is_exponent(text: Seq<char>) -> bool {
    without_sign(text).len() > 0 && all_digits(without_sign(text))
}

/// Whether `text` writes down a floating-point number: `inf`, `infinity`, `nan`
/// or a mantissa with an optional exponent behind an `e`; in either case of
/// letters, with at most one sign in front.
pub open spec fn is_float_text(text: Seq<char>) -> bool {
    let body = without_sign(text::lower_text(text));
    let mark = text::first_index(body, 'e') as int;
    ||| body == "inf"@
    ||| body == "infinity"@
    ||| body == "nan"@
    ||| mark >= body.len() && is_mantissa(body)
    ||| mark < body.len() && is_mantissa(body.take(mark)) && is_exponent(body.skip(mark + 1))
}

/// `n / d` rounded to the nearest whole number, a tie to the even one.
pub open spec fn round_half_even(n: nat, d: nat) -> nat {
    let q = n / d;
    let r = n % d;
    if 2 * r > d || (2 * r == d && q % 2 == 1) {
        q + 1
    } else {
        q
    }
}

/// The place value of the last of 53 significant bits of `n`.
pub open spec fn double_step(n: nat) -> nat
    decreases n,
{
    if n < 0x20_0000_0000_0000 {
        1
    } else {
        2 * double_step(n / 2)
    }
}

/// `n` rounded to 53 significant bits, as a double-precision number holds it.
pub open spec fn nearest_double(n: nat) -> nat {
    round_half_even(n, double_step(n)) * double_step(n)
}

proof fn lemma_digits_grow(text: Seq<char>, k: int)
    requires
        0 <= k <= text.len(),
    ensures
        digits_value(text.take(k)) <= digits_value(text),
    decreases text.len() - k,
{
    if k < text.len() {
        lemma_digits_grow(text, k + 1);
        assert(text.take(k + 1).drop_last() =~= text.take(k));
    } else {
        assert(text.take(k) =~= text);
    }
}

/// The digit that stands for `d`.
pub fn digit_of(d: u8) -> (c: char)
    requires
        d < 10,
    ensures
        c == digit_char(d as nat),
{
    (48 + d) as char
}

/// `n` in decimal digits, without leading zeros.
pub fn decimal_text(n: u64) -> (text: String)
    ensures
        text@ == decimal(n as nat),
    decreases n,
{
    if n < 10 {
        let mut text = String::new();
        text.push(digit_of(n as u8));
        assert(text@ =~= seq![digit_char(n as nat)]);
        text
    } else {
        let mut text = decimal_text(n / 10);
        text.push(digit_of((n % 10) as u8));
        text
    }
}

/// The last `width` hexadecimal digits of `n`, zeros in front.
pub fn hex_text(n: u64, width: usize) -> (text: String)
    ensures
        text@ == hex(n as nat, width as nat),
    decreases width,
{
    if width == 0 {
        let text = String::new();
        assert(text@ =~= seq![]);
        text
    } else {
        let mut text = hex_text(n / 16, width - 1);
        let d: u8 = (n % 16) as u8;
        if d < 10 {
            text.push((48 + d) as char);
        } else {
            text.push((87 + d) as char);
        }
        text
    }
}

/// Tells an ASCII digit.
pub fn char_is_digit(c: char) -> (digit: bool)
    ensures
        digit == is_digit(c),
{
    let n: u32 = c as u32;
    48 <= n && n <= 57
}

/// Tells whether `chars` are nothing but digits.
pub fn chars_are_digits(chars: &[char]) -> (digits: bool)
    ensures
        digits == all_digits(chars@),
{
    for i in 0..chars.len()
        invariant
            forall|j: int| 0 <= j < i ==> is_digit(#[trigger] chars@[j]),
    {
        if !char_is_digit(chars[i]) {
            assert(!is_digit(chars@[i as int]));
            return false;
        }
    }
    true
}

/// The part of `chars` behind one sign in front.
pub fn skip_sign(chars: &[char]) -> (rest: &[char])
    ensures
        rest@ == without_sign(chars@),
{
    if chars.len() > 0 && (chars[0] == '+' || chars[0] == '-') {
        assert(chars@.subrange(1, chars@.len() as int) =~= chars@.skip(1));
        slice_subrange(chars, 1, chars.len())
    } else {
        chars
    }
}

/// The number that the digits `chars` write down, where it is at most `limit`.
pub fn bounded_digits(chars: &[char], limit: u64) -> (value: Option<u64>)
    requires
        all_digits(chars@),
    ensures
        value == (if digits_value(chars@) <= limit {
            Some(digits_value(chars@) as u64)
        } else {
            None
        }),
{
    let mut value: u128 = 0;
    for i in 0..chars.len()
        invariant
            all_digits(chars@),
            value == digits_value(chars@.take(i as int)),
            value <= limit,
    {
        let c: char = chars[i];
        assert(is_digit(chars@[i as int]));
        value = value * 10 + (c as u32 - 48) as u128;
        proof {
            assert(chars@.take(i + 1).drop_last() =~= chars@.take(i as int));
            lemma_digits_grow(chars@, i + 1);
        }
        if value > limit as u128 {
            return None;
        }
    }
    assert(chars@.take(chars@.len() as int) =~= chars@);
    Some(value as u64)
}

/// The 64-bit signed number that `text` writes down.
pub fn parse_i64(text: &str) -> (value: Option<i64>)
    ensures
        value == i64_value(text@),
{
    let chars = chars_of(text);
    let digits = skip_sign(chars.as_slice());
    if digits.len() == 0 || !chars_are_digits(digits) {
        return None;
    }
    if chars[0] == '-' {
        match bounded_digits(digits, 0x8000_0000_0000_0000) {
            Some(n) => Some((-(n as i128)) as i64),
            None => None,
        }
    } else {
        match bounded_digits(digits, 0x7fff_ffff_ffff_ffff) {
            Some(n) => Some(n as i64),
            None => None,
        }
    }
}

fn chars_are_mantissa(chars: &[char]) -> (found: bool)
    ensures
        found == is_mantissa(chars@),
{
    let point = first_index_of(chars, '.');
    if point >= chars.len() {
        chars.len() > 0 && chars_are_digits(chars)
    } else {
        assert(chars@.subrange(0, point as int) =~= chars@.take(point as int));
        assert(chars@.subrange(point + 1, chars@.len() as int) =~= chars@.skip(point + 1));
        chars.len() > 1 && chars_are_digits(slice_subrange(chars, 0, point)) && chars_are_digits(
            slice_subrange(chars, point + 1, chars.len()),
        )
    }
}

fn chars_are_exponent(chars: &[char]) -> (found: bool)
    ensures
        found == is_exponent(chars@),
{
    let digits = skip_sign(chars);
    digits.len() > 0 && chars_are_digits(digits)
}

fn chars_are(chars: &[char], text: &str) -> (same: bool)
    ensures
        same == (chars@ == text@),
{
    let wanted = chars_of(text);
    if chars.len() != wanted.len() {
        return false;
    }
    for i in 0..chars.len()
        invariant
            chars@.len() == wanted@.len(),
            wanted@ == text@,
            forall|j: int| 0 <= j < i ==> chars@[j] == wanted@[j],
    {
        if chars[i] != wanted[i] {
            assert(chars@[i as int] != text@[i as int]);
            return false;
        }
    }
    assert(chars@ =~= text@);
    true
}

/// Tells whether `text` writes down a floating-point number.
pub fn text_is_float(text: &str) -> (float: bool)
    ensures
        float == is_float_text(text@),
{
    let chars = chars_of(text);
    let lower = lower_chars(chars.as_slice());
    let body = skip_sign(lower.as_slice());
    if chars_are(body, "inf") || chars_are(body, "infinity") || chars_are(body, "nan") {
        return true;
    }
    let mark = first_index_of(body, 'e');
    if mark >= body.len() {
        chars_are_mantissa(body)
    } else {
        assert(body@.subrange(0, mark as int) =~= body@.take(mark as int));
        assert(body@.subrange(mark + 1, body@.len() as int) =~= body@.skip(mark + 1));
        chars_are_mantissa(slice_subrange(body, 0, mark)) && chars_are_exponent(
            slice_subrange(body, mark + 1, body.len()),
        )
    }
}

/// `n / d` rounded to the nearest whole number, a tie to the even one.
pub fn rounded_quotient(n: u128, d: u128) -> (q: u128)
    requires
        0 < d <= 0xffff_ffff_ffff_ffff,
    ensures
        q == round_half_even(n as nat, d as nat),
        q <= (n as nat) / (d as nat) + 1,
{
    let q: u128 = n / d;
    let r: u128 = n % d;
    if 2 * r > d || (2 * r == d && q % 2 == 1) {
        assert(q < u128::MAX) by (nonlinear_arith)
            requires
                q == n / d,
                r == n % d,
                2 * r >= d,
                d > 0,
                n <= u128::MAX,
        ;
        q + 1
    } else {
        q
    }
}

} // verus!
