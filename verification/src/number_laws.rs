//! What holds of numbers in text, and of rounding.
use vstd::arithmetic::power;
use vstd::prelude::*;

use crate::number;
use crate::text;

verus! {

/// A digit stands for what its place behind the zero says.
pub proof fn digits_stand_in_order(c: char, d: nat)
    ensures
        number::is_digit(c) <==> '0' as u32 <= c as u32 <= '9' as u32,
        number::is_digit(c) ==> number::digits_value(seq![c]) == c as u32 - '0' as u32,
        d < 10 ==> number::digit_char(d) as u32 == '0' as u32 + d && number::digit_value(
            number::digit_char(d),
        ) == d,
{
    assert(seq![c].drop_last() =~= seq![]);
    assert(seq![c].last() == c);
    reveal_with_fuel(number::digits_value, 2);
}

/// Digits count by their place: those in front count ten times for each digit
/// behind them.
pub proof fn places_count_tenfold(a: Seq<char>, b: Seq<char>)
    ensures
        number::digits_value(a + b) == number::digits_value(a) * power::pow(10, b.len())
            + number::digits_value(b),
    decreases b.len(),
{
    if b.len() == 0 {
        assert(a + b =~= a);
        power::lemma_pow0(10);
    } else {
        let c = b.drop_last();
        places_count_tenfold(a, c);
        assert((a + b).drop_last() =~= a + c);
        assert((a + b).last() == b.last());
        let x = number::digits_value(a) as int;
        let p = power::pow(10, c.len());
        power::lemma_pow1(10);
        power::lemma_pow_adds(10, c.len(), 1);
        assert(power::pow(10, b.len()) == p * 10);
        assert((x * p) * 10 == x * (p * 10)) by (nonlinear_arith);
    }
}

/// A number that was written down in decimal digits is read as that number: it
/// has digits only, none of them a zero in front, unless it is zero itself.
pub proof fn decimals_read_back(n: nat)
    ensures
        number::all_digits(number::decimal(n)),
        number::digits_value(number::decimal(n)) == n,
        number::decimal(n).len() > 0,
        n > 0 ==> number::decimal(n)[0] != '0',
        n == 0 ==> number::decimal(n) == seq!['0'],
    decreases n,
{
    let all = number::decimal(n);
    digits_stand_in_order('0', n % 10);
    if n < 10 {
        digits_stand_in_order(all[0], n);
        assert(all =~= seq![all[0]]);
        vstd::utf8::char_u32_cast(all[0], all[0] as u32);
    } else {
        decimals_read_back(n / 10);
        let front = number::decimal(n / 10);
        assert(all.drop_last() =~= front);
        assert(all.last() == number::digit_char(n % 10));
        assert(all[0] == front[0]);
        assert forall|i: int| 0 <= i < all.len() implies number::is_digit(#[trigger] all[i]) by {
            if i < front.len() {
                assert(all[i] == front[i]);
            }
        }
    }
}

/// A whole number is read with a plus, a minus or no sign in front of its digits;
/// a text with anything else in it, or without a digit, is none.
pub proof fn whole_numbers_are_read_with_their_sign(n: nat, value: Seq<char>)
    ensures
        number::integer_value(number::decimal(n)) == Some(n as int),
        number::integer_value(seq!['+'] + number::decimal(n)) == Some(n as int),
        number::integer_value(seq!['-'] + number::decimal(n)) == Some(-(n as int)),
        number::integer_value(value) is Some <==> {
            let from: int = if value.len() > 0 && (value[0] == '+' || value[0] == '-') {
                1
            } else {
                0
            };
            &&& value.len() > from
            &&& forall|i: int|
                from <= i < value.len() ==> '0' as u32 <= (#[trigger] value[i]) as u32 <= '9' as u32
        },
        number::i64_value(value) is Some <==> number::integer_value(value) is Some && i64::MIN
            <= number::integer_value(value)->0 <= i64::MAX,
        number::i64_value(value) is Some ==> number::i64_value(value)->0 == number::integer_value(
            value,
        )->0,
{
    let digits = number::decimal(n);
    decimals_read_back(n);
    assert(number::is_digit(digits[0]));
    assert((seq!['+'] + digits).skip(1) =~= digits);
    assert((seq!['-'] + digits).skip(1) =~= digits);
    let from: int = if value.len() > 0 && (value[0] == '+' || value[0] == '-') {
        1
    } else {
        0
    };
    let rest = number::without_sign(value);
    assert(rest =~= value.skip(from));
    if number::all_digits(rest) {
        assert forall|i: int| from <= i < value.len() implies '0' as u32 <= (#[trigger] value[i])
            as u32 <= '9' as u32 by {
            assert(number::is_digit(rest[i - from]));
        }
    }
    if forall|i: int|
        from <= i < value.len() ==> '0' as u32 <= (#[trigger] value[i]) as u32 <= '9' as u32 {
        assert forall|i: int| 0 <= i < rest.len() implies number::is_digit(#[trigger] rest[i]) by {
            assert(rest[i] == value[i + from]);
        }
    }
}

/// Whether a text is one zero or more, with at most one sign in front.
pub open spec fn is_zero_text(value: Seq<char>) -> bool {
    &&& value.len() > 0
    &&& value.last() == '0'
    &&& forall|i: int|
        0 <= i < value.len() ==> #[trigger] value[i] == '0' || i == 0 && (value[0] == '+'
            || value[0] == '-')
}

proof fn lemma_zero_digits(digits: Seq<char>)
    requires
        number::all_digits(digits),
    ensures
        number::digits_value(digits) == 0 <==> forall|i: int|
            0 <= i < digits.len() ==> #[trigger] digits[i] == '0',
    decreases digits.len(),
{
    if digits.len() > 0 {
        let front = digits.drop_last();
        assert forall|i: int| 0 <= i < front.len() implies number::is_digit(#[trigger] front[i]) by {
            assert(front[i] == digits[i]);
        }
        lemma_zero_digits(front);
        let last = digits[digits.len() - 1];
        assert(number::is_digit(last));
        vstd::utf8::char_u32_cast(last, last as u32);
        if number::digits_value(digits) == 0 {
            assert forall|i: int| 0 <= i < digits.len() implies #[trigger] digits[i] == '0' by {
                if i < front.len() {
                    assert(front[i] == digits[i]);
                }
            }
        }
        if forall|i: int| 0 <= i < digits.len() ==> #[trigger] digits[i] == '0' {
            assert forall|i: int| 0 <= i < front.len() implies #[trigger] front[i] == '0' by {
                assert(front[i] == digits[i]);
            }
            assert(last == '0');
        }
    }
}

/// Zero is what zeros write down, and nothing else is.
pub proof fn zero_is_written_with_zeros(value: Seq<char>)
    ensures
        number::i64_value(value) == Some(0i64) <==> is_zero_text(value),
{
    let from: int = if value.len() > 0 && (value[0] == '+' || value[0] == '-') {
        1
    } else {
        0
    };
    let rest = number::without_sign(value);
    assert(rest =~= value.skip(from));
    if is_zero_text(value) {
        assert(rest.len() > 0);
        assert forall|i: int| 0 <= i < rest.len() implies rest[i] == '0' by {
            assert(rest[i] == value[i + from]);
        }
        assert(number::all_digits(rest));
        lemma_zero_digits(rest);
    }
    if number::i64_value(value) == Some(0i64) {
        lemma_zero_digits(rest);
        assert forall|i: int| 0 <= i < value.len() implies #[trigger] value[i] == '0' || i == 0 && (
        value[0] == '+' || value[0] == '-') by {
            if i >= from {
                assert(rest[i - from] == '0');
            }
        }
        assert(rest[rest.len() - 1] == '0');
    }
}

/// A rounded quotient is a nearest whole number, and where two are as near, the
/// even one.
pub proof fn quotients_are_rounded_to_the_nearest(n: nat, d: nat)
    requires
        d > 0,
    ensures
        ({
            let q = number::round_half_even(n, d);
            &&& 2 * (q * d) <= 2 * n + d
            &&& 2 * n <= 2 * (q * d) + d
            &&& 2 * (q * d) == 2 * n + d || 2 * n == 2 * (q * d) + d ==> q % 2 == 0
        }),
{
    let q = n / d;
    let r = n % d;
    assert(n == q * d + r && r < d) by (nonlinear_arith)
        requires
            d > 0,
            q == n / d,
            r == n % d,
    ;
    assert((q + 1) * d == q * d + d) by (nonlinear_arith);
}

/// A double-precision number holds 53 bits: numbers below that are held as they
/// are, and of others a nearest one that has zeros behind.
pub proof fn doubles_hold_the_first_bits(n: nat)
    ensures
        n < 0x20_0000_0000_0000 ==> number::nearest_double(n) == n,
        ({
            let step = number::double_step(n);
            &&& step > 0
            &&& n < 0x20_0000_0000_0000 * step
            &&& step == 1 || n >= 0x10_0000_0000_0000 * step
            &&& 2 * number::nearest_double(n) <= 2 * n + step
            &&& 2 * n <= 2 * number::nearest_double(n) + step
            &&& number::nearest_double(n) % step == 0
        }),
{
    lemma_step(n);
    let step = number::double_step(n);
    quotients_are_rounded_to_the_nearest(n, step);
    let q = number::round_half_even(n, step);
    assert((q * step) % step == 0) by (nonlinear_arith)
        requires
            step > 0,
    ;
}

proof fn lemma_step(n: nat)
    ensures
        number::double_step(n) > 0,
        n < 0x20_0000_0000_0000 * number::double_step(n),
        number::double_step(n) == 1 || n >= 0x10_0000_0000_0000 * number::double_step(n),
    decreases n,
{
    if n >= 0x20_0000_0000_0000 {
        lemma_step(n / 2);
    }
}

/// So many hexadecimal digits are written as are asked for, and numbers that so
/// many can hold are told apart by them.
pub proof fn hexadecimals_tell_numbers_apart(a: nat, b: nat, width: nat)
    ensures
        number::hex(a, width).len() == width,
        a < power::pow(16, width) && b < power::pow(16, width) && number::hex(a, width) == number::hex(b, width)
            ==> a == b,
        forall|i: int|
            0 <= i < width ==> {
                let c = #[trigger] number::hex(a, width)[i];
                '0' as u32 <= c as u32 <= '9' as u32 || 'a' as u32 <= c as u32 <= 'f' as u32
            },
    decreases width,
{
    if width == 0 {
        power::lemma_pow0(16);
    } else {
        let less = (width - 1) as nat;
        hexadecimals_tell_numbers_apart(a / 16, b / 16, less);
        let x = number::hex(a, width);
        let y = number::hex(b, width);
        assert(x.drop_last() =~= number::hex(a / 16, less));
        assert(y.drop_last() =~= number::hex(b / 16, less));
        assert(x.last() == number::hex_char(a % 16));
        assert(y.last() == number::hex_char(b % 16));
        power::lemma_pow1(16);
        power::lemma_pow_adds(16, less, 1);
        assert(power::pow(16, width) == power::pow(16, less) * 16);
        if a < power::pow(16, width) && b < power::pow(16, width) && x == y {
            assert(number::hex_char(a % 16) as u32 == number::hex_char(b % 16) as u32);
        }
        assert forall|i: int| 0 <= i < width implies ({
            let c = #[trigger] x[i];
            '0' as u32 <= c as u32 <= '9' as u32 || 'a' as u32 <= c as u32 <= 'f' as u32
        }) by {
            if i < less {
                assert(x[i] == number::hex(a / 16, less)[i]);
            }
        }
    }
}

/// Whether `value` is the digits `a` and `b`, at least one in all, with a point
/// between them, which may be left out where no digit stands behind it.
pub open spec fn is_point_number(value: Seq<char>, a: Seq<char>, b: Seq<char>) -> bool {
    &&& forall|i: int| 0 <= i < a.len() ==> '0' as u32 <= (#[trigger] a[i]) as u32 <= '9' as u32
    &&& forall|i: int| 0 <= i < b.len() ==> '0' as u32 <= (#[trigger] b[i]) as u32 <= '9' as u32
    &&& a.len() + b.len() > 0
    &&& value == a + seq!['.'] + b || b.len() == 0 && value == a
}

/// Whether `value` is digits with at most one sign in front.
pub open spec fn is_signed_digits(value: Seq<char>) -> bool {
    let from: int = if value.len() > 0 && (value[0] == '+' || value[0] == '-') {
        1
    } else {
        0
    };
    &&& value.len() > from
    &&& forall|i: int|
        from <= i < value.len() ==> '0' as u32 <= (#[trigger] value[i]) as u32 <= '9' as u32
}

/// A mantissa is digits with at most one point among them; an exponent is digits
/// with at most one sign in front.
pub proof fn mantissas_are_digits_around_a_point(value: Seq<char>)
    ensures
        number::is_mantissa(value) <==> exists|a: Seq<char>, b: Seq<char>| #[trigger]
            is_point_number(value, a, b),
        number::is_exponent(value) <==> is_signed_digits(value),
        number::is_mantissa(value) ==> !value.contains('e'),
{
    let point = text::first_index(value, '.') as int;
    text::lemma_first_index_is_first(value, '.');
    if number::is_mantissa(value) {
        let (a, b) = if point >= value.len() {
            (value, Seq::empty())
        } else {
            (value.take(point), value.skip(point + 1))
        };
        if point < value.len() {
            assert(value =~= a + seq!['.'] + b);
        }
        assert forall|i: int| 0 <= i < a.len() implies '0' as u32 <= (#[trigger] a[i]) as u32
            <= '9' as u32 by {
            assert(number::is_digit(a[i]));
        }
        assert forall|i: int| 0 <= i < b.len() implies '0' as u32 <= (#[trigger] b[i]) as u32
            <= '9' as u32 by {
            assert(number::is_digit(b[i]));
        }
        assert(is_point_number(value, a, b));
        if value.contains('e') {
            let i = choose|i: int| 0 <= i < value.len() && value[i] == 'e';
            if i < a.len() {
                assert(a[i] == 'e');
            } else {
                assert(b[i - a.len() - 1] == 'e');
            }
        }
    }
    if exists|a: Seq<char>, b: Seq<char>| #[trigger] is_point_number(value, a, b) {
        let (a, b) = choose|a: Seq<char>, b: Seq<char>| #[trigger] is_point_number(value, a, b);
        assert forall|i: int| 0 <= i < a.len() implies a[i] != '.' by {
            assert('0' as u32 <= a[i] as u32);
        }
        assert(number::all_digits(a) && number::all_digits(b));
        if value == a + seq!['.'] + b {
            assert(value[a.len() as int] == '.');
            text::lemma_first_index(value, '.', a.len() as int);
            assert(value.take(a.len() as int) =~= a);
            assert(value.skip(a.len() as int + 1) =~= b);
        } else {
            text::lemma_first_index(value, '.', value.len() as int);
        }
    }
    let from: int = if value.len() > 0 && (value[0] == '+' || value[0] == '-') {
        1
    } else {
        0
    };
    let rest = number::without_sign(value);
    assert(rest =~= value.skip(from));
    if number::is_exponent(value) {
        assert forall|i: int| from <= i < value.len() implies '0' as u32 <= (#[trigger] value[i])
            as u32 <= '9' as u32 by {
            assert(number::is_digit(rest[i - from]));
        }
    }
    if is_signed_digits(value) {
        assert forall|i: int| 0 <= i < rest.len() implies number::is_digit(#[trigger] rest[i]) by {
            assert(rest[i] == value[i + from]);
        }
    }
}

/// Whether `value` is a mantissa, or one with an exponent behind an `e`.
pub open spec fn is_plain_float(value: Seq<char>) -> bool {
    ||| exists|a: Seq<char>, b: Seq<char>| #[trigger] is_point_number(value, a, b)
    ||| exists|m: Seq<char>, a: Seq<char>, b: Seq<char>, e: Seq<char>|
        value == m + seq!['e'] + e && #[trigger] is_point_number(m, a, b)
            && #[trigger] is_signed_digits(e)
}

/// A text writes down a floating-point number just where, its letters being made
/// small and one sign in front taken off, it is `inf`, `infinity`, `nan`, or a
/// mantissa with or without an exponent.
pub proof fn floats_are_words_or_digits(value: Seq<char>, body: Seq<char>)
    requires
        ({
            let small = text::lower_text(value);
            if small.len() > 0 && (small[0] == '+' || small[0] == '-') {
                small == seq![small[0]] + body
            } else {
                small == body
            }
        }),
    ensures
        number::is_float_text(value) <==> body == "inf"@ || body == "infinity"@ || body == "nan"@
            || is_plain_float(body),
{
    let small = text::lower_text(value);
    if small.len() > 0 && (small[0] == '+' || small[0] == '-') {
        assert(small.skip(1) =~= body);
    }
    assert(number::without_sign(small) == body);
    let mark = text::first_index(body, 'e') as int;
    text::lemma_first_index_is_first(body, 'e');
    mantissas_are_digits_around_a_point(body);
    if mark < body.len() {
        let m = body.take(mark);
        let e = body.skip(mark + 1);
        mantissas_are_digits_around_a_point(m);
        mantissas_are_digits_around_a_point(e);
        assert(body =~= m + seq!['e'] + e);
        assert(body.contains('e'));
        if number::is_mantissa(m) && number::is_exponent(e) {
            let (a, b) = choose|a: Seq<char>, b: Seq<char>| #[trigger] is_point_number(m, a, b);
            assert(is_point_number(m, a, b) && is_signed_digits(e));
        }
    }
    if exists|m: Seq<char>, a: Seq<char>, b: Seq<char>, e: Seq<char>|
        body == m + seq!['e'] + e && #[trigger] is_point_number(m, a, b)
            && #[trigger] is_signed_digits(e) {
        let (m, a, b, e) = choose|m: Seq<char>, a: Seq<char>, b: Seq<char>, e: Seq<char>|
            body == m + seq!['e'] + e && #[trigger] is_point_number(m, a, b)
                && #[trigger] is_signed_digits(e);
        mantissas_are_digits_around_a_point(m);
        mantissas_are_digits_around_a_point(e);
        assert forall|j: int| 0 <= j < m.len() implies body[j] != 'e' by {
            assert(body[j] == m[j]);
            assert(m.contains(m[j]));
        }
        assert(body[m.len() as int] == 'e');
        text::lemma_first_index(body, 'e', m.len() as int);
        assert(body.take(m.len() as int) =~= m);
        assert(body.skip(m.len() as int + 1) =~= e);
    }
}

} // verus!
