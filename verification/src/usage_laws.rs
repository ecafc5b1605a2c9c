//! What holds of the dates of a usage report.
use vstd::prelude::*;

use crate::number;
use crate::number_laws;
use crate::usage;
use crate::usage::Moment;

verus! {

/// Ten, so many times multiplied.
pub open spec fn tens(k: nat) -> nat
    decreases k,
{
    if k == 0 {
        1
    } else {
        10 * tens((k - 1) as nat)
    }
}

proof fn lemma_decimal_length(n: nat, k: nat)
    requires
        k > 0,
    ensures
        number::decimal(n).len() <= k <==> n < tens(k),
    decreases k,
{
    reveal_with_fuel(tens, 2);
    if n >= 10 {
        if k > 1 {
            lemma_decimal_length(n / 10, (k - 1) as nat);
        } else {
            number_laws::decimals_read_back(n / 10);
        }
    } else {
        lemma_tens(k);
    }
}

proof fn lemma_tens(k: nat)
    requires
        k > 0,
    ensures
        tens(k) >= 10,
    decreases k,
{
    reveal_with_fuel(tens, 2);
    if k > 1 {
        lemma_tens((k - 1) as nat);
    }
}

/// A number of up to ten digits counts seconds, a longer one milliseconds; with a
/// minus in front, one of up to nine digits counts seconds.
pub proof fn long_numbers_count_milliseconds(n: nat)
    requires
        n <= i64::MAX,
    ensures
        usage::moment_of(number::decimal(n)) == Some(
            if n < 10_000_000_000 {
                Moment::Seconds(n as i64)
            } else {
                Moment::Millis(n as i64)
            },
        ),
        usage::moment_of(seq!['-'] + number::decimal(n)) == Some(
            if n < 1_000_000_000 {
                Moment::Seconds((-(n as int)) as i64)
            } else {
                Moment::Millis((-(n as int)) as i64)
            },
        ),
{
    number_laws::whole_numbers_are_read_with_their_sign(n, number::decimal(n));
    lemma_decimal_length(n, 10);
    lemma_decimal_length(n, 9);
    assert(tens(10) == 10_000_000_000 && tens(9) == 1_000_000_000) by {
        reveal_with_fuel(tens, 11);
    }
}

/// Only whole numbers are moments: short ones seconds, and those that are longer than
/// ten characters, or beyond ten thousand million, milliseconds.
pub proof fn moments_are_whole_numbers(value: Seq<char>)
    ensures
        usage::moment_of(value) is Some <==> number::i64_value(value) is Some,
        usage::moment_of(value) matches Some(moment) ==> match moment {
            Moment::Seconds(n) => number::i64_value(value) == Some(n) && value.len() <= 10,
            Moment::Millis(n) => number::i64_value(value) == Some(n) && (value.len() > 10 || n
                > 10_000_000_000 || n < -10_000_000_000),
        },
{
}

/// A moment in milliseconds falls in the second that has begun by then and is not
/// over; one in seconds falls in that second.
pub proof fn moments_fall_in_their_second(n: i64)
    ensures
        Moment::Seconds(n).second() == n,
        1000 * Moment::Millis(n).second() <= n < 1000 * (Moment::Millis(n).second() + 1),
{
}

/// A number that the calendar reaches is shown as its second; a moment by RFC 3339
/// that is no such number is shown as that moment; and everything else as it is.
pub proof fn dates_are_shown_as_what_they_mean(value: Seq<char>, shown: Seq<char>, second: int)
    requires
        usage::date_is_shown(value, shown),
    ensures
        (usage::moment_of(value) matches Some(moment) && moment.second() == second)
            && -8334601228800 <= second <= 8210266876799 ==> usage::shows_second(shown, second),
        usage::moment_of(value) is None && usage::is_rfc3339(value) ==> usage::shows_rfc3339(
            shown,
            value,
        ),
        usage::moment_of(value) is None && !usage::is_rfc3339(value) ==> shown == value,
        (usage::moment_of(value) matches Some(moment) && moment.second() == second) && !(
        -8334601228800 <= second <= 8210266876799) ==> if usage::is_rfc3339(value) {
            usage::shows_rfc3339(shown, value)
        } else {
            shown == value
        },
{
}

/// What is shown of a second, or of a moment by RFC 3339, is that second, or that
/// moment, as clocks show it in a time zone less than a day from the first.
pub proof fn moments_are_shown_in_a_time_zone(shown: Seq<char>, second: int, value: Seq<char>)
    ensures
        usage::shows_second(shown, second) ==> exists|offset: int|
            -86400 < offset < 86400 && shown == #[trigger] usage::clock_text(second, offset),
        usage::shows_rfc3339(shown, value) ==> exists|offset: int|
            -86400 < offset < 86400 && #[trigger] usage::rfc3339_text(value, offset) == Some(shown),
        usage::is_rfc3339(value) ==> exists|offset: int|
            -86400 < offset < 86400 && #[trigger] usage::rfc3339_text(value, offset) is Some,
        usage::shows_rfc3339(shown, value) ==> usage::is_rfc3339(value),
{
}

/// Of the readings of a date the number counts first, then RFC 3339, then the text
/// itself.
pub proof fn numbers_count_before_dates(
    value: Seq<char>,
    number: Seq<char>,
    date: Seq<char>,
    any: Option<Seq<char>>,
)
    ensures
        usage::date_of(value, Some(number), any) == number,
        usage::date_of(value, None, Some(date)) == date,
        usage::date_of(value, None, None) == value,
{
}

} // verus!
