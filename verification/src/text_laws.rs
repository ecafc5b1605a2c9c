//! What holds of texts that are trimmed, split, joined and compared.
use vstd::prelude::*;

use crate::text;

verus! {

/// The characters that are taken off the ends of a text are the 25 white ones of
/// Unicode: the five controls from tab to carriage return, the space, the next
/// line, the no-break space, the ogham space mark, the eleven spaces from the en
/// quad to the hair space, the line and the paragraph separator, the narrow
/// no-break space, the mathematical and the ideographic space.
pub proof fn white_space_is_that_of_unicode(c: char)
    ensures
        text::is_white(c) <==> seq![
            9u32,
            10u32,
            11u32,
            12u32,
            13u32,
            32u32,
            0x85u32,
            0xa0u32,
            0x1680u32,
            0x2000u32,
            0x2001u32,
            0x2002u32,
            0x2003u32,
            0x2004u32,
            0x2005u32,
            0x2006u32,
            0x2007u32,
            0x2008u32,
            0x2009u32,
            0x200au32,
            0x2028u32,
            0x2029u32,
            0x202fu32,
            0x205fu32,
            0x3000u32,
        ].contains(c as u32),
        text::is_ascii_white(c) <==> text::is_white(c) && c as u32 != 11 && (c as u32) < 128,
{
    let all = seq![
        9u32,
        10u32,
        11u32,
        12u32,
        13u32,
        32u32,
        0x85u32,
        0xa0u32,
        0x1680u32,
        0x2000u32,
        0x2001u32,
        0x2002u32,
        0x2003u32,
        0x2004u32,
        0x2005u32,
        0x2006u32,
        0x2007u32,
        0x2008u32,
        0x2009u32,
        0x200au32,
        0x2028u32,
        0x2029u32,
        0x202fu32,
        0x205fu32,
        0x3000u32,
    ];
    let n = c as u32;
    if text::is_white(c) {
        let i: int = if n <= 13 {
            n - 9
        } else if n == 32 {
            5
        } else if n == 0x85 {
            6
        } else if n == 0xa0 {
            7
        } else if n == 0x1680 {
            8
        } else if n <= 0x200a {
            9 + (n - 0x2000)
        } else if n == 0x2028 {
            20
        } else if n == 0x2029 {
            21
        } else if n == 0x202f {
            22
        } else if n == 0x205f {
            23
        } else {
            24
        };
        assert(all[i] == n);
    }
    if all.contains(n) {
        let i = choose|i: int| 0 <= i < all.len() && all[i] == n;
        assert(all[i] == n);
    }
}

/// A trimmed text is the text without white space at its ends: it stands in the
/// text, only white space stands around it, and none at its own ends.
pub proof fn trimming_takes_off_white_space_only(value: Seq<char>)
    ensures
        exists|a: int, b: int|
            {
                &&& 0 <= a <= b <= value.len()
                &&& text::trim(value) == #[trigger] value.subrange(a, b)
                &&& forall|i: int|
                    0 <= i < value.len() && !(a <= i < b) ==> text::is_white(#[trigger] value[i])
            },
        text::trim(value).len() > 0 ==> !text::is_white(text::trim(value)[0]) && !text::is_white(
            text::trim(value).last(),
        ),
        text::is_blank(value) <==> forall|i: int|
            0 <= i < value.len() ==> text::is_white(#[trigger] value[i]),
{
    let (a, b) = text::lemma_trim(value);
    assert(text::trim(value) == value.subrange(a, b));
    if text::trim(value).len() > 0 {
        assert(!text::is_white(value[a]));
    }
}

/// A text is its part without the run of a character behind it, and that run.
pub proof fn runs_behind_are_taken_off_whole(value: Seq<char>, c: char)
    ensures
        ({
            let rest = text::trim_end_char(value, c);
            &&& rest.len() <= value.len()
            &&& rest == value.take(rest.len() as int)
            &&& rest.len() > 0 ==> rest.last() != c
            &&& forall|i: int| rest.len() <= i < value.len() ==> value[i] == c
        }),
    decreases value.len(),
{
    let rest = text::trim_end_char(value, c);
    if value.len() > 0 && value.last() == c {
        let shorter = value.drop_last();
        runs_behind_are_taken_off_whole(shorter, c);
        assert(shorter.take(rest.len() as int) =~= value.take(rest.len() as int));
        assert forall|i: int| rest.len() <= i < value.len() implies value[i] == c by {
            if i < shorter.len() {
                assert(shorter[i] == value[i]);
            }
        }
    } else {
        assert(value.take(value.len() as int) =~= value);
    }
}

/// The small letter of an ASCII capital stands 32 places behind it, and every
/// other character is its own small letter: two characters agree up to case just
/// where they are the same, or the two forms of one ASCII letter.
pub proof fn only_ascii_letters_have_a_case(a: char, b: char)
    ensures
        text::ascii_lower(a) == text::ascii_lower(b) <==> {
            ||| a == b
            ||| 0x41 <= a as u32 <= 0x5a && b as u32 == a as u32 + 32
            ||| 0x41 <= b as u32 <= 0x5a && a as u32 == b as u32 + 32
        },
        text::ascii_lower(a) as u32 == (if 0x41 <= a as u32 <= 0x5a {
            a as u32 + 32
        } else {
            a as u32 as int
        }),
{
    let x = a as u32;
    let y = b as u32;
    vstd::utf8::char_u32_cast(a, x);
    vstd::utf8::char_u32_cast(b, y);
    vstd::utf8::char_u32_cast(text::ascii_lower(a), text::ascii_lower(a) as u32);
    vstd::utf8::char_u32_cast(text::ascii_lower(b), text::ascii_lower(b) as u32);
}

/// A text agrees with another up to case just where both have the same small
/// letters; it starts or ends with one where its first or last characters agree
/// with it.
pub proof fn texts_agree_where_their_small_letters_do(a: Seq<char>, b: Seq<char>, front: Seq<char>)
    ensures
        text::same_ignoring_case(a, b) <==> text::lower_text(a) == text::lower_text(b),
        text::lower_text(a).len() == a.len(),
        forall|i: int|
            0 <= i < a.len() ==> #[trigger] text::lower_text(a)[i] == text::ascii_lower(a[i]),
        text::starts_with_ignoring_case(front + a, b) <== text::same_ignoring_case(front, b),
        text::starts_with_ignoring_case(a, b) ==> a.len() >= b.len() && text::same_ignoring_case(
            a.subrange(0, b.len() as int),
            b,
        ),
        text::ends_with_ignoring_case(a + front, b) <== text::same_ignoring_case(front, b),
        text::ends_with_ignoring_case(a, b) ==> a.len() >= b.len() && text::same_ignoring_case(
            a.subrange(a.len() - b.len(), a.len() as int),
            b,
        ),
{
    let x = text::lower_text(a);
    let y = text::lower_text(b);
    if text::same_ignoring_case(a, b) {
        assert(x =~= y);
    }
    if x == y {
        assert(x.len() == a.len() && y.len() == b.len());
        assert forall|i: int| 0 <= i < a.len() implies text::ascii_lower(#[trigger] a[i])
            == text::ascii_lower(b[i]) by {
            assert(x[i] == y[i]);
        }
    }
    if text::same_ignoring_case(front, b) {
        assert((front + a).take(b.len() as int) =~= front);
        assert((a + front).skip((a + front).len() - b.len()) =~= front);
    }
    if text::starts_with_ignoring_case(a, b) {
        assert(a.take(b.len() as int) =~= a.subrange(0, b.len() as int));
    }
    if text::ends_with_ignoring_case(a, b) {
        assert(a.skip(a.len() - b.len()) =~= a.subrange(a.len() - b.len(), a.len() as int));
    }
}

/// The pieces of a text are what stands between the separators: with one between
/// each two of them they are the text again, and none holds one.
pub proof fn pieces_make_up_the_text(value: Seq<char>, c: char)
    ensures
        text::join(text::split_on(value, c), seq![c]) == value,
        text::split_on(value, c).len() > 0,
        forall|i: int|
            0 <= i < text::split_on(value, c).len() ==> !(#[trigger] text::split_on(
                value,
                c,
            )[i]).contains(c),
    decreases value.len(),
{
    let i = text::first_index(value, c) as int;
    text::lemma_first_index_is_first(value, c);
    let pieces = text::split_on(value, c);
    if i >= value.len() {
        assert(pieces =~= seq![value]);
        if value.contains(c) {
            let j = choose|j: int| 0 <= j < value.len() && value[j] == c;
            assert(value[j] != c);
        }
    } else {
        let first = value.take(i);
        let rest = value.skip(i + 1);
        pieces_make_up_the_text(rest, c);
        let others = text::split_on(rest, c);
        assert(pieces == seq![first] + others);
        joined_lists_are_joined(seq![first], others, seq![c]);
        assert(text::join(seq![first], seq![c]) == first);
        assert(first + seq![c] + rest =~= value);
        assert forall|j: int| 0 <= j < pieces.len() implies !(#[trigger] pieces[j]).contains(c) by {
            if j == 0 {
                if first.contains(c) {
                    let k = choose|k: int| 0 <= k < first.len() && first[k] == c;
                    assert(value[k] == c);
                }
            } else {
                assert(pieces[j] == others[j - 1]);
            }
        }
    }
}

/// Joining keeps every text, in order: one text is itself, and two lists that are
/// joined one behind the other have one separator between them.
pub proof fn joined_lists_are_joined(a: Seq<Seq<char>>, b: Seq<Seq<char>>, separator: Seq<char>)
    ensures
        a.len() == 1 ==> text::join(a, separator) == a[0],
        a.len() == 0 ==> text::join(a, separator).len() == 0,
        a.len() > 0 && b.len() > 0 ==> text::join(a + b, separator) == text::join(a, separator)
            + separator + text::join(b, separator),
    decreases b.len(),
{
    if a.len() > 0 && b.len() > 0 {
        let both = a + b;
        assert(both.drop_last() =~= a + b.drop_last());
        assert(both.last() == b.last());
        if b.len() == 1 {
            assert(a + b.drop_last() =~= a);
        } else {
            joined_lists_are_joined(a, b.drop_last(), separator);
            let x = text::join(a, separator);
            let y = text::join(b.drop_last(), separator);
            assert(x + separator + y + separator + b.last() =~= x + separator + (y + separator
                + b.last()));
        }
    }
}

/// A line feed ends a line, with the carriage return in front of it, where there
/// is one; what stands behind the last line feed is a line where it is not empty.
pub proof fn lines_end_at_line_feeds(line: Seq<char>, rest: Seq<char>)
    requires
        !line.contains('\n'),
    ensures
        text::lines(line) == (if line.len() == 0 {
            seq![]
        } else {
            seq![line]
        }),
        line.len() == 0 || line.last() != '\r' ==> text::lines(line + seq!['\n'] + rest) == seq![
            line,
        ] + text::lines(rest),
        text::lines(line + seq!['\r', '\n'] + rest) == seq![line] + text::lines(rest),
{
    assert forall|j: int| 0 <= j < line.len() implies line[j] != '\n' by {
        assert(line.contains(line[j]));
    }
    let n = line.len() as int;
    text::lemma_first_index(line, '\n', n);
    let plain = line + seq!['\n'] + rest;
    text::lemma_first_index(plain, '\n', n);
    assert(plain.take(n) =~= line);
    assert(plain.skip(n + 1) =~= rest);
    let long = line + seq!['\r', '\n'] + rest;
    text::lemma_first_index(long, '\n', n + 1);
    assert(long.take(n + 1) =~= line.push('\r'));
    assert(line.push('\r').drop_last() =~= line);
    assert(long.skip(n + 2) =~= rest);
}

/// A text on one line has the characters of the text, with a space for each
/// carriage return and each line feed; a text that is cut off has the first
/// characters, and all where it is short enough.
pub proof fn shown_texts_keep_their_characters(value: Seq<char>, n: nat)
    ensures
        text::single_line(value).len() == value.len(),
        forall|i: int|
            0 <= i < value.len() && value[i] != '\r' && value[i] != '\n'
                ==> #[trigger] text::single_line(value)[i] == value[i],
        forall|i: int|
            0 <= i < value.len() && (value[i] == '\r' || value[i] == '\n')
                ==> #[trigger] text::single_line(value)[i] == ' ',
        value.len() <= n ==> text::at_most(value, n as int) == value,
        value.len() > n ==> text::at_most(value, n as int).len() == n,
        forall|i: int|
            0 <= i < n && i < value.len() ==> #[trigger] text::at_most(value, n as int)[i]
                == value[i],
        text::has_line_break(value) <==> exists|i: int|
            0 <= i < value.len() && (#[trigger] value[i] == '\r' || value[i] == '\n'),
{
    if text::has_line_break(value) {
        let i = if value.contains('\r') {
            choose|i: int| 0 <= i < value.len() && value[i] == '\r'
        } else {
            choose|i: int| 0 <= i < value.len() && value[i] == '\n'
        };
        assert(value[i] == '\r' || value[i] == '\n');
    }
}

/// The views of a list of strings, and of an optional string, hold the same texts
/// in the same places.
pub proof fn views_hold_every_text(list: Seq<String>, value: Option<String>)
    ensures
        text::texts(list).len() == list.len(),
        forall|i: int| 0 <= i < list.len() ==> #[trigger] text::texts(list)[i] == list[i]@,
        text::text_option(value) is Some <==> value is Some,
        value is Some ==> text::text_option(value)->0 == value->0@,
{
}

/// The texts of a list, one behind the other.
pub open spec fn run(list: Seq<Seq<char>>) -> Seq<char> {
    list.fold_left(Seq::empty(), |all: Seq<char>, next: Seq<char>| all + next)
}

/// A list of two texts is the first, then the second.
pub proof fn lemma_run_two(a: Seq<char>, b: Seq<char>)
    ensures
        run(seq![a, b]) == a + b,
{
    reveal_with_fuel(Seq::fold_left, 3);
    assert(seq![a, b].drop_last() =~= seq![a]);
    assert(seq![a].drop_last() =~= seq![]);
    assert(Seq::<char>::empty() + a =~= a);
}

/// A list of three texts is the first two, then the third.
pub proof fn lemma_run_three(a: Seq<char>, b: Seq<char>, c: Seq<char>)
    ensures
        run(seq![a, b, c]) == a + b + c,
{
    lemma_run_two(a, b);
    reveal_with_fuel(Seq::fold_left, 2);
    assert(seq![a, b, c].drop_last() =~= seq![a, b]);
}

} // verus!
