//! What holds of the texts of hotkeys.
use vstd::prelude::*;

use crate::app::startup;
use crate::config;
use crate::number;
use crate::number_laws;
use crate::text;
use crate::text_laws;

verus! {

/// Whether two lists of keys are the same combination: the last keys agree, and
/// each key in front of the one stands somewhere in front of the other, up to the
/// case of letters.
pub open spec fn same_keys(a: Seq<Seq<char>>, b: Seq<Seq<char>>) -> bool {
    &&& a.len() == 0 <==> b.len() == 0
    &&& a.len() > 0 ==> text::same_ignoring_case(a.last(), b.last())
    &&& a.len() > 0 ==> leads_into(a, b) && leads_into(b, a)
}

/// Whether each key in front of `a` stands in front of `b`, up to the case of
/// letters.
pub open spec fn leads_into(a: Seq<Seq<char>>, b: Seq<Seq<char>>) -> bool {
    forall|i: int| 0 <= i < a.len() - 1 ==> config::listed(b.drop_last(), #[trigger] a[i])
}

/// `a` and `b` with a plus sign between them.
pub open spec fn plus(a: Seq<char>, b: Seq<char>) -> Seq<char> {
    a + seq!['+'] + b
}

proof fn lemma_same_flips(a: Seq<char>, b: Seq<char>)
    requires
        text::same_ignoring_case(a, b),
    ensures
        text::same_ignoring_case(b, a),
{
    assert forall|i: int| 0 <= i < b.len() implies text::ascii_lower(#[trigger] b[i])
        == text::ascii_lower(a[i]) by {
        assert(text::ascii_lower(a[i]) == text::ascii_lower(b[i]));
    }
}

proof fn lemma_same_chains(a: Seq<char>, b: Seq<char>, c: Seq<char>)
    requires
        text::same_ignoring_case(a, b),
        text::same_ignoring_case(b, c),
    ensures
        text::same_ignoring_case(a, c),
{
    assert forall|i: int| 0 <= i < a.len() implies text::ascii_lower(#[trigger] a[i])
        == text::ascii_lower(c[i]) by {
        assert(text::ascii_lower(b[i]) == text::ascii_lower(c[i]));
    }
}

proof fn lemma_modifier_whatever_the_case(a: Seq<char>, b: Seq<char>)
    requires
        text::same_ignoring_case(a, b),
        config::is_modifier(a),
    ensures
        config::is_modifier(b),
{
    lemma_same_flips(a, b);
    if text::same_ignoring_case(a, "ctrl"@) {
        lemma_same_chains(b, a, "ctrl"@);
    } else if text::same_ignoring_case(a, "alt"@) {
        lemma_same_chains(b, a, "alt"@);
    } else if text::same_ignoring_case(a, "shift"@) {
        lemma_same_chains(b, a, "shift"@);
    } else if text::same_ignoring_case(a, "win"@) {
        lemma_same_chains(b, a, "win"@);
    } else {
        lemma_same_chains(b, a, "super"@);
    }
}

proof fn lemma_key_whatever_the_case(a: Seq<char>, b: Seq<char>)
    requires
        text::same_ignoring_case(a, b),
        config::is_key(a),
    ensures
        config::is_key(b),
{
    assert(text::ascii_lower(a[0]) == text::ascii_lower(b[0]));
    if a.len() == 1 {
        assert(config::is_ascii_alphanumeric(b[0]));
    } else {
        let first = b[0];
        assert(text::ascii_lower(a[0]) == 'f');
        assert(text::ascii_lower(first) as u32 == 0x66);
        assert(first as u32 == 0x46 || first as u32 == 0x66);
        vstd::utf8::char_u32_cast(first, first as u32);
        assert(first == 'F' || first == 'f');
        let digits = a.skip(1);
        assert forall|i: int| 0 <= i < digits.len() implies digits[i] == b.skip(1)[i] by {
            assert(number::is_digit(digits[i]));
            assert(text::ascii_lower(a[i + 1]) == text::ascii_lower(b[i + 1]));
        }
        assert(digits =~= b.skip(1));
    }
}

proof fn lemma_same_keys_serve(a: Seq<Seq<char>>, b: Seq<Seq<char>>)
    requires
        same_keys(a, b),
        a.len() >= 2,
        config::led_by_modifiers(a),
        config::is_key(a.last()),
    ensures
        b.len() >= 2,
        config::led_by_modifiers(b),
        config::is_key(b.last()),
{
    assert(config::listed(b.drop_last(), a[0]));
    lemma_key_whatever_the_case(a.last(), b.last());
    assert forall|i: int| 0 <= i < b.len() - 1 implies config::is_modifier(#[trigger] b[i]) by {
        assert(config::listed(a.drop_last(), b[i]));
        let front = a.drop_last();
        let j = choose|j: int|
            0 <= j < front.len() && text::same_ignoring_case(#[trigger] front[j], b[i]);
        assert(front[j] == a[j]);
        assert(config::is_modifier(a[j]));
        lemma_modifier_whatever_the_case(a[j], b[i]);
    }
}

/// A hotkey is its keys: texts that name the same combination have the same
/// verdict, whatever the case of its letters, and in whatever order and however
/// often its modifiers stand.
pub proof fn hotkeys_are_their_keys(v: Seq<char>, w: Seq<char>)
    requires
        same_keys(config::hotkey_parts(v), config::hotkey_parts(w)),
    ensures
        config::hotkey_verdict(v) == config::hotkey_verdict(w),
{
    let a = config::hotkey_parts(v);
    let b = config::hotkey_parts(w);
    assert(same_keys(b, a)) by {
        if a.len() > 0 {
            lemma_same_flips(a.last(), b.last());
        }
    }
    if a.len() >= 2 {
        assert(config::listed(b.drop_last(), a[0]));
    }
    if b.len() >= 2 {
        assert(config::listed(a.drop_last(), b[0]));
    }
    if a.len() >= 2 && config::led_by_modifiers(a) && config::is_key(a.last()) {
        lemma_same_keys_serve(a, b);
    }
    if b.len() >= 2 && config::led_by_modifiers(b) && config::is_key(b.last()) {
        lemma_same_keys_serve(b, a);
    }
}

proof fn lemma_split_at_plus(a: Seq<char>, b: Seq<char>)
    ensures
        text::split_on(plus(a, b), '+') == text::split_on(a, '+') + text::split_on(b, '+'),
    decreases a.len(),
{
    let whole = plus(a, b);
    let i = text::first_index(a, '+') as int;
    text::lemma_first_index_is_first(a, '+');
    assert forall|j: int| 0 <= j < i implies whole[j] != '+' by {
        assert(whole[j] == a[j]);
    }
    text::lemma_first_index(whole, '+', i);
    if i >= a.len() {
        assert(whole.take(i) =~= a);
        assert(whole.skip(i + 1) =~= b);
    } else {
        let rest = a.skip(i + 1);
        lemma_split_at_plus(rest, b);
        assert(whole.take(i) =~= a.take(i));
        assert(whole.skip(i + 1) =~= plus(rest, b));
        assert(seq![a.take(i)] + text::split_on(rest, '+') + text::split_on(b, '+') =~= seq![
            a.take(i),
        ] + (text::split_on(rest, '+') + text::split_on(b, '+')));
    }
}

proof fn lemma_parts_of_both(a: Seq<Seq<char>>, b: Seq<Seq<char>>)
    ensures
        config::kept_parts(a + b) == config::kept_parts(a) + config::kept_parts(b),
    decreases b.len(),
{
    if b.len() == 0 {
        assert(a + b =~= a);
        assert(config::kept_parts(a) + config::kept_parts(b) =~= config::kept_parts(a));
    } else {
        let shorter = b.drop_last();
        lemma_parts_of_both(a, shorter);
        assert((a + b).drop_last() =~= a + shorter);
        assert((a + b).last() == b.last());
        assert(config::kept_parts(a + b) =~= config::kept_parts(a) + config::kept_parts(b));
    }
}

/// The keys of a text are those in front of a plus sign in it, and those behind.
pub proof fn keys_stand_between_plus_signs(a: Seq<char>, b: Seq<char>)
    ensures
        config::hotkey_parts(plus(a, b)) == config::hotkey_parts(a) + config::hotkey_parts(b),
{
    lemma_split_at_plus(a, b);
    lemma_parts_of_both(text::split_on(a, '+'), text::split_on(b, '+'));
}

/// A plus sign beside a plus sign changes nothing.
pub proof fn extra_plus_signs_do_not_matter(a: Seq<char>, b: Seq<char>)
    ensures
        config::hotkey_verdict(plus(a, plus(seq![], b))) == config::hotkey_verdict(plus(a, b)),
{
    let none = Seq::<char>::empty();
    assert(seq![] =~= none);
    text::lemma_trimmed_stays(none);
    assert(text::split_on(none, '+') =~= seq![none]);
    assert(config::kept_parts(seq![none]) =~= seq![]) by {
        assert(seq![none].drop_last() =~= seq![]);
        reveal_with_fuel(config::kept_parts, 2);
    }
    keys_stand_between_plus_signs(none, b);
    keys_stand_between_plus_signs(a, plus(none, b));
    keys_stand_between_plus_signs(a, b);
    assert(config::hotkey_parts(none) + config::hotkey_parts(b) =~= config::hotkey_parts(b));
}

proof fn lemma_parts_of_trimmed(a: Seq<Seq<char>>, b: Seq<Seq<char>>)
    requires
        a.len() == b.len(),
        forall|i: int| 0 <= i < a.len() ==> text::trim(#[trigger] a[i]) == text::trim(b[i]),
    ensures
        config::kept_parts(a) == config::kept_parts(b),
    decreases a.len(),
{
    if a.len() > 0 {
        assert forall|i: int| 0 <= i < a.len() - 1 implies text::trim(#[trigger] a.drop_last()[i])
            == text::trim(b.drop_last()[i]) by {
            assert(text::trim(a[i]) == text::trim(b[i]));
        }
        lemma_parts_of_trimmed(a.drop_last(), b.drop_last());
        assert(text::trim(a[a.len() - 1]) == text::trim(b[b.len() - 1]));
    }
}

/// White space around the pieces between the plus signs changes nothing.
pub proof fn spaces_around_keys_do_not_matter(v: Seq<char>, w: Seq<char>)
    requires
        text::split_on(v, '+').len() == text::split_on(w, '+').len(),
        forall|i: int|
            0 <= i < text::split_on(v, '+').len() ==> text::trim(
                #[trigger] text::split_on(v, '+')[i],
            ) == text::trim(text::split_on(w, '+')[i]),
    ensures
        config::hotkey_verdict(v) == config::hotkey_verdict(w),
{
    lemma_parts_of_trimmed(text::split_on(v, '+'), text::split_on(w, '+'));
}

/// The modifiers may change places, and stand there more than once, as long as a
/// key stands behind them.
pub proof fn order_and_repetition_do_not_matter(a: Seq<char>, b: Seq<char>, c: Seq<char>)
    requires
        config::hotkey_parts(c).len() > 0,
    ensures
        config::hotkey_verdict(plus(a, plus(b, c))) == config::hotkey_verdict(plus(b, plus(a, c))),
        config::hotkey_verdict(plus(a, plus(a, c))) == config::hotkey_verdict(plus(a, c)),
{
    let x = config::hotkey_parts(a);
    let y = config::hotkey_parts(b);
    let z = config::hotkey_parts(c);
    keys_stand_between_plus_signs(b, c);
    keys_stand_between_plus_signs(a, c);
    keys_stand_between_plus_signs(a, plus(b, c));
    keys_stand_between_plus_signs(b, plus(a, c));
    keys_stand_between_plus_signs(a, plus(a, c));
    lemma_fronts_swapped(x, y, z);
    lemma_fronts_swapped(y, x, z);
    lemma_same_where_contained(x + (y + z), y + (x + z));
    lemma_front_repeated(x, z);
    lemma_same_where_contained(x + (x + z), x + z);
    hotkeys_are_their_keys(plus(a, plus(b, c)), plus(b, plus(a, c)));
    hotkeys_are_their_keys(plus(a, plus(a, c)), plus(a, c));
}

proof fn lemma_fronts_swapped(x: Seq<Seq<char>>, y: Seq<Seq<char>>, z: Seq<Seq<char>>)
    requires
        z.len() > 0,
    ensures
        forall|i: int|
            0 <= i < (x + (y + z)).len() - 1 ==> (y + (x + z)).drop_last().contains(
                #[trigger] (x + (y + z))[i],
            ),
{
    let p = x + (y + z);
    let front = (y + (x + z)).drop_last();
    assert forall|i: int| 0 <= i < p.len() - 1 implies front.contains(#[trigger] p[i]) by {
        let j: int = if i < x.len() {
            y.len() + i
        } else if i < x.len() + y.len() {
            i - x.len()
        } else {
            i
        };
        assert(front[j] == p[i]);
    }
}

proof fn lemma_front_repeated(x: Seq<Seq<char>>, z: Seq<Seq<char>>)
    requires
        z.len() > 0,
    ensures
        forall|i: int|
            0 <= i < (x + (x + z)).len() - 1 ==> (x + z).drop_last().contains(
                #[trigger] (x + (x + z))[i],
            ),
        forall|i: int|
            0 <= i < (x + z).len() - 1 ==> (x + (x + z)).drop_last().contains(
                #[trigger] (x + z)[i],
            ),
{
    let p = x + (x + z);
    let q = x + z;
    assert forall|i: int| 0 <= i < p.len() - 1 implies q.drop_last().contains(#[trigger] p[i]) by {
        let j: int = if i < x.len() {
            i
        } else {
            i - x.len()
        };
        assert(q.drop_last()[j] == p[i]);
    }
    assert forall|i: int| 0 <= i < q.len() - 1 implies p.drop_last().contains(#[trigger] q[i]) by {
        assert(p.drop_last()[x.len() + i] == q[i]);
    }
}

proof fn lemma_same_where_contained(p: Seq<Seq<char>>, q: Seq<Seq<char>>)
    requires
        p.len() > 0,
        q.len() > 0,
        p.last() == q.last(),
        forall|i: int| 0 <= i < p.len() - 1 ==> q.drop_last().contains(#[trigger] p[i]),
        forall|i: int| 0 <= i < q.len() - 1 ==> p.drop_last().contains(#[trigger] q[i]),
    ensures
        same_keys(p, q),
{
    assert forall|i: int| 0 <= i < p.len() - 1 implies config::listed(
        q.drop_last(),
        #[trigger] p[i],
    ) by {
        let front = q.drop_last();
        let j = choose|j: int| 0 <= j < front.len() && front[j] == p[i];
        assert(text::same_ignoring_case(front[j], p[i]));
    }
    assert forall|i: int| 0 <= i < q.len() - 1 implies config::listed(
        p.drop_last(),
        #[trigger] q[i],
    ) by {
        let front = p.drop_last();
        let j = choose|j: int| 0 <= j < front.len() && front[j] == q[i];
        assert(text::same_ignoring_case(front[j], q[i]));
    }
}

/// Whether two lists agree, text by text, up to the case of letters.
spec fn same_lists(a: Seq<Seq<char>>, b: Seq<Seq<char>>) -> bool {
    &&& a.len() == b.len()
    &&& forall|i: int| 0 <= i < a.len() ==> text::same_ignoring_case(#[trigger] a[i], b[i])
}

proof fn lemma_split_whatever_the_case(v: Seq<char>, w: Seq<char>)
    requires
        text::same_ignoring_case(v, w),
    ensures
        same_lists(text::split_on(v, '+'), text::split_on(w, '+')),
    decreases v.len(),
{
    let i = text::first_index(v, '+') as int;
    text::lemma_first_index_is_first(v, '+');
    assert forall|j: int| 0 <= j < i implies w[j] != '+' by {
        assert(text::ascii_lower(v[j]) == text::ascii_lower(w[j]));
    }
    if i < v.len() {
        assert(text::ascii_lower(v[i]) == text::ascii_lower(w[i]));
        assert(w[i] == '+');
    }
    text::lemma_first_index(w, '+', i);
    if i < v.len() {
        let a = v.skip(i + 1);
        let b = w.skip(i + 1);
        assert forall|j: int| 0 <= j < a.len() implies text::ascii_lower(#[trigger] a[j])
            == text::ascii_lower(b[j]) by {
            assert(text::ascii_lower(v[i + 1 + j]) == text::ascii_lower(w[i + 1 + j]));
        }
        lemma_split_whatever_the_case(a, b);
        assert(text::same_ignoring_case(v.take(i), w.take(i))) by {
            assert forall|j: int| 0 <= j < i implies text::ascii_lower(#[trigger] v.take(i)[j])
                == text::ascii_lower(w.take(i)[j]) by {
                assert(text::ascii_lower(v[j]) == text::ascii_lower(w[j]));
            }
        }
        let x = text::split_on(v, '+');
        let y = text::split_on(w, '+');
        assert forall|j: int| 0 <= j < x.len() implies text::same_ignoring_case(
            #[trigger] x[j],
            y[j],
        ) by {
            if j > 0 {
                assert(x[j] == text::split_on(a, '+')[j - 1]);
                assert(y[j] == text::split_on(b, '+')[j - 1]);
            }
        }
    }
}

proof fn lemma_trim_whatever_the_case(a: Seq<char>, b: Seq<char>)
    requires
        text::same_ignoring_case(a, b),
    ensures
        text::same_ignoring_case(text::trim(a), text::trim(b)),
{
    let bounds = text::lemma_trim(a);
    assert forall|i: int| 0 <= i < a.len() implies text::is_white(#[trigger] a[i])
        == text::is_white(b[i]) by {
        assert(text::ascii_lower(a[i]) == text::ascii_lower(b[i]));
    }
    assert(text::bounds_ink(b, bounds.0, bounds.1)) by {
        assert forall|i: int| 0 <= i < bounds.0 implies text::is_white(#[trigger] b[i]) by {
            assert(text::is_white(a[i]));
        }
        assert forall|i: int| bounds.1 <= i < b.len() implies text::is_white(#[trigger] b[i]) by {
            assert(text::is_white(a[i]));
        }
    }
    text::lemma_trim_is(b, bounds.0, bounds.1);
    let x = text::trim(a);
    let y = text::trim(b);
    assert forall|i: int| 0 <= i < x.len() implies text::ascii_lower(#[trigger] x[i])
        == text::ascii_lower(y[i]) by {
        assert(text::ascii_lower(a[bounds.0 + i]) == text::ascii_lower(b[bounds.0 + i]));
    }
}

proof fn lemma_parts_whatever_the_case(a: Seq<Seq<char>>, b: Seq<Seq<char>>)
    requires
        same_lists(a, b),
    ensures
        same_lists(config::kept_parts(a), config::kept_parts(b)),
    decreases a.len(),
{
    if a.len() > 0 {
        let x = a.drop_last();
        let y = b.drop_last();
        assert forall|i: int| 0 <= i < x.len() implies text::same_ignoring_case(
            #[trigger] x[i],
            y[i],
        ) by {
            assert(text::same_ignoring_case(a[i], b[i]));
        }
        lemma_parts_whatever_the_case(x, y);
        assert(text::same_ignoring_case(a[a.len() - 1], b[b.len() - 1]));
        lemma_trim_whatever_the_case(a.last(), b.last());
    }
}

/// The case of letters changes nothing.
pub proof fn case_of_hotkeys_does_not_matter(v: Seq<char>, w: Seq<char>)
    requires
        text::same_ignoring_case(v, w),
    ensures
        config::hotkey_verdict(v) == config::hotkey_verdict(w),
{
    lemma_split_whatever_the_case(v, w);
    lemma_parts_whatever_the_case(text::split_on(v, '+'), text::split_on(w, '+'));
    let a = config::hotkey_parts(v);
    let b = config::hotkey_parts(w);
    assert(same_keys(a, b)) by {
        if a.len() > 0 {
            assert(text::same_ignoring_case(a[a.len() - 1], b[b.len() - 1]));
            assert forall|i: int| 0 <= i < a.len() - 1 implies config::listed(
                b.drop_last(),
                #[trigger] a[i],
            ) by {
                lemma_same_flips(a[i], b[i]);
                assert(text::same_ignoring_case(b.drop_last()[i], a[i]));
            }
            assert forall|i: int| 0 <= i < b.len() - 1 implies config::listed(
                a.drop_last(),
                #[trigger] b[i],
            ) by {
                assert(text::same_ignoring_case(a.drop_last()[i], b[i]));
            }
        }
    }
    hotkeys_are_their_keys(v, w);
}

/// The modifiers are these five, in whatever case of letters.
pub proof fn there_are_five_modifiers(part: Seq<char>)
    ensures
        config::is_modifier(part) <==> {
            let small = text::lower_text(part);
            small == "ctrl"@ || small == "alt"@ || small == "shift"@ || small == "win"@ || small
                == "super"@
        },
{
    lemma_small(part, "ctrl"@);
    lemma_small(part, "alt"@);
    lemma_small(part, "shift"@);
    lemma_small(part, "win"@);
    lemma_small(part, "super"@);
    reveal_strlit("ctrl");
    reveal_strlit("alt");
    reveal_strlit("shift");
    reveal_strlit("win");
    reveal_strlit("super");
    assert(text::lower_text("ctrl"@) =~= "ctrl"@);
    assert(text::lower_text("alt"@) =~= "alt"@);
    assert(text::lower_text("shift"@) =~= "shift"@);
    assert(text::lower_text("win"@) =~= "win"@);
    assert(text::lower_text("super"@) =~= "super"@);
}

proof fn lemma_small(part: Seq<char>, name: Seq<char>)
    ensures
        text::same_ignoring_case(part, name) <==> text::lower_text(part) == text::lower_text(name),
{
    text_laws::texts_agree_where_their_small_letters_do(part, name, seq![]);
}

/// The modifier of commands goes by four names, in whatever case of letters, and
/// counts only beside other keys.
pub proof fn the_command_modifier_has_four_names(part: Seq<char>, value: Seq<char>)
    ensures
        startup::is_command_modifier(part) <==> {
            let small = text::lower_text(part);
            small == "commandorcontrol"@ || small == "commandorctrl"@ || small == "cmdorctrl"@
                || small == "cmdorcontrol"@
        },
        !value.contains('+') ==> !startup::holds_command_modifier(value),
        startup::holds_command_modifier(value) ==> exists|i: int|
            0 <= i < text::split_on(value, '+').len() && startup::is_command_modifier(
                text::trim(#[trigger] text::split_on(value, '+')[i]),
            ),
{
    lemma_small(part, "CommandOrControl"@);
    lemma_small(part, "CommandOrCtrl"@);
    lemma_small(part, "CmdOrCtrl"@);
    lemma_small(part, "CmdOrControl"@);
    reveal_strlit("CommandOrControl");
    reveal_strlit("CommandOrCtrl");
    reveal_strlit("CmdOrCtrl");
    reveal_strlit("CmdOrControl");
    reveal_strlit("commandorcontrol");
    reveal_strlit("commandorctrl");
    reveal_strlit("cmdorctrl");
    reveal_strlit("cmdorcontrol");
    assert(text::lower_text("CommandOrControl"@) =~= "commandorcontrol"@);
    assert(text::lower_text("CommandOrCtrl"@) =~= "commandorctrl"@);
    assert(text::lower_text("CmdOrCtrl"@) =~= "cmdorctrl"@);
    assert(text::lower_text("CmdOrControl"@) =~= "cmdorcontrol"@);
    if !value.contains('+') {
        assert forall|j: int| 0 <= j < value.len() implies value[j] != '+' by {
            assert(value.contains(value[j]));
        }
        text::lemma_first_index(value, '+', value.len() as int);
    }
}

/// The keys are the letters and the digits, and F1 to F24; nothing else is one.
pub proof fn keys_are_letters_digits_and_functions(part: Seq<char>, n: nat)
    ensures
        part.len() == 0 ==> !config::is_key(part),
        part.len() == 1 ==> (config::is_key(part) <==> {
            let c = part[0] as u32;
            '0' as u32 <= c <= '9' as u32 || 'a' as u32 <= c <= 'z' as u32 || 'A' as u32 <= c
                <= 'Z' as u32
        }),
        part.len() > 1 && config::is_key(part) ==> (part[0] == 'F' || part[0] == 'f')
            && number::all_digits(part.skip(1)) && 1 <= number::digits_value(part.skip(1)) <= 24,
        config::is_key(seq!['F'] + number::decimal(n)) <==> 1 <= n <= 24,
        config::is_key(seq!['f'] + number::decimal(n)) <==> 1 <= n <= 24,
{
    let digits = number::decimal(n);
    number_laws::decimals_read_back(n);
    assert((seq!['F'] + digits).skip(1) =~= digits);
    assert((seq!['f'] + digits).skip(1) =~= digits);
}

/// A text names a hotkey just where one modifier or more stand in it, then a key:
/// fewer than two keys lack a modifier, and others are malformed.
pub proof fn hotkeys_are_modifiers_and_a_key(value: Seq<char>)
    ensures
        ({
            let parts = config::hotkey_parts(value);
            let n = parts.len() as int;
            let fits = (forall|i: int| 0 <= i < n - 1 ==> config::is_modifier(#[trigger] parts[i]))
                && config::is_key(parts[n - 1]);
            &&& config::hotkey_verdict(value) is Ok <==> n >= 2 && fits
            &&& n < 2 ==> config::hotkey_verdict(value) == Err::<(), config::HotkeyError>(
                config::HotkeyError::NoModifier,
            )
            &&& n >= 2 && !fits ==> config::hotkey_verdict(value) == Err::<(), config::HotkeyError>(
                config::HotkeyError::Malformed,
            )
        }),
{
}

/// A text without a plus sign is one key, without the white space at its ends,
/// or none where it is blank.
pub proof fn single_keys_are_trimmed(value: Seq<char>)
    requires
        !value.contains('+'),
    ensures
        text::is_blank(value) ==> config::hotkey_parts(value).len() == 0,
        !text::is_blank(value) ==> config::hotkey_parts(value) == seq![text::trim(value)],
{
    assert forall|j: int| 0 <= j < value.len() implies value[j] != '+' by {
        assert(value.contains(value[j]));
    }
    text::lemma_first_index(value, '+', value.len() as int);
    let pieces = seq![value];
    assert(text::split_on(value, '+') =~= pieces);
    assert(pieces.drop_last() =~= seq![]);
    assert(config::kept_parts(pieces.drop_last()) =~= seq![]);
    assert(pieces.last() == value);
    if !text::is_blank(value) {
        assert(config::hotkey_parts(value) =~= seq![text::trim(value)]);
    }
}

} // verus!
