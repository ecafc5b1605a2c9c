//! Text as sequences of characters: trimming, comparing, splitting, joining.
use vstd::prelude::*;
use vstd::slice::slice_subrange;

verus! {

/// `String::push` of std: the character is added behind what the string held.
pub assume_specification[ std::string::String::push ](string: &mut std::string::String, ch: char)
    ensures
        final(string)@ == old(string)@.push(ch),
;

/// The views of a list of strings.
pub open spec fn texts(list: Seq<String>) -> Seq<Seq<char>> {
    Seq::new(list.len(), |i: int| list[i]@)
}

/// The view of an optional string.
pub open spec fn text_option(value: Option<String>) -> Option<Seq<char>> {
    match value {
        Some(text) => Some(text@),
        None => None,
    }
}

/// The characters with Unicode's `White_Space` property.
pub open spec fn is_white(c: char) -> bool {
    let n = c as u32;
    ||| 0x9 <= n <= 0xd
    ||| n == 0x20
    ||| n == 0x85
    ||| n == 0xa0
    ||| n == 0x1680
    ||| 0x2000 <= n <= 0x200a
    ||| n == 0x2028
    ||| n == 0x2029
    ||| n == 0x202f
    ||| n == 0x205f
    ||| n == 0x3000
}

/// The ASCII white space of the Infra standard: tab, line feed, form feed,
/// carriage return and space.
pub open spec fn is_ascii_white(c: char) -> bool {
    let n = c as u32;
    n == 0x9 || n == 0xa || n == 0xc || n == 0xd || n == 0x20
}

/// `text` without the white space in front.
pub open spec fn trim_start(text: Seq<char>) -> Seq<char>
    decreases text.len(),
{
    if text.len() > 0 && is_white(text[0]) {
        trim_start(text.drop_first())
    } else {
        text
    }
}

/// `text` without the white space behind.
pub open spec fn trim_end(text: Seq<char>) -> Seq<char>
    decreases text.len(),
{
    if text.len() > 0 && is_white(text.last()) {
        trim_end(text.drop_last())
    } else {
        text
    }
}

/// `text` without the white space at its two ends.
pub open spec fn trim(text: Seq<char>) -> Seq<char> {
    trim_end(trim_start(text))
}

/// `text` without the run of `c` behind.
pub open spec fn trim_end_char(text: Seq<char>, c: char) -> Seq<char>
    decreases text.len(),
{
    if text.len() > 0 && text.last() == c {
        trim_end_char(text.drop_last(), c)
    } else {
        text
    }
}

/// Whether nothing but white space stands in `text`.
pub open spec fn is_blank(text: Seq<char>) -> bool {
    trim(text).len() == 0
}

/// `c`, with an ASCII capital turned into the small letter.
pub open spec fn ascii_lower(c: char) -> char {
    let n = c as u32;
    if 0x41 <= n <= 0x5a {
        (n + 32) as char
    } else {
        c
    }
}

/// `text` with its ASCII capitals turned into small letters.
pub open spec fn lower_text(text: Seq<char>) -> Seq<char> {
    Seq::new(text.len(), |i: int| ascii_lower(text[i]))
}

/// Whether two texts agree up to the case of ASCII letters.
pub open spec fn same_ignoring_case(a: Seq<char>, b: Seq<char>) -> bool {
    &&& a.len() == b.len()
    &&& forall|i: int| 0 <= i < a.len() ==> ascii_lower(#[trigger] a[i]) == ascii_lower(b[i])
}

/// The place of the first `c` in `text`, or its length where there is none.
pub open spec fn first_index(text: Seq<char>, c: char) -> nat
    decreases text.len(),
{
    if text.len() == 0 || text[0] == c {
        0
    } else {
        1 + first_index(text.drop_first(), c)
    }
}

/// The pieces between the occurrences of `c`: one more than there are of these.
pub open spec fn split_on(text: Seq<char>, c: char) -> Seq<Seq<char>>
    decreases text.len(),
{
    let i = first_index(text, c);
    if i >= text.len() {
        seq![text]
    } else {
        seq![text.take(i as int)] + split_on(text.skip(i as int + 1), c)
    }
}

/// `line` without one carriage return behind.
pub open spec fn strip_return(line: Seq<char>) -> Seq<char> {
    if line.len() > 0 && line.last() == '\r' {
        line.drop_last()
    } else {
        line
    }
}

/// The lines of `text`: each ends in a line feed, or in a carriage return and a
/// line feed, which are left out; the last one may end with the text.
pub open spec fn lines(text: Seq<char>) -> Seq<Seq<char>>
    decreases text.len(),
{
    let i = first_index(text, '\n');
    if text.len() == 0 {
        seq![]
    } else if i >= text.len() {
        seq![text]
    } else {
        seq![strip_return(text.take(i as int))] + lines(text.skip(i as int + 1))
    }
}

/// The texts of `list` one behind the other, with `separator` between them.
pub open spec fn join(list: Seq<Seq<char>>, separator: Seq<char>) -> Seq<char>
    decreases list.len(),
{
    if list.len() == 0 {
        seq![]
    } else if list.len() == 1 {
        list[0]
    } else {
        join(list.drop_last(), separator) + separator + list.last()
    }
}

/// A space in place of a line break, every other character as it is.
pub open spec fn break_to_space(c: char) -> char {
    if c == '\r' || c == '\n' {
        ' '
    } else {
        c
    }
}

/// `text` with each line break replaced by a space.
pub open spec fn single_line(text: Seq<char>) -> Seq<char> {
    Seq::new(text.len(), |i: int| break_to_space(text[i]))
}

/// Whether a carriage return or a line feed stands in `text`.
pub open spec fn has_line_break(text: Seq<char>) -> bool {
    text.contains('\r') || text.contains('\n')
}

/// What is left of `text` in front of its first `n` characters' end.
pub open spec fn at_most(text: Seq<char>, n: int) -> Seq<char> {
    if text.len() <= n {
        text
    } else {
        text.take(n)
    }
}

/// Whether `suffix` ends `text`, up to the case of ASCII letters.
pub open spec fn ends_with_ignoring_case(text: Seq<char>, suffix: Seq<char>) -> bool {
    &&& suffix.len() <= text.len()
    &&& same_ignoring_case(text.skip(text.len() - suffix.len()), suffix)
}

/// Whether `prefix` starts `text`, up to the case of ASCII letters.
pub open spec fn starts_with_ignoring_case(text: Seq<char>, prefix: Seq<char>) -> bool {
    &&& prefix.len() <= text.len()
    &&& same_ignoring_case(text.take(prefix.len() as int), prefix)
}

pub proof fn lemma_first_index(text: Seq<char>, c: char, k: int)
    requires
        0 <= k <= text.len(),
        forall|j: int| 0 <= j < k ==> text[j] != c,
        k < text.len() ==> text[k] == c,
    ensures
        first_index(text, c) == k,
    decreases text.len(),
{
    if k > 0 {
        assert(text[0] != c);
        let rest = text.drop_first();
        assert forall|j: int| 0 <= j < k - 1 implies rest[j] != c by {
            assert(rest[j] == text[j + 1]);
        }
        lemma_first_index(rest, c, k - 1);
    }
}

/// The place that `first_index` gives holds the character, and no place in front
/// of it does.
pub proof fn lemma_first_index_is_first(value: Seq<char>, c: char)
    ensures
        first_index(value, c) <= value.len(),
        forall|j: int| 0 <= j < first_index(value, c) ==> value[j] != c,
        first_index(value, c) < value.len() ==> value[first_index(value, c) as int] == c,
    decreases value.len(),
{
    if value.len() > 0 && value[0] != c {
        let rest = value.drop_first();
        lemma_first_index_is_first(rest, c);
        assert forall|j: int| 0 <= j < first_index(value, c) implies value[j] != c by {
            if j > 0 {
                assert(rest[j - 1] == value[j]);
            }
        }
    }
}

/// Whether no white space stands at the two ends of `text`.
pub open spec fn is_trimmed(text: Seq<char>) -> bool {
    text.len() > 0 ==> !is_white(text[0]) && !is_white(text.last())
}

/// Whether `text` is white space only, up to `a` and from `b` on, and none stands
/// at the two ends of what is between.
pub open spec fn bounds_ink(text: Seq<char>, a: int, b: int) -> bool {
    &&& 0 <= a <= b <= text.len()
    &&& forall|i: int| 0 <= i < a ==> is_white(#[trigger] text[i])
    &&& forall|i: int| b <= i < text.len() ==> is_white(#[trigger] text[i])
    &&& a < b ==> !is_white(text[a]) && !is_white(text[b - 1])
}

proof fn lemma_trim_start(text: Seq<char>, a: int)
    requires
        0 <= a <= text.len(),
        forall|i: int| 0 <= i < a ==> is_white(#[trigger] text[i]),
        a < text.len() ==> !is_white(text[a]),
    ensures
        trim_start(text) == text.skip(a),
    decreases a,
{
    if a > 0 {
        assert(is_white(text[0]));
        let rest = text.drop_first();
        assert forall|i: int| 0 <= i < a - 1 implies is_white(#[trigger] rest[i]) by {
            assert(rest[i] == text[i + 1]);
        }
        lemma_trim_start(rest, a - 1);
        assert(rest.skip(a - 1) =~= text.skip(a));
    } else {
        assert(text.skip(0) =~= text);
    }
}

proof fn lemma_trim_end(text: Seq<char>, b: int)
    requires
        0 <= b <= text.len(),
        forall|i: int| b <= i < text.len() ==> is_white(#[trigger] text[i]),
        b > 0 ==> !is_white(text[b - 1]),
    ensures
        trim_end(text) == text.take(b),
    decreases text.len(),
{
    if b < text.len() {
        assert(is_white(text[text.len() - 1]));
        let rest = text.drop_last();
        lemma_trim_end(rest, b);
        assert(rest.take(b) =~= text.take(b));
    } else {
        assert(text.take(b) =~= text);
    }
}

/// What is left of a text when white space is taken off is what stands between
/// the white space at its ends.
pub proof fn lemma_trim_is(text: Seq<char>, a: int, b: int)
    requires
        bounds_ink(text, a, b),
    ensures
        trim(text) == text.subrange(a, b),
{
    if a < b {
        lemma_trim_start(text, a);
        let rest = text.skip(a);
        assert forall|i: int| b - a <= i < rest.len() implies is_white(#[trigger] rest[i]) by {
            assert(rest[i] == text[a + i]);
        }
        assert(rest[b - a - 1] == text[b - 1]);
        lemma_trim_end(rest, b - a);
        assert(rest.take(b - a) =~= text.subrange(a, b));
    } else {
        assert forall|i: int| 0 <= i < text.len() implies is_white(#[trigger] text[i]) by {}
        lemma_trim_start(text, text.len() as int);
        assert(text.skip(text.len() as int) =~= seq![]);
        assert(text.subrange(a, b) =~= seq![]);
    }
}

/// Every text has its white space at the ends, and the rest between.
pub proof fn lemma_trim(text: Seq<char>) -> (bounds: (int, int))
    ensures
        bounds_ink(text, bounds.0, bounds.1),
        trim(text) == text.subrange(bounds.0, bounds.1),
        is_trimmed(trim(text)),
{
    let a = lemma_ink_start(text, 0);
    let b = lemma_ink_end(text, a, text.len() as int);
    lemma_trim_is(text, a, b);
    (a, b)
}

proof fn lemma_ink_start(text: Seq<char>, from: int) -> (a: int)
    requires
        0 <= from <= text.len(),
        forall|i: int| 0 <= i < from ==> is_white(#[trigger] text[i]),
    ensures
        0 <= a <= text.len(),
        forall|i: int| 0 <= i < a ==> is_white(#[trigger] text[i]),
        a < text.len() ==> !is_white(text[a]),
    decreases text.len() - from,
{
    if from < text.len() && is_white(text[from]) {
        lemma_ink_start(text, from + 1)
    } else {
        from
    }
}

proof fn lemma_ink_end(text: Seq<char>, a: int, to: int) -> (b: int)
    requires
        0 <= a <= to <= text.len(),
        forall|i: int| to <= i < text.len() ==> is_white(#[trigger] text[i]),
        a < text.len() ==> !is_white(text[a]),
    ensures
        a <= b <= text.len(),
        forall|i: int| b <= i < text.len() ==> is_white(#[trigger] text[i]),
        b > a ==> !is_white(text[b - 1]),
        a < text.len() ==> a < b,
    decreases to,
{
    if a < to && is_white(text[to - 1]) {
        lemma_ink_end(text, a, to - 1)
    } else {
        to
    }
}

/// A text without white space at its ends is left as it is.
pub proof fn lemma_trimmed_stays(text: Seq<char>)
    requires
        is_trimmed(text),
    ensures
        trim(text) == text,
{
    lemma_trim_is(text, 0, text.len() as int);
    assert(text.subrange(0, text.len() as int) =~= text);
}

/// The characters of `text`, in order.
pub fn chars_of(text: &str) -> (chars: Vec<char>)
    ensures
        chars@ == text@,
{
    let mut chars: Vec<char> = Vec::new();
    for c in it: text.chars()
        invariant
            it.seq() == text@,
            chars@ == text@.take(it.index()),
    {
        assert(text@.take(it.index() + 1) =~= text@.take(it.index()).push(c));
        chars.push(c);
    }
    assert(text@.take(text@.len() as int) =~= text@);
    chars
}

/// The text made of `chars`.
pub fn string_of(chars: &[char]) -> (text: String)
    ensures
        text@ == chars@,
{
    let mut text = String::new();
    for i in 0..chars.len()
        invariant
            text@ == chars@.take(i as int),
    {
        assert(chars@.take(i + 1) =~= chars@.take(i as int).push(chars@[i as int]));
        text.push(chars[i]);
    }
    assert(chars@.take(chars@.len() as int) =~= chars@);
    text
}

/// Tells the characters with the `White_Space` property.
pub fn char_is_white(c: char) -> (white: bool)
    ensures
        white == is_white(c),
{
    let n: u32 = c as u32;
    (0x9 <= n && n <= 0xd) || n == 0x20 || n == 0x85 || n == 0xa0 || n == 0x1680 || (0x2000 <= n
        && n <= 0x200a) || n == 0x2028 || n == 0x2029 || n == 0x202f || n == 0x205f || n == 0x3000
}

/// Tells tab, line feed, form feed, carriage return and space.
pub fn char_is_ascii_white(c: char) -> (white: bool)
    ensures
        white == is_ascii_white(c),
{
    let n: u32 = c as u32;
    n == 0x9 || n == 0xa || n == 0xc || n == 0xd || n == 0x20
}

/// The part of `chars` without white space at the two ends.
pub fn trim_chars(chars: &[char]) -> (part: &[char])
    ensures
        part@ == trim(chars@),
{
    let mut from: usize = 0;
    assert(chars@.skip(0) =~= chars@);
    while from < chars.len() && char_is_white(chars[from])
        invariant
            from <= chars@.len(),
            trim_start(chars@) == trim_start(chars@.skip(from as int)),
        decreases chars@.len() - from,
    {
        assert(chars@.skip(from as int).drop_first() =~= chars@.skip(from + 1));
        from += 1;
    }
    let ghost head = chars@.skip(from as int);
    assert(head == trim_start(chars@));
    let mut to: usize = chars.len();
    assert(head.take(to - from) =~= head);
    while from < to && char_is_white(chars[to - 1])
        invariant
            from <= to <= chars@.len(),
            head == chars@.skip(from as int),
            trim_end(head) == trim_end(head.take(to - from)),
        decreases to,
    {
        assert(head.take(to - from).last() == chars@[to - 1]);
        assert(head.take(to - from).drop_last() =~= head.take(to - from - 1));
        to -= 1;
    }
    assert(from < to ==> head.take(to - from).last() == chars@[to - 1]);
    assert(chars@.subrange(from as int, to as int) =~= head.take(to - from));
    slice_subrange(chars, from, to)
}

/// `text` without the white space at its two ends.
pub fn trimmed(text: &str) -> (result: String)
    ensures
        result@ == trim(text@),
{
    let chars = chars_of(text);
    string_of(trim_chars(chars.as_slice()))
}

/// Tells whether `text` is white space only.
pub fn text_is_blank(text: &str) -> (blank: bool)
    ensures
        blank == is_blank(text@),
{
    let chars = chars_of(text);
    trim_chars(chars.as_slice()).len() == 0
}

/// The part of `chars` without the run of `c` behind.
pub fn trim_end_char_of(chars: &[char], c: char) -> (part: &[char])
    ensures
        part@ == trim_end_char(chars@, c),
{
    let mut to: usize = chars.len();
    assert(chars@.take(to as int) =~= chars@);
    while to > 0 && chars[to - 1] == c
        invariant
            to <= chars@.len(),
            trim_end_char(chars@, c) == trim_end_char(chars@.take(to as int), c),
        decreases to,
    {
        assert(chars@.take(to as int).last() == chars@[to - 1]);
        assert(chars@.take(to as int).drop_last() =~= chars@.take(to - 1));
        to -= 1;
    }
    assert(to > 0 ==> chars@.take(to as int).last() == chars@[to - 1]);
    assert(chars@.subrange(0, to as int) =~= chars@.take(to as int));
    slice_subrange(chars, 0, to)
}

/// `c` with an ASCII capital turned into the small letter.
pub fn lower_char(c: char) -> (lower: char)
    ensures
        lower == ascii_lower(c),
{
    match c {
        'A' => 'a',
        'B' => 'b',
        'C' => 'c',
        'D' => 'd',
        'E' => 'e',
        'F' => 'f',
        'G' => 'g',
        'H' => 'h',
        'I' => 'i',
        'J' => 'j',
        'K' => 'k',
        'L' => 'l',
        'M' => 'm',
        'N' => 'n',
        'O' => 'o',
        'P' => 'p',
        'Q' => 'q',
        'R' => 'r',
        'S' => 's',
        'T' => 't',
        'U' => 'u',
        'V' => 'v',
        'W' => 'w',
        'X' => 'x',
        'Y' => 'y',
        'Z' => 'z',
        _ => c,
    }
}

/// `chars` with the ASCII capitals turned into small letters.
pub fn lower_chars(chars: &[char]) -> (lower: Vec<char>)
    ensures
        lower@ == lower_text(chars@),
{
    let mut lower: Vec<char> = Vec::new();
    for i in 0..chars.len()
        invariant
            lower@ == lower_text(chars@).take(i as int),
    {
        lower.push(lower_char(chars[i]));
        assert(lower@ =~= lower_text(chars@).take(i + 1));
    }
    assert(lower@ =~= lower_text(chars@));
    lower
}

/// Tells whether two texts agree up to the case of ASCII letters.
pub fn chars_same_ignoring_case(a: &[char], b: &[char]) -> (same: bool)
    ensures
        same == same_ignoring_case(a@, b@),
{
    if a.len() != b.len() {
        return false;
    }
    for i in 0..a.len()
        invariant
            a@.len() == b@.len(),
            forall|j: int| 0 <= j < i ==> ascii_lower(#[trigger] a@[j]) == ascii_lower(b@[j]),
    {
        if lower_char(a[i]) != lower_char(b[i]) {
            assert(ascii_lower(a@[i as int]) != ascii_lower(b@[i as int]));
            return false;
        }
    }
    true
}

/// Tells whether two texts agree up to the case of ASCII letters.
pub fn text_same_ignoring_case(a: &str, b: &str) -> (same: bool)
    ensures
        same == same_ignoring_case(a@, b@),
{
    let left = chars_of(a);
    let right = chars_of(b);
    chars_same_ignoring_case(left.as_slice(), right.as_slice())
}

/// Tells whether `prefix` starts `chars`, up to the case of ASCII letters.
pub fn chars_start_ignoring_case(chars: &[char], prefix: &str) -> (starts: bool)
    ensures
        starts == starts_with_ignoring_case(chars@, prefix@),
{
    let wanted = chars_of(prefix);
    if wanted.len() > chars.len() {
        return false;
    }
    assert(chars@.subrange(0, wanted@.len() as int) =~= chars@.take(wanted@.len() as int));
    chars_same_ignoring_case(slice_subrange(chars, 0, wanted.len()), wanted.as_slice())
}

/// Tells whether `suffix` ends `chars`, up to the case of ASCII letters.
pub fn chars_end_ignoring_case(chars: &[char], suffix: &str) -> (ends: bool)
    ensures
        ends == ends_with_ignoring_case(chars@, suffix@),
{
    let wanted = chars_of(suffix);
    if wanted.len() > chars.len() {
        return false;
    }
    let from: usize = chars.len() - wanted.len();
    assert(chars@.subrange(from as int, chars@.len() as int) =~= chars@.skip(from as int));
    chars_same_ignoring_case(slice_subrange(chars, from, chars.len()), wanted.as_slice())
}

/// Tells whether two texts are the same.
pub fn same_text(a: &str, b: &str) -> (same: bool)
    ensures
        same == (a@ == b@),
{
    let left = chars_of(a);
    let right = chars_of(b);
    if left.len() != right.len() {
        return false;
    }
    for i in 0..left.len()
        invariant
            left@.len() == right@.len(),
            left@ == a@,
            right@ == b@,
            forall|j: int| 0 <= j < i ==> left@[j] == right@[j],
    {
        if left[i] != right[i] {
            assert(a@[i as int] != b@[i as int]);
            return false;
        }
    }
    assert(a@ =~= b@);
    true
}

/// The place of the first `c` in `chars`, or their number where there is none.
pub fn first_index_of(chars: &[char], c: char) -> (index: usize)
    ensures
        index == first_index(chars@, c),
        index <= chars@.len(),
        forall|j: int| 0 <= j < index ==> chars@[j] != c,
        index < chars@.len() ==> chars@[index as int] == c,
{
    let mut i: usize = 0;
    while i < chars.len() && chars[i] != c
        invariant
            i <= chars@.len(),
            forall|j: int| 0 <= j < i ==> chars@[j] != c,
        decreases chars@.len() - i,
    {
        i += 1;
    }
    proof {
        lemma_first_index(chars@, c, i as int);
    }
    i
}

/// The pieces of `text` between the occurrences of `c`.
pub fn split_text(text: &str, c: char) -> (pieces: Vec<String>)
    ensures
        texts(pieces@) == split_on(text@, c),
{
    let chars = chars_of(text);
    let mut pieces: Vec<String> = Vec::new();
    let mut start: usize = 0;
    let mut i: usize = 0;
    assert(chars@.skip(0) =~= text@);
    assert(texts(pieces@) + split_on(text@, c) =~= split_on(text@, c));
    while i < chars.len()
        invariant
            start <= i <= chars@.len(),
            chars@ == text@,
            forall|j: int| start <= j < i ==> chars@[j] != c,
            split_on(text@, c) == texts(pieces@) + split_on(chars@.skip(start as int), c),
        decreases chars@.len() - i,
    {
        if chars[i] == c {
            let ghost rest = chars@.skip(start as int);
            let ghost before = pieces@;
            let piece = string_of(slice_subrange(chars.as_slice(), start, i));
            pieces.push(piece);
            proof {
                assert forall|j: int| 0 <= j < i - start implies rest[j] != c by {
                    assert(rest[j] == chars@[start + j]);
                }
                lemma_first_index(rest, c, i - start);
                assert(rest.take(i - start) =~= chars@.subrange(start as int, i as int));
                assert(rest.skip(i - start + 1) =~= chars@.skip(i + 1));
                assert(texts(pieces@) =~= texts(before).push(piece@));
                assert(texts(before) + (seq![piece@] + split_on(chars@.skip(i + 1), c))
                    =~= texts(pieces@) + split_on(chars@.skip(i + 1), c));
            }
            start = i + 1;
        }
        i += 1;
    }
    let ghost rest = chars@.skip(start as int);
    let ghost before = pieces@;
    let piece = string_of(slice_subrange(chars.as_slice(), start, chars.len()));
    pieces.push(piece);
    proof {
        assert forall|j: int| 0 <= j < rest.len() implies rest[j] != c by {
            assert(rest[j] == chars@[start + j]);
        }
        lemma_first_index(rest, c, rest.len() as int);
        assert(rest =~= chars@.subrange(start as int, chars@.len() as int));
        assert(texts(pieces@) =~= texts(before) + seq![rest]);
    }
    pieces
}

/// The lines of `text`.
pub fn lines_of(text: &str) -> (result: Vec<String>)
    ensures
        texts(result@) == lines(text@),
{
    let chars = chars_of(text);
    let mut result: Vec<String> = Vec::new();
    let mut start: usize = 0;
    let mut i: usize = 0;
    assert(chars@.skip(0) =~= text@);
    assert(texts(result@) + lines(text@) =~= lines(text@));
    while i < chars.len()
        invariant
            start <= i <= chars@.len(),
            chars@ == text@,
            forall|j: int| start <= j < i ==> chars@[j] != '\n',
            lines(text@) == texts(result@) + lines(chars@.skip(start as int)),
        decreases chars@.len() - i,
    {
        if chars[i] == '\n' {
            let ghost rest = chars@.skip(start as int);
            let ghost before = result@;
            let mut end: usize = i;
            if end > start && chars[end - 1] == '\r' {
                end -= 1;
            }
            let line = string_of(slice_subrange(chars.as_slice(), start, end));
            result.push(line);
            proof {
                assert forall|j: int| 0 <= j < i - start implies rest[j] != '\n' by {
                    assert(rest[j] == chars@[start + j]);
                }
                lemma_first_index(rest, '\n', i - start);
                let whole = rest.take(i - start);
                assert(i > start ==> whole.last() == chars@[i - 1]);
                assert(strip_return(whole) =~= chars@.subrange(start as int, end as int));
                assert(rest.skip(i - start + 1) =~= chars@.skip(i + 1));
                assert(texts(result@) =~= texts(before).push(line@));
                assert(texts(before) + (seq![line@] + lines(chars@.skip(i + 1))) =~= texts(result@)
                    + lines(chars@.skip(i + 1)));
            }
            start = i + 1;
        }
        i += 1;
    }
    let ghost rest = chars@.skip(start as int);
    proof {
        assert forall|j: int| 0 <= j < rest.len() implies rest[j] != '\n' by {
            assert(rest[j] == chars@[start + j]);
        }
        lemma_first_index(rest, '\n', rest.len() as int);
    }
    if start < chars.len() {
        let ghost before = result@;
        let line = string_of(slice_subrange(chars.as_slice(), start, chars.len()));
        result.push(line);
        assert(rest =~= chars@.subrange(start as int, chars@.len() as int));
        assert(texts(result@) =~= texts(before) + seq![rest]);
    } else {
        assert(texts(result@) + lines(rest) =~= texts(result@));
    }
    result
}

/// The texts of `list` one behind the other, with `separator` between them.
pub fn join_texts(list: &[String], separator: &str) -> (result: String)
    ensures
        result@ == join(texts(list@), separator@),
{
    let mut result = String::new();
    for i in 0..list.len()
        invariant
            result@ == join(texts(list@.take(i as int)), separator@),
    {
        if i > 0 {
            result.append(separator);
        }
        result.append(list[i].as_str());
        proof {
            let longer = texts(list@.take(i + 1));
            assert(longer.drop_last() =~= texts(list@.take(i as int)));
            assert(longer.last() == list@[i as int]@);
            if i == 0 {
                assert(result@ =~= list@[0]@);
            }
        }
    }
    assert(list@.take(list@.len() as int) =~= list@);
    result
}

/// `text` with each line break replaced by a space.
pub fn to_single_line(text: &str) -> (result: String)
    ensures
        result@ == single_line(text@),
{
    let chars = chars_of(text);
    let mut result = String::new();
    for i in 0..chars.len()
        invariant
            chars@ == text@,
            result@ == single_line(text@).take(i as int),
    {
        let c: char = chars[i];
        if c == '\r' || c == '\n' {
            result.push(' ');
        } else {
            result.push(c);
        }
        assert(result@ =~= single_line(text@).take(i + 1));
    }
    assert(result@ =~= single_line(text@));
    result
}

/// Tells whether a carriage return or a line feed stands in `text`.
pub fn text_has_line_break(text: &str) -> (found: bool)
    ensures
        found == has_line_break(text@),
{
    let chars = chars_of(text);
    for i in 0..chars.len()
        invariant
            chars@ == text@,
            forall|j: int| 0 <= j < i ==> text@[j] != '\r' && text@[j] != '\n',
    {
        let c: char = chars[i];
        if c == '\r' || c == '\n' {
            assert(text@[i as int] == c);
            return true;
        }
    }
    false
}

/// The first `limit` characters of `text`, or all where there are no more.
pub fn take_chars(text: &str, limit: usize) -> (result: String)
    ensures
        result@ == at_most(text@, limit as int),
{
    let chars = chars_of(text);
    if chars.len() <= limit {
        return string_of(chars.as_slice());
    }
    assert(chars@.subrange(0, limit as int) =~= chars@.take(limit as int));
    string_of(slice_subrange(chars.as_slice(), 0, limit))
}

} // verus!
