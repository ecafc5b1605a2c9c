//! What holds of the icon file, and of the address that the program starts with.
use vstd::prelude::*;

use crate::branding;
use crate::packaging;
use crate::packaging::BuildAddressView;
use crate::text;

verus! {

/// The number in two bytes at `at`, the low one first.
pub open spec fn read16(data: Seq<u8>, at: int) -> int {
    data[at] + 256 * data[at + 1]
}

/// The number in four bytes at `at`, the low one first.
pub open spec fn read32(data: Seq<u8>, at: int) -> int {
    read16(data, at) + 65536 * read16(data, at + 2)
}

/// Numbers that two or four bytes can hold are read back from them.
pub proof fn numbers_are_read_back(n: int)
    ensures
        packaging::le16(n).len() == 2,
        0 <= n < 0x1_0000 ==> read16(packaging::le16(n), 0) == n,
        packaging::le32(n).len() == 4,
        0 <= n < 0x1_0000_0000 ==> read32(packaging::le32(n), 0) == n,
{
}

/// The head of an icon file announces one icon of that size with so many bytes of
/// image behind 22 bytes of directory; the image has a head of 40 bytes, that
/// width, twice that height, one plane and 32 bits to a pixel.
pub proof fn icon_heads_announce_one_image(size: int, image_bytes: int)
    requires
        0 < size < 256,
        0 <= image_bytes < 0x1_0000_0000,
    ensures
        ({
            let head = packaging::icon_head(size, image_bytes);
            &&& head.len() == 22 + 40
            &&& read16(head, 0) == 0 && read16(head, 2) == 1 && read16(head, 4) == 1
            &&& head[6] == size && head[7] == size && head[8] == 0 && head[9] == 0
            &&& read16(head, 10) == 1 && read16(head, 12) == 32
            &&& read32(head, 14) == image_bytes && read32(head, 18) == 22
            &&& read32(head, 22) == 40 && read32(head, 26) == size && read32(head, 30) == 2 * size
            &&& read16(head, 34) == 1 && read16(head, 36) == 32 && read32(head, 38) == 0
            &&& read32(head, 42) == size * size * 4
            &&& read32(head, 46) == 0 && read32(head, 50) == 0 && read32(head, 54) == 0
            &&& read32(head, 58) == 0
        }),
{
    assert(0 <= size * size * 4 < 0x1_0000_0000) by (nonlinear_arith)
        requires
            0 < size < 256,
    ;
}

/// The image holds the pixels row by row, the lowest row first, and of each pixel
/// its blue, its green, its red and its opacity.
pub proof fn images_stand_on_their_head(rgba: Seq<u8>, row: int, column: int)
    requires
        0 <= row < 32,
        0 <= column < 32,
    ensures
        ({
            let image = packaging::icon_image(rgba);
            let to = (row * 32 + column) * 4;
            let from = ((31 - row) * 32 + column) * 4;
            &&& image.len() == 32 * 32 * 4
            &&& image[to] == rgba[from + 2]
            &&& image[to + 1] == rgba[from + 1]
            &&& image[to + 2] == rgba[from]
            &&& image[to + 3] == rgba[from + 3]
        }),
{
    let pixel = row * 32 + column;
    assert(pixel / 32 == row && pixel % 32 == column);
    assert((pixel * 4) / 4 == pixel && (pixel * 4 + 1) / 4 == pixel && (pixel * 4 + 2) / 4 == pixel
        && (pixel * 4 + 3) / 4 == pixel);
}

/// The mask leaves every pixel in.
pub proof fn masks_leave_nothing_out(i: int)
    requires
        0 <= i < 128,
    ensures
        packaging::icon_mask().len() == 128,
        packaging::icon_mask()[i] == 0,
        packaging::icon_pixels().len() == 32 * 32 * 4,
{
}

/// The icon shows an F: a stem five pixels wide, a bar as wide as seventeen at its
/// top and one as wide as thirteen below; it is white, the rest nearly black, and
/// all of it opaque.
pub proof fn the_icon_shows_an_f(x: int, y: int, channel: int)
    requires
        0 <= x < 32,
        0 <= y < 32,
        0 <= channel < 4,
    ensures
        ({
            let width: int = if y < 6 || y > 26 {
                0
            } else if y <= 10 {
                17
            } else if 14 <= y <= 18 {
                13
            } else {
                5
            };
            let byte = branding::icon_byte((y * 32 + x) * 4 + channel);
            &&& branding::in_letter(x, y) <==> 8 <= x < 8 + width
            &&& channel == 3 ==> byte == 255
            &&& channel < 3 && 8 <= x < 8 + width ==> byte == 255
            &&& channel < 3 && !(8 <= x < 8 + width) ==> byte == 7
        }),
{
    let pixel = y * 32 + x;
    assert((pixel * 4 + channel) / 4 == pixel && (pixel * 4 + channel) % 4 == channel);
    assert(pixel / 32 == y && pixel % 32 == x);
}

/// A line of an environment file with a name, an equals sign and a value holds
/// these two, without white space around the value; a line that starts with a
/// number sign holds none, nor does one without an equals sign.
pub proof fn entries_are_names_and_values(name: Seq<char>, value: Seq<char>, line: Seq<char>)
    ensures
        name.len() > 0 && text::is_trimmed(name) && !name.contains('=') && name[0] != '#'
            ==> packaging::entry_in(name + seq!['='] + value) == Some((name, text::trim(value))),
        packaging::entry_in(seq!['#'] + line) is None,
        !line.contains('=') ==> packaging::entry_in(line) is None,
{
    if name.len() > 0 && text::is_trimmed(name) && !name.contains('=') && name[0] != '#' {
        lemma_entry(name, value);
    }
    lemma_comment(line);
    let bounds = text::lemma_trim(line);
    if !line.contains('=') {
        let bare = text::trim(line);
        assert forall|j: int| 0 <= j < bare.len() implies bare[j] != '=' by {
            assert(bare[j] == line[bounds.0 + j]);
            assert(line.contains(line[bounds.0 + j]));
        }
        text::lemma_first_index(bare, '=', bare.len() as int);
    }
}

proof fn lemma_comment(line: Seq<char>)
    ensures
        packaging::entry_in(seq!['#'] + line) is None,
{
    let whole = seq!['#'] + line;
    let bounds = text::lemma_trim(whole);
    assert(whole[0] == '#');
    if bounds.0 > 0 {
        assert(text::is_white(whole[0]));
    }
    if bounds.0 == bounds.1 {
        assert(text::is_white(whole[0]));
    }
    assert(text::trim(whole)[0] == '#');
}

proof fn lemma_entry(name: Seq<char>, value: Seq<char>)
    requires
        name.len() > 0,
        text::is_trimmed(name),
        !name.contains('='),
        name[0] != '#',
    ensures
        packaging::entry_in(name + seq!['='] + value) == Some((name, text::trim(value))),
{
    let line = name + seq!['='] + value;
    let n = name.len() as int;
    let (a, b) = text::lemma_trim(value);
    let end = if a < b {
        n + 1 + b
    } else {
        n + 1
    };
    assert(text::bounds_ink(line, 0, end)) by {
        assert forall|i: int| end <= i < line.len() implies text::is_white(#[trigger] line[i]) by {
            assert(line[i] == value[i - n - 1]);
        }
        assert(line[0] == name[0]);
        if a < b {
            assert(line[end - 1] == value[b - 1]);
        }
    }
    text::lemma_trim_is(line, 0, end);
    let bare = line.subrange(0, end);
    assert forall|j: int| 0 <= j < n implies bare[j] != '=' by {
        assert(bare[j] == name[j]);
        assert(name.contains(name[j]));
    }
    text::lemma_first_index(bare, '=', n);
    assert(bare.take(n) =~= name);
    text::lemma_trimmed_stays(name);
    let rest = bare.skip(n + 1);
    if a < b {
        assert(rest =~= value.take(b));
        assert(text::bounds_ink(rest, a, b)) by {
            assert forall|i: int| 0 <= i < a implies text::is_white(#[trigger] rest[i]) by {
                assert(rest[i] == value[i]);
            }
        }
        text::lemma_trim_is(rest, a, b);
        assert(rest.subrange(a, b) =~= value.subrange(a, b));
    } else {
        assert(rest =~= seq![]);
        text::lemma_trimmed_stays(rest);
        assert(text::trim(value) =~= seq![]);
    }
}

/// The first line with an entry of that name counts: lines behind are looked at
/// only where those in front hold none.
pub proof fn first_entries_count(
    first: Seq<Seq<char>>,
    second: Seq<Seq<char>>,
    line: Seq<char>,
    key: Seq<char>,
    value: Seq<char>,
)
    ensures
        packaging::value_in(first + second, key) == (match packaging::value_in(first, key) {
            Some(found) => Some(found),
            None => packaging::value_in(second, key),
        }),
        packaging::value_in(seq![line], key) == Some(value) <==> packaging::entry_in(line) == Some(
            (key, value),
        ),
        packaging::value_in(seq![], key) is None,
    decreases first.len(),
{
    let single = seq![line];
    assert(single.skip(1) =~= seq![]);
    assert(single[0] == line);
    reveal_with_fuel(packaging::value_in, 2);
    if first.len() == 0 {
        assert(first + second =~= second);
    } else {
        first_entries_count(first.skip(1), second, line, key, value);
        assert((first + second).skip(1) =~= first.skip(1) + second);
        assert((first + second)[0] == first[0]);
    }
}

/// The variable counts where it is not blank; else the entry in the file, where
/// there is one.
pub proof fn variables_count_before_files(variable: Seq<char>, contents: Option<Seq<char>>)
    ensures
        !text::is_blank(variable) ==> packaging::given_address(Some(variable), contents) == Some(
            variable,
        ),
        text::is_blank(variable) ==> packaging::given_address(Some(variable), contents)
            == packaging::given_address(None, contents),
        contents matches Some(text) ==> packaging::given_address(None, contents)
            == packaging::value_in(text::lines(text), "GFE_DEFAULT_API_BASE_URL"@),
        contents is None ==> packaging::given_address(None, contents) is None,
{
}

proof fn lemma_unquoted_front(value: Seq<char>, a: int)
    requires
        0 <= a <= value.len(),
        forall|i: int| 0 <= i < a ==> #[trigger] value[i] == '\'' || value[i] == '"',
        a < value.len() ==> value[a] != '\'' && value[a] != '"',
    ensures
        packaging::unquote_front(value) == value.subrange(a, value.len() as int),
    decreases a,
{
    if a > 0 {
        assert(value[0] == '\'' || value[0] == '"');
        let rest = value.skip(1);
        assert forall|i: int| 0 <= i < a - 1 implies #[trigger] rest[i] == '\'' || rest[i]
            == '"' by {
            assert(rest[i] == value[i + 1]);
        }
        lemma_unquoted_front(rest, a - 1);
        assert(rest.subrange(a - 1, rest.len() as int) =~= value.subrange(a, value.len() as int));
    } else {
        assert(value.subrange(0, value.len() as int) =~= value);
    }
}

proof fn lemma_unquoted_back(value: Seq<char>, b: int)
    requires
        0 <= b <= value.len(),
        forall|i: int| b <= i < value.len() ==> #[trigger] value[i] == '\'' || value[i] == '"',
        b > 0 ==> value[b - 1] != '\'' && value[b - 1] != '"',
    ensures
        packaging::unquote_back(value) == value.subrange(0, b),
    decreases value.len(),
{
    if b < value.len() {
        assert(value[value.len() - 1] == '\'' || value[value.len() - 1] == '"');
        let rest = value.drop_last();
        assert forall|i: int| b <= i < rest.len() implies #[trigger] rest[i] == '\'' || rest[i]
            == '"' by {
            assert(rest[i] == value[i]);
        }
        lemma_unquoted_back(rest, b);
        assert(rest.subrange(0, b) =~= value.subrange(0, b));
    } else {
        assert(value.subrange(0, b) =~= value);
    }
}

/// An address is used where, without the white space and then the quotes at its
/// ends, it starts with `https://` and stands on one line; it is used without
/// these, and no other is.
pub proof fn addresses_are_taken_out_of_quotes(value: Seq<char>, a: int, b: int)
    requires
        ({
            let bare = text::trim(value);
            &&& 0 <= a <= b <= bare.len()
            &&& forall|i: int|
                0 <= i < a ==> #[trigger] bare[i] == '\'' || bare[i] == '"'
            &&& forall|i: int|
                b <= i < bare.len() ==> #[trigger] bare[i] == '\'' || bare[i] == '"'
            &&& a < b ==> bare[a] != '\'' && bare[a] != '"' && bare[b - 1] != '\'' && bare[b - 1]
                != '"'
        }),
    ensures
        ({
            let address = text::trim(value).subrange(a, b);
            let secure = address.len() >= 8 && address.subrange(0, 8) == "https://"@
                && !text::has_line_break(address);
            packaging::address_in(value) == (if secure {
                BuildAddressView::Address(address)
            } else {
                BuildAddressView::Invalid
            })
        }),
{
    let bare = text::trim(value);
    let n = bare.len() as int;
    let address = bare.subrange(a, b);
    assert(packaging::unquote_back(packaging::unquote_front(bare)) == address) by {
        if a < b {
            lemma_unquoted_front(bare, a);
            let rest = bare.subrange(a, n);
            assert forall|i: int| b - a <= i < rest.len() implies #[trigger] rest[i] == '\''
                || rest[i] == '"' by {
                assert(rest[i] == bare[a + i]);
            }
            assert(rest[b - a - 1] == bare[b - 1]);
            lemma_unquoted_back(rest, b - a);
            assert(rest.subrange(0, b - a) =~= address);
        } else {
            lemma_unquoted_front(bare, n);
            let rest = bare.subrange(n, n);
            lemma_unquoted_back(rest, 0);
            assert(rest.subrange(0, 0) =~= address);
        }
    }
    if address.len() >= 8 {
        assert(address.take(8) =~= address.subrange(0, 8));
    }
}

} // verus!
