//! What goes into the program when it is built: the icon file, and the address
//! that it starts out with.
use vstd::prelude::*;
use vstd::slice::slice_subrange;

use crate::branding;
use crate::branding::{icon_rgba, ICON_SIZE};
use crate::text;
use crate::text::{
    chars_of, first_index_of, lines_of, same_text, string_of, text_has_line_break, text_is_blank,
    trim_chars,
};

verus! {

/// The name of the environment variable, and of the entry in the environment
/// file, that holds the address.
pub const ADDRESS_KEY: &'static str = "GFE_DEFAULT_API_BASE_URL";

/// `n` in two bytes, the low one first.
pub open spec fn le16(n: int) -> Seq<u8> {
    seq![(n % 256) as u8, (n / 256) as u8]
}

/// `n` in four bytes, the low one first.
pub open spec fn le32(n: int) -> Seq<u8> {
    seq![
        (n % 256) as u8,
        (n / 256 % 256) as u8,
        (n / 65536 % 256) as u8,
        (n / 16777216) as u8,
    ]
}

/// The directory of an icon file with one image, and the header of the image: a
/// bitmap of `size` rows and columns at 32 bits, with a mask below it.
pub open spec fn icon_head(size: int, image_bytes: int) -> Seq<u8> {
    le16(0) + le16(1) + le16(1) + seq![size as u8, size as u8, 0u8, 0u8] + le16(1) + le16(32) + le32(
        image_bytes,
    ) + le32(22) + le32(40) + le32(size) + le32(size * 2) + le16(1) + le16(32) + le32(0) + le32(
        size * size * 4,
    ) + le32(0) + le32(0) + le32(0) + le32(0)
}

/// The place in the icon of byte `index` of the image: rows from the bottom up,
/// blue before red.
pub open spec fn icon_place(index: int) -> int {
    let pixel = index / 4;
    let row = ICON_SIZE - 1 - pixel / (ICON_SIZE as int);
    let column = pixel % (ICON_SIZE as int);
    let channel = index % 4;
    (row * ICON_SIZE + column) * 4 + if channel == 0 {
        2int
    } else if channel == 2 {
        0int
    } else {
        channel
    }
}

/// The image of an icon with these pixels.
pub open spec fn icon_image(rgba: Seq<u8>) -> Seq<u8> {
    Seq::new(4096, |i: int| rgba[icon_place(i)])
}

/// The pixels of the icon.
pub open spec fn icon_pixels() -> Seq<u8> {
    Seq::new((ICON_SIZE * ICON_SIZE * 4) as nat, |i: int| branding::icon_byte(i))
}

/// The mask: nothing is left out.
pub open spec fn icon_mask() -> Seq<u8> {
    Seq::new(128, |i: int| 0u8)
}

fn push16(data: &mut Vec<u8>, n: u16)
    ensures
        final(data)@ == old(data)@ + le16(n as int),
{
    data.push((n % 256) as u8);
    data.push((n / 256) as u8);
    assert(data@ =~= old(data)@ + le16(n as int));
}

fn push32(data: &mut Vec<u8>, n: u32)
    ensures
        final(data)@ == old(data)@ + le32(n as int),
{
    data.push((n % 256) as u8);
    data.push((n / 256 % 256) as u8);
    data.push((n / 65536 % 256) as u8);
    data.push((n / 16777216) as u8);
    assert(data@ =~= old(data)@ + le32(n as int));
}

fn push_head(data: &mut Vec<u8>)
    requires
        old(data)@.len() == 0,
    ensures
        final(data)@ == icon_head(32, 4264),
{
    push16(data, 0);
    push16(data, 1);
    push16(data, 1);
    data.push(32);
    data.push(32);
    data.push(0);
    data.push(0);
    assert(data@ =~= le16(0) + le16(1) + le16(1) + seq![32u8, 32u8, 0u8, 0u8]);
    push16(data, 1);
    push16(data, 32);
    push32(data, 4264);
    push32(data, 22);
    push32(data, 40);
    push32(data, 32);
    push32(data, 64);
    push16(data, 1);
    push16(data, 32);
    push32(data, 0);
    push32(data, 4096);
    push32(data, 0);
    push32(data, 0);
    push32(data, 0);
    push32(data, 0);
}

fn push_image(data: &mut Vec<u8>, rgba: &Vec<u8>)
    requires
        rgba@.len() == 4096,
    ensures
        final(data)@ == old(data)@ + icon_image(rgba@),
{
    let ghost head = data@;
    let ghost image = icon_image(rgba@);
    assert(data@ =~= head + image.take(0));
    for pixel in 0..1024usize
        invariant
            rgba@.len() == 4096,
            image == icon_image(rgba@),
            data@ == head + image.take(pixel * 4),
    {
        let row: usize = 31 - pixel / 32;
        let column: usize = pixel % 32;
        let index: usize = (row * 32 + column) * 4;
        proof {
            assert(icon_place(pixel * 4) == index + 2);
            assert(icon_place(pixel * 4 + 1) == index + 1);
            assert(icon_place(pixel * 4 + 2) == index);
            assert(icon_place(pixel * 4 + 3) == index + 3);
        }
        data.push(rgba[index + 2]);
        data.push(rgba[index + 1]);
        data.push(rgba[index]);
        data.push(rgba[index + 3]);
        assert(data@ =~= head + image.take(pixel * 4 + 4));
    }
    assert(image.take(4096) =~= image);
}

fn push_mask(data: &mut Vec<u8>)
    ensures
        final(data)@ == old(data)@ + icon_mask(),
{
    let ghost shown = data@;
    assert(data@ =~= shown + icon_mask().take(0));
    for i in 0..128usize
        invariant
            data@ == shown + icon_mask().take(i as int),
    {
        data.push(0);
        assert(data@ =~= shown + icon_mask().take(i + 1));
    }
    assert(icon_mask().take(128) =~= icon_mask());
}

/// The icon file. Behind its directory it is as long as that says.
pub fn icon_file() -> (data: Vec<u8>)
    ensures
        data@ == icon_head(32, 4264) + icon_image(icon_pixels()) + icon_mask(),
        data@.len() == 22 + 4264,
{
    let rgba = icon_rgba();
    let mut data: Vec<u8> = Vec::new();
    push_head(&mut data);
    push_image(&mut data, &rgba);
    push_mask(&mut data);
    data
}

/// The name and the value in a line of an environment file, where it holds an
/// entry.
pub open spec fn entry_in(line: Seq<char>) -> Option<(Seq<char>, Seq<char>)> {
    let bare = text::trim(line);
    let i = text::first_index(bare, '=') as int;
    if bare.len() == 0 || bare[0] == '#' || i >= bare.len() {
        None
    } else {
        Some((text::trim(bare.take(i)), text::trim(bare.skip(i + 1))))
    }
}

/// The value of the first entry with that name.
pub open spec fn value_in(lines: Seq<Seq<char>>, key: Seq<char>) -> Option<Seq<char>>
    decreases lines.len(),
{
    if lines.len() == 0 {
        None
    } else {
        match entry_in(lines[0]) {
            Some(entry) if entry.0 == key => Some(entry.1),
            _ => value_in(lines.skip(1), key),
        }
    }
}

fn value_on(line: &str, key: &str) -> (value: Option<String>)
    ensures
        text::text_option(value) == (match entry_in(line@) {
            Some(entry) if entry.0 == key@ => Some(entry.1),
            _ => None,
        }),
{
    let chars = chars_of(line);
    let bare = trim_chars(chars.as_slice());
    let i = first_index_of(bare, '=');
    if bare.len() == 0 || bare[0] == '#' || i >= bare.len() {
        return None;
    }
    assert(bare@.subrange(0, i as int) =~= bare@.take(i as int));
    assert(bare@.subrange(i + 1, bare@.len() as int) =~= bare@.skip(i + 1));
    let name = string_of(trim_chars(slice_subrange(bare, 0, i)));
    if !same_text(name.as_str(), key) {
        return None;
    }
    Some(string_of(trim_chars(slice_subrange(bare, i + 1, bare.len()))))
}

/// The value of an entry of an environment file.
pub fn read_dotenv_value(contents: &str, key: &str) -> (value: Option<String>)
    ensures
        text::text_option(value) == value_in(text::lines(contents@), key@),
{
    let lines = lines_of(contents);
    let ghost all = text::texts(lines@);
    assert(all.skip(0) =~= all);
    for i in 0..lines.len()
        invariant
            all == text::texts(lines@),
            all == text::lines(contents@),
            value_in(all, key@) == value_in(all.skip(i as int), key@),
    {
        proof {
            let rest = all.skip(i as int);
            assert(rest[0] == lines@[i as int]@);
            assert(rest.skip(1) =~= all.skip(i + 1));
        }
        match value_on(lines[i].as_str(), key) {
            Some(value) => return Some(value),
            None => {},
        }
    }
    None
}

pub open spec fn is_quote(c: char) -> bool {
    c == '\'' || c == '"'
}

/// `value` without the quotes in front.
pub open spec fn unquote_front(value: Seq<char>) -> Seq<char>
    decreases value.len(),
{
    if value.len() > 0 && is_quote(value[0]) {
        unquote_front(value.skip(1))
    } else {
        value
    }
}

/// `value` without the quotes behind.
pub open spec fn unquote_back(value: Seq<char>) -> Seq<char>
    decreases value.len(),
{
    if value.len() > 0 && is_quote(value.last()) {
        unquote_back(value.drop_last())
    } else {
        value
    }
}

fn unquoted(chars: &[char]) -> (part: &[char])
    ensures
        part@ == unquote_back(unquote_front(chars@)),
{
    let mut a: usize = 0;
    assert(chars@.skip(0) =~= chars@);
    while a < chars.len() && (chars[a] == '\'' || chars[a] == '"')
        invariant
            a <= chars@.len(),
            unquote_front(chars@) == unquote_front(chars@.skip(a as int)),
        decreases chars@.len() - a,
    {
        assert(chars@.skip(a as int)[0] == chars@[a as int]);
        assert(chars@.skip(a as int).skip(1) =~= chars@.skip(a + 1));
        a += 1;
    }
    let ghost rest = unquote_front(chars@);
    assert(rest =~= chars@.skip(a as int));
    let mut b: usize = chars.len();
    assert(chars@.subrange(a as int, b as int) =~= rest);
    while b > a && (chars[b - 1] == '\'' || chars[b - 1] == '"')
        invariant
            a <= b <= chars@.len(),
            unquote_back(rest) == unquote_back(chars@.subrange(a as int, b as int)),
        decreases b - a,
    {
        proof {
            let part = chars@.subrange(a as int, b as int);
            assert(part.last() == chars@[b - 1]);
            assert(part.drop_last() =~= chars@.subrange(a as int, b - 1));
        }
        b -= 1;
    }
    slice_subrange(chars, a, b)
}

/// The address that the program starts out with.
#[derive(Debug, PartialEq, Eq)]
pub enum BuildAddress {
    /// None is given: a stand-in is used.
    Placeholder,
    Address(String),
    /// One is given that cannot be used.
    Invalid,
}

/// The address, with its text as a sequence of characters.
pub enum BuildAddressView {
    Placeholder,
    Address(Seq<char>),
    Invalid,
}

impl View for BuildAddress {
    type V = BuildAddressView;

    open spec fn view(&self) -> BuildAddressView {
        match self {
            BuildAddress::Placeholder => BuildAddressView::Placeholder,
            BuildAddress::Address(address) => BuildAddressView::Address(address@),
            BuildAddress::Invalid => BuildAddressView::Invalid,
        }
    }
}

/// The address in `value`: it is one by HTTPS, and stands on one line.
pub open spec fn address_in(value: Seq<char>) -> BuildAddressView {
    let address = unquote_back(unquote_front(text::trim(value)));
    if address.len() >= 8 && address.take(8) == "https://"@ && !text::has_line_break(address) {
        BuildAddressView::Address(address)
    } else {
        BuildAddressView::Invalid
    }
}

/// The address that is given: by the environment, else by the environment file.
pub open spec fn given_address(variable: Option<Seq<char>>, file: Option<Seq<char>>) -> Option<
    Seq<char>,
> {
    if variable is Some && !text::is_blank(variable->0) {
        variable
    } else {
        match file {
            Some(contents) => value_in(text::lines(contents), ADDRESS_KEY@),
            None => None,
        }
    }
}

fn check_address(value: &str) -> (address: BuildAddress)
    ensures
        address@ == address_in(value@),
{
    let chars = chars_of(value);
    let bare = unquoted(trim_chars(chars.as_slice()));
    let address = string_of(bare);
    proof {
        reveal_strlit("https://");
    }
    if bare.len() < 8 {
        return BuildAddress::Invalid;
    }
    assert(bare@.subrange(0, 8) =~= bare@.take(8));
    let scheme = string_of(slice_subrange(bare, 0, 8));
    if !same_text(scheme.as_str(), "https://") || text_has_line_break(address.as_str()) {
        return BuildAddress::Invalid;
    }
    BuildAddress::Address(address)
}

/// The address that the program starts out with, given the environment variable
/// and the environment file, where they are there.
pub fn build_address(variable: Option<String>, file: Option<String>) -> (address: BuildAddress)
    ensures
        address@ == (match given_address(text::text_option(variable), text::text_option(file)) {
            Some(value) => address_in(value),
            None => BuildAddressView::Placeholder,
        }),
{
    match variable {
        Some(value) => if !text_is_blank(value.as_str()) {
            return check_address(value.as_str());
        },
        None => {},
    }
    match file {
        Some(contents) => match read_dotenv_value(contents.as_str(), ADDRESS_KEY) {
            Some(value) => check_address(value.as_str()),
            None => BuildAddress::Placeholder,
        },
        None => BuildAddress::Placeholder,
    }
}

} // verus!
