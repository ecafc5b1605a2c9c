//! The settings: what they hold, when they are usable, and how pasted values
//! are put into shape.
use std::path::PathBuf;
use vstd::prelude::*;
use vstd::slice::slice_subrange;
use vstd::string::*;

use crate::number;
use crate::number::{bounded_digits, chars_are_digits};
use crate::text;
use crate::text::{
    chars_of, chars_start_ignoring_case, char_is_ascii_white, same_text, split_text, string_of,
    text_has_line_break, text_is_blank, text_same_ignoring_case, trim_chars, trimmed,
};

verus! {

pub const DEFAULT_API_BASE_URL: &'static str = "https://example.invalid";

pub const DEFAULT_HOTKEY: &'static str = "Ctrl+Alt+U";

/// What is kept from one run to the next.
#[derive(Debug, Clone)]
pub struct AppSettings {
    pub api_base_url: String,
    pub encrypted_token: String,
    pub receiver_users: Vec<String>,
    pub exchange_type: u8,
    pub hotkey: String,
    pub usage_api_base_url: String,
    pub encrypted_usage_api_key: String,
}

/// The settings, with their texts as sequences of characters.
pub struct SettingsView {
    pub api_base_url: Seq<char>,
    pub encrypted_token: Seq<char>,
    pub receiver_users: Seq<Seq<char>>,
    pub exchange_type: u8,
    pub hotkey: Seq<char>,
    pub usage_api_base_url: Seq<char>,
    pub encrypted_usage_api_key: Seq<char>,
}

impl View for AppSettings {
    type V = SettingsView;

    open spec fn view(&self) -> SettingsView {
        SettingsView {
            api_base_url: self.api_base_url@,
            encrypted_token: self.encrypted_token@,
            receiver_users: text::texts(self.receiver_users@),
            exchange_type: self.exchange_type,
            hotkey: self.hotkey@,
            usage_api_base_url: self.usage_api_base_url@,
            encrypted_usage_api_key: self.encrypted_usage_api_key@,
        }
    }
}

/// What is wrong with the text of a hotkey.
#[derive(Debug, Clone, Copy, PartialEq, Eq, Structural)]
pub enum HotkeyError {
    /// There is no modifier in front of a key.
    NoModifier,
    /// A part in front is no modifier, or the last part is no key.
    Malformed,
}

/// Why settings cannot be used or stored.
#[derive(Debug, Clone, Copy, PartialEq, Eq, Structural)]
pub enum SettingsError {
    /// The address is no URL.
    InvalidUrl,
    /// The address is a URL, but not an HTTPS one with a host.
    NotHttps,
    /// Nobody is to receive the files.
    NoReceivers,
    /// The direction is neither of the two.
    InvalidDirection,
    /// The hotkey cannot be used.
    Hotkey(HotkeyError),
    /// There is no token.
    MissingToken,
}

/// A token that cannot stand in a request header.
#[derive(Debug, Clone, Copy, PartialEq, Eq, Structural)]
pub struct InvalidToken;

impl HotkeyError {
    pub open spec fn wording(self) -> Seq<char> {
        match self {
            HotkeyError::NoModifier => "快捷键必须包含至少一个修饰键，例如 Ctrl+Alt+U"@,
            HotkeyError::Malformed => "快捷键格式无效，请使用 Ctrl+Alt+U 这样的格式"@,
        }
    }

    /// What the user reads.
    pub fn message(self) -> (message: String)
        ensures
            message@ == self.wording(),
    {
        match self {
            HotkeyError::NoModifier => "快捷键必须包含至少一个修饰键，例如 Ctrl+Alt+U".to_owned(),
            HotkeyError::Malformed => "快捷键格式无效，请使用 Ctrl+Alt+U 这样的格式".to_owned(),
        }
    }
}

impl SettingsError {
    pub open spec fn wording(self) -> Seq<char> {
        match self {
            SettingsError::InvalidUrl => "API 地址格式无效"@,
            SettingsError::NotHttps => "API 地址必须是有效的 HTTPS 地址"@,
            SettingsError::NoReceivers => "请至少填写一个接收人的域账号"@,
            SettingsError::InvalidDirection => "传输方向无效"@,
            SettingsError::Hotkey(error) => error.wording(),
            SettingsError::MissingToken => "请填写个人令牌"@,
        }
    }

    /// What the user reads.
    pub fn message(self) -> (message: String)
        ensures
            message@ == self.wording(),
    {
        match self {
            SettingsError::InvalidUrl => "API 地址格式无效".to_owned(),
            SettingsError::NotHttps => "API 地址必须是有效的 HTTPS 地址".to_owned(),
            SettingsError::NoReceivers => "请至少填写一个接收人的域账号".to_owned(),
            SettingsError::InvalidDirection => "传输方向无效".to_owned(),
            SettingsError::Hotkey(error) => error.message(),
            SettingsError::MissingToken => "请填写个人令牌".to_owned(),
        }
    }
}

impl InvalidToken {
    /// What the user reads.
    pub fn message(self) -> (message: String)
        ensures
            message@ == "个人令牌无效"@,
    {
        "个人令牌无效".to_owned()
    }
}

/// The parts of a URL that matter here.
#[derive(Debug, Clone)]
pub struct UrlParts {
    pub scheme: String,
    pub host: Option<String>,
}

/// The parts of a URL, with their texts as sequences of characters.
pub struct UrlView {
    pub scheme: Seq<char>,
    pub host: Option<Seq<char>>,
}

impl View for UrlParts {
    type V = UrlView;

    open spec fn view(&self) -> UrlView {
        UrlView { scheme: self.scheme@, host: text::text_option(self.host) }
    }
}

/// The view of what a parse of a URL gives.
pub open spec fn url_view(url: Option<UrlParts>) -> Option<UrlView> {
    match url {
        Some(parts) => Some(parts@),
        None => None,
    }
}

/// The scheme and the host of `address`, where it is an absolute URL: what
/// `Url::parse` of the crate `url` makes of it.
pub uninterp spec fn parsed_url(address: Seq<char>) -> Option<UrlView>;

/// `Url::parse` of the crate `url`, with `scheme` and `host_str` of the result.
/// Claims that these are settled by the text alone; what the URL grammar makes
/// of a given text is left to that crate.
#[verifier::external_body]
fn parse_url(address: &str) -> (parts: Option<UrlParts>)
    ensures
        url_view(parts) == parsed_url(address@),
{
    match url::Url::parse(address) {
        Ok(url) => Some(
            UrlParts {
                scheme: url.scheme().to_owned(),
                host: url.host_str().map(|host| host.to_owned()),
            },
        ),
        Err(_) => None,
    }
}

/// The receivers in `values`: each without white space at its ends, none empty,
/// and none that stood before, whatever the case of its letters.
pub open spec fn receivers_of(values: Seq<Seq<char>>) -> Seq<Seq<char>>
    decreases values.len(),
{
    if values.len() == 0 {
        seq![]
    } else {
        let before = receivers_of(values.drop_last());
        let name = text::trim(values.last());
        if name.len() > 0 && !listed(before, name) {
            before.push(name)
        } else {
            before
        }
    }
}

/// Whether `name` stands in `list`, up to the case of its letters.
pub open spec fn listed(list: Seq<Seq<char>>, name: Seq<char>) -> bool {
    exists|i: int| 0 <= i < list.len() && text::same_ignoring_case(#[trigger] list[i], name)
}

/// The pieces that are not blank, without the white space at their ends.
pub open spec fn kept_parts(pieces: Seq<Seq<char>>) -> Seq<Seq<char>>
    decreases pieces.len(),
{
    if pieces.len() == 0 {
        seq![]
    } else {
        let part = text::trim(pieces.last());
        if part.len() > 0 {
            kept_parts(pieces.drop_last()).push(part)
        } else {
            kept_parts(pieces.drop_last())
        }
    }
}

/// The keys that a hotkey names, in order.
pub open spec fn hotkey_parts(value: Seq<char>) -> Seq<Seq<char>> {
    kept_parts(text::split_on(value, '+'))
}

/// Whether `part` names a modifier.
pub open spec fn is_modifier(part: Seq<char>) -> bool {
    ||| text::same_ignoring_case(part, "ctrl"@)
    ||| text::same_ignoring_case(part, "alt"@)
    ||| text::same_ignoring_case(part, "shift"@)
    ||| text::same_ignoring_case(part, "win"@)
    ||| text::same_ignoring_case(part, "super"@)
}

/// Whether `c` is an ASCII letter or digit.
pub open spec fn is_ascii_alphanumeric(c: char) -> bool {
    let n = c as u32;
    number::is_digit(c) || 0x41 <= n <= 0x5a || 0x61 <= n <= 0x7a
}

/// Whether `part` names a key: a letter, a digit, or one of F1 to F24.
pub open spec fn is_key(part: Seq<char>) -> bool {
    ||| part.len() == 1 && is_ascii_alphanumeric(part[0])
    ||| part.len() > 1 && (part[0] == 'F' || part[0] == 'f') && number::all_digits(part.skip(1))
        && 1 <= number::digits_value(part.skip(1)) <= 24
}

/// Whether all parts but the last are modifiers.
pub open spec fn led_by_modifiers(parts: Seq<Seq<char>>) -> bool {
    forall|i: int| 0 <= i < parts.len() - 1 ==> is_modifier(#[trigger] parts[i])
}

/// Whether `value` names a hotkey: one or more modifiers, then a key.
pub open spec fn hotkey_verdict(value: Seq<char>) -> Result<(), HotkeyError> {
    let parts = hotkey_parts(value);
    if parts.len() < 2 {
        Err(HotkeyError::NoModifier)
    } else if led_by_modifiers(parts) && is_key(parts.last()) {
        Ok(())
    } else {
        Err(HotkeyError::Malformed)
    }
}

impl SettingsView {
    /// The settings of a first start.
    pub open spec fn initial() -> SettingsView {
        SettingsView {
            api_base_url: DEFAULT_API_BASE_URL@,
            encrypted_token: Seq::empty(),
            receiver_users: Seq::empty(),
            exchange_type: 2,
            hotkey: DEFAULT_HOTKEY@,
            usage_api_base_url: Seq::empty(),
            encrypted_usage_api_key: Seq::empty(),
        }
    }

    /// Whether everything but the token is in order, given what the address
    /// parses to. The first fault found is the one reported.
    pub open spec fn verdict(self, url: Option<UrlView>) -> Result<(), SettingsError> {
        if url is None {
            Err(SettingsError::InvalidUrl)
        } else if url->0.scheme != "https"@ || url->0.host is None {
            Err(SettingsError::NotHttps)
        } else if self.receiver_users.len() == 0 {
            Err(SettingsError::NoReceivers)
        } else if self.exchange_type != 1 && self.exchange_type != 2 {
            Err(SettingsError::InvalidDirection)
        } else {
            match hotkey_verdict(self.hotkey) {
                Ok(_) => Ok(()),
                Err(error) => Err(SettingsError::Hotkey(error)),
            }
        }
    }

    /// Whether everything but the token is in order.
    pub open spec fn own_verdict(self) -> Result<(), SettingsError> {
        self.verdict(parsed_url(text::trim(self.api_base_url)))
    }

    /// Whether files can be uploaded with these settings.
    pub open spec fn configured(self) -> bool {
        self.own_verdict() is Ok && self.encrypted_token.len() > 0
    }

    /// Whether the usage of the interface can be asked for.
    pub open spec fn usage_configured(self) -> bool {
        !text::is_blank(self.usage_api_base_url) && self.encrypted_usage_api_key.len() > 0
    }
}

impl Default for AppSettings {
    fn default() -> (settings: Self)
        ensures
            settings@ == SettingsView::initial(),
    {
        let settings = AppSettings {
            api_base_url: DEFAULT_API_BASE_URL.to_owned(),
            encrypted_token: String::new(),
            receiver_users: Vec::new(),
            exchange_type: 2,
            hotkey: DEFAULT_HOTKEY.to_owned(),
            usage_api_base_url: String::new(),
            encrypted_usage_api_key: String::new(),
        };
        assert(settings@.receiver_users =~= Seq::empty());
        settings
    }
}

impl AppSettings {
    /// Whether files can be uploaded with these settings.
    pub fn is_configured(&self) -> (configured: bool)
        ensures
            configured == self@.configured(),
    {
        self.validate_without_token().is_ok() && !self.encrypted_token.as_str().is_empty()
    }

    /// Whether the usage of the interface can be asked for.
    pub fn has_usage_query_config(&self) -> (configured: bool)
        ensures
            configured == self@.usage_configured(),
    {
        !text_is_blank(self.usage_api_base_url.as_str())
            && !self.encrypted_usage_api_key.as_str().is_empty()
    }

    /// Puts a list of receivers into shape.
    pub fn normalize_receivers(values: Vec<String>) -> (result: Vec<String>)
        ensures
            text::texts(result@) == receivers_of(text::texts(values@)),
    {
        let mut result: Vec<String> = Vec::new();
        assert(text::texts(result@) =~= receivers_of(text::texts(values@.take(0))));
        for i in 0..values.len()
            invariant
                text::texts(result@) == receivers_of(text::texts(values@.take(i as int))),
        {
            let ghost before = result@;
            let value = trimmed(values[i].as_str());
            let repeated = is_listed(&result, value.as_str());
            proof {
                let longer = text::texts(values@.take(i + 1));
                assert(longer.drop_last() =~= text::texts(values@.take(i as int)));
                assert(longer.last() == values@[i as int]@);
            }
            if !value.as_str().is_empty() && !repeated {
                result.push(value);
                assert(text::texts(result@) =~= text::texts(before).push(value@));
            }
        }
        assert(values@.take(values@.len() as int) =~= values@);
        result
    }

    /// Tells whether everything but the token is in order.
    pub fn validate_without_token(&self) -> (verdict: Result<(), SettingsError>)
        ensures
            verdict == self@.own_verdict(),
    {
        let address = trimmed(self.api_base_url.as_str());
        let url = parse_url(address.as_str());
        self.validate_with_url(&url)
    }

    /// Tells whether everything but the token is in order, given what the
    /// address parses to.
    pub fn validate_with_url(&self, url: &Option<UrlParts>) -> (verdict: Result<(), SettingsError>)
        ensures
            verdict == self@.verdict(url_view(*url)),
    {
        match url {
            None => return Err(SettingsError::InvalidUrl),
            Some(parts) => {
                if !same_text(parts.scheme.as_str(), "https") || parts.host.is_none() {
                    return Err(SettingsError::NotHttps);
                }
            },
        }
        if self.receiver_users.len() == 0 {
            return Err(SettingsError::NoReceivers);
        }
        if self.exchange_type != 1 && self.exchange_type != 2 {
            return Err(SettingsError::InvalidDirection);
        }
        match validate_hotkey_text(self.hotkey.as_str()) {
            Ok(()) => Ok(()),
            Err(error) => Err(SettingsError::Hotkey(error)),
        }
    }
}

fn is_listed(list: &Vec<String>, name: &str) -> (found: bool)
    ensures
        found == listed(text::texts(list@), name@),
{
    for i in 0..list.len()
        invariant
            forall|j: int|
                0 <= j < i ==> !text::same_ignoring_case(
                    #[trigger] text::texts(list@)[j],
                    name@,
                ),
    {
        if text_same_ignoring_case(list[i].as_str(), name) {
            assert(text::same_ignoring_case(text::texts(list@)[i as int], name@));
            return true;
        }
    }
    false
}

/// The settings to work with, given what the file holds.
pub open spec fn loaded(stored: Option<SettingsView>) -> SettingsView {
    match stored {
        Some(found) => found,
        None => SettingsView::initial(),
    }
}

/// What the file holds once settings were to be saved, given what it held: the
/// settings, where they may be stored.
pub open spec fn stored_after(stored: Option<SettingsView>, settings: SettingsView) -> Option<
    SettingsView,
> {
    if settings.configured() {
        Some(settings)
    } else {
        stored
    }
}

/// The file that the settings are kept in.
#[derive(Debug)]
pub struct SettingsStore {
    path: PathBuf,
}

impl SettingsStore {
    /// The file.
    pub closed spec fn file(self) -> PathBuf {
        self.path
    }

    pub fn new(path: PathBuf) -> (store: Self)
        ensures
            store.file() == path,
    {
        SettingsStore { path }
    }

    pub fn path(&self) -> (path: &PathBuf)
        ensures
            *path == self.file(),
    {
        &self.path
    }

    /// The settings to work with, given what the file holds: those of a first
    /// start where it cannot be read or understood.
    pub fn load(&self, stored: Option<AppSettings>) -> (settings: AppSettings)
        ensures
            settings@ == loaded(
                match stored {
                    Some(found) => Some(found@),
                    None => None,
                },
            ),
    {
        match stored {
            Some(found) => found,
            None => AppSettings::default(),
        }
    }

    /// The file to write the settings to, or why they are not to be stored.
    pub fn save(&self, settings: &AppSettings) -> (target: Result<&PathBuf, SettingsError>)
        ensures
            match settings@.own_verdict() {
                Err(error) => target == Err::<&PathBuf, SettingsError>(error),
                Ok(_) => if settings@.encrypted_token.len() == 0 {
                    target == Err::<&PathBuf, SettingsError>(SettingsError::MissingToken)
                } else {
                    target == Ok::<&PathBuf, SettingsError>(&self.file())
                },
            },
            target is Ok <==> settings@.configured(),
            forall|stored: Option<SettingsView>| #[trigger]
                stored_after(stored, settings@) == (if target is Ok {
                    Some(settings@)
                } else {
                    stored
                }),
    {
        match settings.validate_without_token() {
            Err(error) => return Err(error),
            Ok(()) => {},
        }
        if settings.encrypted_token.as_str().is_empty() {
            return Err(SettingsError::MissingToken);
        }
        Ok(&self.path)
    }
}

/// Whether `token` starts with `prefix` and white space, and more follows.
pub open spec fn carries(token: Seq<char>, prefix: Seq<char>) -> bool {
    &&& token.len() > prefix.len()
    &&& text::starts_with_ignoring_case(token, prefix)
    &&& text::is_ascii_white(token[prefix.len() as int])
}

/// The bare token in a pasted text: without the white space at its ends and
/// without one `Bearer` or `Bear` in front.
pub open spec fn token_of(value: Seq<char>) -> Seq<char> {
    let token = text::trim(value);
    if carries(token, "bearer"@) {
        text::trim(token.skip(6))
    } else if carries(token, "bear"@) {
        text::trim(token.skip(4))
    } else {
        token
    }
}

fn chars_carry(token: &[char], prefix: &str) -> (carried: bool)
    ensures
        carried == carries(token@, prefix@),
{
    let length = chars_of(prefix).len();
    token.len() > length && chars_start_ignoring_case(token, prefix) && char_is_ascii_white(
        token[length],
    )
}

/// The bare token in a pasted text.
pub fn normalize_token(value: &str) -> (token: String)
    ensures
        token@ == token_of(value@),
{
    let chars = chars_of(value);
    let token = trim_chars(chars.as_slice());
    proof {
        reveal_strlit("bearer");
        reveal_strlit("bear");
    }
    if chars_carry(token, "bearer") {
        assert(token@.subrange(6, token@.len() as int) =~= token@.skip(6));
        return string_of(trim_chars(slice_subrange(token, 6, token.len())));
    }
    if chars_carry(token, "bear") {
        assert(token@.subrange(4, token@.len() as int) =~= token@.skip(4));
        return string_of(trim_chars(slice_subrange(token, 4, token.len())));
    }
    string_of(token)
}

/// The `Authorization` header that goes with a token.
pub open spec fn header_of(value: Seq<char>) -> Result<Seq<char>, InvalidToken> {
    let token = token_of(value);
    if token.len() == 0 || text::has_line_break(token) {
        Err(InvalidToken)
    } else {
        Ok("Bear "@ + token)
    }
}

/// The `Authorization` header of an upload.
pub fn authorization_header(token: &str) -> (header: Result<String, InvalidToken>)
    ensures
        match header_of(token@) {
            Ok(expected) => header matches Ok(made) && made@ == expected,
            Err(error) => header == Err::<String, InvalidToken>(error),
        },
{
    let token = normalize_token(token);
    if token.as_str().is_empty() || text_has_line_break(token.as_str()) {
        return Err(InvalidToken);
    }
    Ok("Bear ".to_owned().concat(token.as_str()))
}

fn part_is_modifier(part: &str) -> (found: bool)
    ensures
        found == is_modifier(part@),
{
    text_same_ignoring_case(part, "ctrl") || text_same_ignoring_case(part, "alt")
        || text_same_ignoring_case(part, "shift") || text_same_ignoring_case(part, "win")
        || text_same_ignoring_case(part, "super")
}

fn part_is_key(part: &str) -> (found: bool)
    ensures
        found == is_key(part@),
{
    let chars = chars_of(part);
    if chars.len() == 0 {
        return false;
    }
    let first: char = chars[0];
    if chars.len() == 1 {
        let n: u32 = first as u32;
        return (48 <= n && n <= 57) || (65 <= n && n <= 90) || (97 <= n && n <= 122);
    }
    if first != 'F' && first != 'f' {
        return false;
    }
    assert(chars@.subrange(1, chars@.len() as int) =~= part@.skip(1));
    let digits = slice_subrange(chars.as_slice(), 1, chars.len());
    if !chars_are_digits(digits) {
        return false;
    }
    match bounded_digits(digits, 24) {
        Some(n) => n >= 1,
        None => false,
    }
}

/// Tells whether `value` names a hotkey.
pub fn validate_hotkey_text(value: &str) -> (verdict: Result<(), HotkeyError>)
    ensures
        verdict == hotkey_verdict(value@),
{
    let pieces = split_text(value, '+');
    let mut parts: Vec<String> = Vec::new();
    assert(text::texts(parts@) =~= kept_parts(text::texts(pieces@.take(0))));
    for i in 0..pieces.len()
        invariant
            text::texts(parts@) == kept_parts(text::texts(pieces@.take(i as int))),
    {
        let ghost before = parts@;
        let part = trimmed(pieces[i].as_str());
        proof {
            let longer = text::texts(pieces@.take(i + 1));
            assert(longer.drop_last() =~= text::texts(pieces@.take(i as int)));
            assert(longer.last() == pieces@[i as int]@);
        }
        if !part.as_str().is_empty() {
            parts.push(part);
            assert(text::texts(parts@) =~= text::texts(before).push(part@));
        }
    }
    assert(pieces@.take(pieces@.len() as int) =~= pieces@);
    if parts.len() < 2 {
        return Err(HotkeyError::NoModifier);
    }
    let last: usize = parts.len() - 1;
    for i in 0..last
        invariant
            last == parts@.len() - 1,
            text::texts(parts@) == hotkey_parts(value@),
            forall|j: int| 0 <= j < i ==> is_modifier(#[trigger] text::texts(parts@)[j]),
    {
        if !part_is_modifier(parts[i].as_str()) {
            assert(!is_modifier(text::texts(parts@)[i as int]));
            return Err(HotkeyError::Malformed);
        }
    }
    if part_is_key(parts[last].as_str()) {
        Ok(())
    } else {
        Err(HotkeyError::Malformed)
    }
}

} // verus!
