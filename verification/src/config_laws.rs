//! What holds of receivers and tokens once they were put into shape, and of
//! settings once they were saved.
use vstd::prelude::*;

use crate::config;
use crate::config::{AppSettings, SettingsError, SettingsView, UrlParts, UrlView};
use crate::text;
use crate::text_laws;

verus! {

/// Whether the receivers are as they are kept: none is empty, none has white
/// space at its ends, and no two agree up to the case of their letters.
pub open spec fn are_clean(receivers: Seq<Seq<char>>) -> bool {
    &&& forall|i: int|
        0 <= i < receivers.len() ==> (#[trigger] receivers[i]).len() > 0 && text::is_trimmed(
            receivers[i],
        )
    &&& forall|i: int, j: int|
        0 <= i < j < receivers.len() ==> !text::same_ignoring_case(
            #[trigger] receivers[i],
            #[trigger] receivers[j],
        )
}

/// The receivers in a list are clean, each is one of the list, and each of the
/// list that is not blank is among them, up to the case of its letters.
pub proof fn receivers_are_clean(values: Seq<Seq<char>>)
    ensures
        are_clean(config::receivers_of(values)),
        forall|i: int|
            0 <= i < config::receivers_of(values).len() ==> exists|k: int|
                0 <= k < values.len() && text::trim(#[trigger] values[k])
                    == #[trigger] config::receivers_of(values)[i],
        forall|k: int|
            0 <= k < values.len() && !text::is_blank(#[trigger] values[k]) ==> config::listed(
                config::receivers_of(values),
                text::trim(values[k]),
            ),
    decreases values.len(),
{
    if values.len() > 0 {
        let shorter = values.drop_last();
        receivers_are_clean(shorter);
        let before = config::receivers_of(shorter);
        let result = config::receivers_of(values);
        let name = text::trim(values.last());
        let _ = text::lemma_trim(values.last());
        assert forall|i: int, j: int| 0 <= i < j < result.len() implies !text::same_ignoring_case(
            #[trigger] result[i],
            #[trigger] result[j],
        ) by {
            if j < before.len() {
                assert(!text::same_ignoring_case(before[i], before[j]));
            } else {
                assert(result[i] == before[i] && result[j] == name);
            }
        }
        assert forall|i: int| 0 <= i < result.len() implies exists|k: int|
            0 <= k < values.len() && text::trim(#[trigger] values[k]) == #[trigger] result[i] by {
            if i < before.len() {
                let k = choose|k: int|
                    0 <= k < shorter.len() && text::trim(#[trigger] shorter[k]) == before[i];
                assert(values[k] == shorter[k]);
            } else {
                assert(text::trim(values[values.len() - 1]) == result[i]);
            }
        }
        assert forall|k: int| 0 <= k < values.len() && !text::is_blank(#[trigger] values[k]) implies
            config::listed(result, text::trim(values[k])) by {
            if k < shorter.len() {
                assert(shorter[k] == values[k]);
                let i = choose|i: int|
                    0 <= i < before.len() && text::same_ignoring_case(
                        #[trigger] before[i],
                        text::trim(values[k]),
                    );
                assert(result[i] == before[i]);
            } else {
                assert(values[k] == values.last());
                if config::listed(before, name) {
                    let i = choose|i: int|
                        0 <= i < before.len() && text::same_ignoring_case(
                            #[trigger] before[i],
                            name,
                        );
                    assert(result[i] == before[i]);
                } else {
                    assert(text::same_ignoring_case(result[result.len() - 1], name));
                }
            }
        }
    }
}

/// Clean receivers are left as they are.
pub proof fn clean_receivers_stay(receivers: Seq<Seq<char>>)
    requires
        are_clean(receivers),
    ensures
        config::receivers_of(receivers) == receivers,
    decreases receivers.len(),
{
    if receivers.len() > 0 {
        let shorter = receivers.drop_last();
        assert(are_clean(shorter)) by {
            assert forall|i: int, j: int| 0 <= i < j < shorter.len() implies
                !text::same_ignoring_case(#[trigger] shorter[i], #[trigger] shorter[j]) by {
                assert(shorter[i] == receivers[i] && shorter[j] == receivers[j]);
            }
        }
        clean_receivers_stay(shorter);
        let name = receivers.last();
        let last = receivers.len() - 1;
        assert(receivers[last] == name);
        text::lemma_trimmed_stays(name);
        assert(!config::listed(shorter, name)) by {
            assert forall|i: int| 0 <= i < shorter.len() implies !text::same_ignoring_case(
                #[trigger] shorter[i],
                name,
            ) by {
                assert(shorter[i] == receivers[i]);
                assert(!text::same_ignoring_case(receivers[i], receivers[last]));
            }
        }
        assert(config::receivers_of(receivers) =~= receivers);
    } else {
        assert(config::receivers_of(receivers) =~= receivers);
    }
}

/// Putting receivers into shape a second time changes nothing.
pub proof fn receivers_settle_at_once(values: Seq<Seq<char>>)
    ensures
        config::receivers_of(config::receivers_of(values)) == config::receivers_of(values),
{
    receivers_are_clean(values);
    clean_receivers_stay(config::receivers_of(values));
}

/// A bare token has no white space at its ends, and there is one in every text
/// that is not blank.
pub proof fn bare_tokens_are_trimmed(value: Seq<char>)
    ensures
        text::is_trimmed(config::token_of(value)),
        !text::is_blank(value) ==> config::token_of(value).len() > 0,
{
    let token = text::trim(value);
    let _ = text::lemma_trim(value);
    reveal_strlit("bearer");
    reveal_strlit("bear");
    let n: int = if config::carries(token, "bearer"@) {
        6
    } else if config::carries(token, "bear"@) {
        4
    } else {
        0
    };
    if n > 0 {
        let rest = token.skip(n);
        let (a, b) = text::lemma_trim(rest);
        assert(rest[rest.len() - 1] == token.last());
        assert(b == rest.len());
        assert(a < b);
    }
}

proof fn lemma_prefixed(prefix: Seq<char>, white: char, value: Seq<char>)
    requires
        prefix.len() > 0,
        !text::is_white(prefix[0]),
        text::is_white(white),
        !text::is_blank(value),
    ensures
        ({
            let whole = prefix + seq![white] + value;
            let token = text::trim(whole);
            &&& token.len() > prefix.len()
            &&& token.take(prefix.len() as int) == prefix
            &&& token[prefix.len() as int] == white
            &&& text::trim(token.skip(prefix.len() as int)) == text::trim(value)
        }),
{
    let n = prefix.len() as int;
    let whole = prefix + seq![white] + value;
    let (a, b) = text::lemma_trim(value);
    let end = n + 1 + b;
    assert(value.subrange(a, b).len() > 0);
    assert(text::bounds_ink(whole, 0, end)) by {
        assert forall|i: int| end <= i < whole.len() implies text::is_white(
            #[trigger] whole[i],
        ) by {
            assert(whole[i] == value[i - n - 1]);
        }
        assert(whole[end - 1] == value[b - 1]);
    }
    text::lemma_trim_is(whole, 0, end);
    let token = whole.subrange(0, end);
    assert(token.take(n) =~= prefix);
    let rest = token.skip(n);
    assert(text::bounds_ink(rest, 1 + a, 1 + b)) by {
        assert forall|i: int| 0 <= i < 1 + a implies text::is_white(#[trigger] rest[i]) by {
            if i > 0 {
                assert(rest[i] == value[i - 1]);
            }
        }
        assert(rest[1 + a] == value[a]);
        assert(rest[b] == value[b - 1]);
    }
    text::lemma_trim_is(rest, 1 + a, 1 + b);
    assert(rest.subrange(1 + a, 1 + b) =~= value.subrange(a, b));
}

/// A token may be pasted with `Bearer` or `Bear` in front, in any case of
/// letters: the bare token is the same, and so is the header, unless the token
/// itself starts that way.
pub proof fn pasted_prefixes_do_not_matter(prefix: Seq<char>, value: Seq<char>)
    requires
        text::same_ignoring_case(prefix, "bearer"@) || text::same_ignoring_case(prefix, "bear"@),
        !text::is_blank(value),
    ensures
        config::token_of(prefix + seq![' '] + value) == text::trim(value),
        !config::carries(text::trim(value), "bearer"@) && !config::carries(
            text::trim(value),
            "bear"@,
        ) ==> config::header_of(prefix + seq![' '] + value) == config::header_of(value),
{
    reveal_strlit("bearer");
    reveal_strlit("bear");
    let whole = prefix + seq![' '] + value;
    let token = text::trim(whole);
    assert(!text::is_white(prefix[0])) by {
        assert(text::ascii_lower(prefix[0]) == 'b');
    }
    lemma_prefixed(prefix, ' ', value);
    if text::same_ignoring_case(prefix, "bearer"@) {
        assert(config::carries(token, "bearer"@));
    } else {
        assert(token.len() > 4);
        assert(!config::carries(token, "bearer"@)) by {
            if config::carries(token, "bearer"@) {
                let six = token.take(6);
                assert(text::ascii_lower(six[4]) == text::ascii_lower("bearer"@[4]));
                assert(six[4] == token[4]);
            }
        }
        assert(config::carries(token, "bear"@));
    }
}

/// A prefix is taken off whatever white space stands behind it: tab, line feed,
/// form feed, carriage return or space.
pub proof fn prefixes_end_at_any_white_space(prefix: Seq<char>, white: char, value: Seq<char>)
    requires
        text::lower_text(prefix) == "bearer"@ || text::lower_text(prefix) == "bear"@,
        white as u32 == 9 || white as u32 == 10 || white as u32 == 12 || white as u32 == 13
            || white as u32 == 32,
        !text::is_blank(value),
    ensures
        config::token_of(prefix + seq![white] + value) == text::trim(value),
{
    reveal_strlit("bearer");
    reveal_strlit("bear");
    assert(text::lower_text("bearer"@) =~= "bearer"@);
    assert(text::lower_text("bear"@) =~= "bear"@);
    text_laws::texts_agree_where_their_small_letters_do(prefix, "bearer"@, seq![]);
    text_laws::texts_agree_where_their_small_letters_do(prefix, "bear"@, seq![]);
    let whole = prefix + seq![white] + value;
    let token = text::trim(whole);
    assert(!text::is_white(prefix[0])) by {
        assert(text::ascii_lower(prefix[0]) == 'b');
    }
    lemma_prefixed(prefix, white, value);
    if text::same_ignoring_case(prefix, "bearer"@) {
        assert(config::carries(token, "bearer"@));
    } else {
        assert(!config::carries(token, "bearer"@)) by {
            if config::carries(token, "bearer"@) {
                let six = token.take(6);
                assert(text::ascii_lower(six[4]) == text::ascii_lower("bearer"@[4]));
                assert(six[4] == token[4]);
            }
        }
        assert(config::carries(token, "bear"@));
    }
}

/// A text that does not start with one of the two words and white space behind it
/// is the token itself, without the white space at its ends.
pub proof fn other_tokens_stay_as_they_are(value: Seq<char>)
    requires
        ({
            let token = text::trim(value);
            &&& token.len() > 4 && text::lower_text(token.subrange(0, 4)) == "bear"@ ==> !(
            token[4] as u32 == 9 || token[4] as u32 == 10 || token[4] as u32 == 12 || token[4] as u32
                == 13 || token[4] as u32 == 32)
            &&& token.len() > 6 && text::lower_text(token.subrange(0, 6)) == "bearer"@ ==> !(
            token[6] as u32 == 9 || token[6] as u32 == 10 || token[6] as u32 == 12 || token[6] as u32
                == 13 || token[6] as u32 == 32)
        }),
    ensures
        config::token_of(value) == text::trim(value),
{
    reveal_strlit("bearer");
    reveal_strlit("bear");
    assert(text::lower_text("bearer"@) =~= "bearer"@);
    assert(text::lower_text("bear"@) =~= "bear"@);
    let token = text::trim(value);
    text_laws::texts_agree_where_their_small_letters_do(token, "bearer"@, seq![]);
    text_laws::texts_agree_where_their_small_letters_do(token, "bear"@, seq![]);
    if token.len() >= 6 {
        text_laws::texts_agree_where_their_small_letters_do(
            token.subrange(0, 6),
            "bearer"@,
            seq![],
        );
    }
    if token.len() >= 4 {
        text_laws::texts_agree_where_their_small_letters_do(token.subrange(0, 4), "bear"@, seq![]);
    }
}

/// Every header starts with `Bear`, has one line, and goes on with the bare
/// token.
pub proof fn headers_carry_the_bare_token(value: Seq<char>)
    ensures
        config::header_of(value) matches Ok(header) ==> header == "Bear "@ + config::token_of(
            value,
        ) && !text::has_line_break(header),
        config::header_of(value) is Ok <==> !text::is_blank(value) && !text::has_line_break(
            config::token_of(value),
        ),
{
    bare_tokens_are_trimmed(value);
    reveal_strlit("Bear ");
    let token = config::token_of(value);
    if config::header_of(value) is Ok {
        let header = "Bear "@ + token;
        assert forall|i: int| 0 <= i < header.len() implies header[i] != '\r' && header[i]
            != '\n' by {
            if i >= 5 {
                assert(header[i] == token[i - 5]);
                assert(token.contains(token[i - 5]));
            }
        }
    }
}

/// What is loaded is what was saved last: of settings that were saved before
/// nothing is left, and settings that may not be stored change nothing.
pub proof fn loading_gives_what_was_saved_last(
    stored: Option<SettingsView>,
    first: SettingsView,
    second: SettingsView,
)
    requires
        first.configured(),
    ensures
        config::loaded(config::stored_after(stored, first)) == first,
        second.configured() ==> config::loaded(
            config::stored_after(config::stored_after(stored, first), second),
        ) == second,
        !second.configured() ==> config::loaded(
            config::stored_after(config::stored_after(stored, first), second),
        ) == first,
{
}

/// The bytes that the settings file holds once settings were to be saved, given
/// what it held and how settings are written down.
pub open spec fn file_after(
    held: Option<Seq<u8>>,
    settings: SettingsView,
    write: spec_fn(SettingsView) -> Seq<u8>,
) -> Option<Seq<u8>> {
    if settings.configured() {
        Some(write(settings))
    } else {
        held
    }
}

/// The settings in the bytes that the file holds, given how these are read.
pub open spec fn read_back(
    held: Option<Seq<u8>>,
    read: spec_fn(Seq<u8>) -> Option<SettingsView>,
) -> Option<SettingsView> {
    match held {
        Some(bytes) => read(bytes),
        None => None,
    }
}

/// Whatever the file held, after two sets of settings were saved the second is
/// loaded, field by field: given that what is written of it reads back as it.
/// Where the second may not be stored, the first is loaded.
pub proof fn settings_files_hold_what_was_saved_last(
    held: Option<Seq<u8>>,
    first: SettingsView,
    second: SettingsView,
    write: spec_fn(SettingsView) -> Seq<u8>,
    read: spec_fn(Seq<u8>) -> Option<SettingsView>,
)
    requires
        first.configured(),
        read(write(first)) == Some(first),
        read(write(second)) == Some(second),
    ensures
        ({
            let last = file_after(file_after(held, first, write), second, write);
            &&& config::loaded(read_back(last, read)) == (if second.configured() {
                second
            } else {
                first
            })
            &&& read_back(last, read) == config::stored_after(
                config::stored_after(read_back(held, read), first),
                second,
            )
        }),
{
}

/// Receivers that stand in front are not touched by those behind: they stay as
/// they were first written, and in their order.
pub proof fn earlier_receivers_stay_in_front(first: Seq<Seq<char>>, second: Seq<Seq<char>>)
    ensures
        config::receivers_of(first).len() <= config::receivers_of(first + second).len(),
        config::receivers_of(first + second).take(config::receivers_of(first).len() as int)
            == config::receivers_of(first),
    decreases second.len(),
{
    let n = config::receivers_of(first).len() as int;
    let both = config::receivers_of(first + second);
    if second.len() == 0 {
        assert(first + second =~= first);
        assert(both.take(n) =~= config::receivers_of(first));
    } else {
        earlier_receivers_stay_in_front(first, second.drop_last());
        assert((first + second).drop_last() =~= first + second.drop_last());
        assert(both.take(n) =~= config::receivers_of(first + second.drop_last()).take(n));
    }
}

/// A name is listed just where one in the list agrees with it up to case.
pub proof fn names_are_listed_whatever_their_case(list: Seq<Seq<char>>, name: Seq<char>)
    ensures
        config::listed(list, name) <==> exists|i: int|
            0 <= i < list.len() && text::lower_text(#[trigger] list[i]) == text::lower_text(name),
{
    assert forall|i: int| 0 <= i < list.len() implies (text::same_ignoring_case(
        #[trigger] list[i],
        name,
    ) <==> text::lower_text(list[i]) == text::lower_text(name)) by {
        text_laws::texts_agree_where_their_small_letters_do(list[i], name, seq![]);
    }
    if config::listed(list, name) {
        let i = choose|i: int|
            0 <= i < list.len() && text::same_ignoring_case(#[trigger] list[i], name);
        assert(text::lower_text(list[i]) == text::lower_text(name));
    }
}

/// Settings are in order just where the address is one by HTTPS with a host,
/// somebody is to receive the files, the direction is one of the two, and the
/// hotkey can be used. Of more faults the first of these is told.
pub proof fn settings_are_judged_in_order(settings: SettingsView, url: Option<UrlView>)
    ensures
        settings.verdict(url) is Ok <==> {
            &&& url matches Some(parts) && parts.scheme == "https"@ && parts.host is Some
            &&& settings.receiver_users.len() > 0
            &&& settings.exchange_type == 1 || settings.exchange_type == 2
            &&& config::hotkey_verdict(settings.hotkey) is Ok
        },
        url is None ==> settings.verdict(url) == Err::<(), SettingsError>(
            SettingsError::InvalidUrl,
        ),
        url matches Some(parts) ==> {
            let secure = parts.scheme == "https"@ && parts.host is Some;
            &&& !secure ==> settings.verdict(url) == Err::<(), SettingsError>(
                SettingsError::NotHttps,
            )
            &&& secure && settings.receiver_users.len() == 0 ==> settings.verdict(url) == Err::<
                (),
                SettingsError,
            >(SettingsError::NoReceivers)
            &&& secure && settings.receiver_users.len() > 0 && settings.exchange_type != 1
                && settings.exchange_type != 2 ==> settings.verdict(url) == Err::<
                (),
                SettingsError,
            >(SettingsError::InvalidDirection)
            &&& secure && settings.receiver_users.len() > 0 && (settings.exchange_type == 1
                || settings.exchange_type == 2) ==> (config::hotkey_verdict(
                settings.hotkey,
            ) matches Err(error) ==> settings.verdict(url) == Err::<(), SettingsError>(
                SettingsError::Hotkey(error),
            ))
        },
{
}

/// The address of the settings is read without the white space at its ends, and
/// nothing else of the settings bears on how it is read.
pub proof fn addresses_are_read_without_white_space(a: SettingsView, b: SettingsView)
    requires
        text::trim(a.api_base_url) == text::trim(b.api_base_url),
    ensures
        text::is_trimmed(a.api_base_url) ==> a.own_verdict() == a.verdict(
            config::parsed_url(a.api_base_url),
        ),
        a.receiver_users == b.receiver_users && a.exchange_type == b.exchange_type && a.hotkey
            == b.hotkey ==> a.own_verdict() == b.own_verdict(),
{
    if text::is_trimmed(a.api_base_url) {
        text::lemma_trimmed_stays(a.api_base_url);
    }
}

/// Uploads take settings that are in order and a token; usage queries take an
/// address that is not blank and a key.
pub proof fn secrets_are_needed_too(settings: SettingsView)
    ensures
        settings.configured() <==> settings.own_verdict() is Ok && settings.encrypted_token.len()
            > 0,
        settings.usage_configured() <==> settings.encrypted_usage_api_key.len() > 0 && !(forall|
            i: int,
        |
            0 <= i < settings.usage_api_base_url.len() ==> text::is_white(
                #[trigger] settings.usage_api_base_url[i],
            )),
{
    text_laws::trimming_takes_off_white_space_only(settings.usage_api_base_url);
}

/// The settings of a first start name no token and no receiver, send from the
/// office network inwards, and have a hotkey.
pub proof fn first_starts_are_not_configured()
    ensures
        ({
            let settings = SettingsView::initial();
            &&& settings.encrypted_token.len() == 0
            &&& settings.receiver_users.len() == 0
            &&& settings.exchange_type == 2
            &&& settings.hotkey == "Ctrl+Alt+U"@
            &&& settings.api_base_url == "https://example.invalid"@
            &&& settings.usage_api_base_url.len() == 0
            &&& settings.encrypted_usage_api_key.len() == 0
            &&& !settings.configured()
        }),
{
}

/// The view of the settings holds all of them.
pub proof fn views_hold_all_settings(settings: AppSettings, parts: UrlParts)
    ensures
        settings@.api_base_url == settings.api_base_url@,
        settings@.encrypted_token == settings.encrypted_token@,
        settings@.receiver_users.len() == settings.receiver_users@.len(),
        forall|i: int|
            0 <= i < settings.receiver_users@.len() ==> #[trigger] settings@.receiver_users[i]
                == settings.receiver_users@[i]@,
        settings@.exchange_type == settings.exchange_type,
        settings@.hotkey == settings.hotkey@,
        settings@.usage_api_base_url == settings.usage_api_base_url@,
        settings@.encrypted_usage_api_key == settings.encrypted_usage_api_key@,
        parts@.scheme == parts.scheme@,
        parts@.host is Some <==> parts.host is Some,
        parts.host matches Some(host) ==> parts@.host == Some(host@),
        config::url_view(Some(parts)) == Some(parts@),
        config::url_view(None) is None,
{
}

} // verus!
