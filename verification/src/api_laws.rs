//! What holds of the addresses that requests go to, and of what is logged of
//! them.
use vstd::prelude::*;

use crate::api;
use crate::api::{ApiFault, FormPart, OptionsView, PartView, SpendInfo, UploadOptions};
use crate::config;
use crate::config_laws;
use crate::json::JsonView;
use crate::logging;
use crate::logging::NoteView;
use crate::number;
use crate::text;
use crate::text_laws;

verus! {

/// No slash is left behind a text once the slashes there were taken off, and the
/// rest is a part of it from the start on.
pub proof fn lemma_trim_end_char(value: Seq<char>, c: char)
    ensures
        text::trim_end_char(value, c).len() > 0 ==> text::trim_end_char(value, c).last() != c,
        text::trim_end_char(value, c).len() <= value.len(),
        text::trim_end_char(value, c) == value.take(text::trim_end_char(value, c).len() as int),
    decreases value.len(),
{
    if value.len() > 0 && value.last() == c {
        lemma_trim_end_char(value.drop_last(), c);
        let rest = text::trim_end_char(value.drop_last(), c);
        assert(value.drop_last().take(rest.len() as int) =~= value.take(rest.len() as int));
    } else {
        assert(value.take(value.len() as int) =~= value);
    }
}

/// The root of the interface never ends in a slash, so that the path behind it
/// is set off by one slash only.
pub proof fn usage_roots_end_in_no_slash(value: Seq<char>)
    ensures
        api::usage_root(value).len() > 0 ==> api::usage_root(value).last() != '/',
{
    let base = api::bare_address(value);
    lemma_trim_end_char(text::trim(value), '/');
    lemma_trim_end_char(base.take(base.len() - 13), '/');
    lemma_trim_end_char(base.take(base.len() - 20), '/');
    lemma_trim_end_char(base.take(base.len() - 3), '/');
}

proof fn lemma_suffixed(root: Seq<char>, suffix: Seq<char>)
    requires
        root.len() > 0,
        text::is_trimmed(root),
        root.last() != '/',
        suffix.len() > 0,
        !text::is_white(suffix.last()),
        suffix.last() != '/',
    ensures
        api::bare_address(root + suffix) == root + suffix,
        api::has_suffix(root + suffix, suffix),
        api::without_suffix(root + suffix, suffix.len() as int) == root,
{
    let whole = root + suffix;
    assert(whole.last() == suffix.last());
    assert(whole[0] == root[0]);
    text::lemma_trimmed_stays(whole);
    assert(whole.skip(whole.len() - suffix.len()) =~= suffix);
    assert(whole.take(whole.len() - suffix.len()) =~= root);
}

/// An address may be given with the path of one of its endpoints: the root is the
/// same.
pub proof fn endpoint_addresses_share_a_root(root: Seq<char>)
    requires
        root.len() > 0,
        text::is_trimmed(root),
        root.last() != '/',
    ensures
        api::usage_root(root + "/v1/responses"@) == root,
        api::usage_root(root + "/v1/chat/completions"@) == root,
        api::usage_root(root + "/v1"@) == root,
{
    reveal_strlit("/v1/responses");
    reveal_strlit("/v1/chat/completions");
    reveal_strlit("/v1");
    lemma_suffixed(root, "/v1/responses"@);
    let chat = root + "/v1/chat/completions"@;
    lemma_suffixed(root, "/v1/chat/completions"@);
    assert(!api::has_suffix(chat, "/v1/responses"@)) by {
        let tail = chat.skip(chat.len() - 13);
        assert(tail[0] == "/v1/chat/completions"@[7]);
        if text::same_ignoring_case(tail, "/v1/responses"@) {
            assert(text::ascii_lower(tail[0]) == text::ascii_lower("/v1/responses"@[0]));
        }
    }
    let short = root + "/v1"@;
    lemma_suffixed(root, "/v1"@);
    assert(!api::has_suffix(short, "/v1/responses"@)) by {
        if api::has_suffix(short, "/v1/responses"@) {
            let tail = short.skip(short.len() - 13);
            assert(tail[12] == '1');
            assert(text::ascii_lower(tail[12]) == text::ascii_lower("/v1/responses"@[12]));
        }
    }
    assert(!api::has_suffix(short, "/v1/chat/completions"@)) by {
        if api::has_suffix(short, "/v1/chat/completions"@) {
            let tail = short.skip(short.len() - 20);
            assert(tail[19] == '1');
            assert(text::ascii_lower(tail[19]) == text::ascii_lower("/v1/chat/completions"@[19]));
        }
    }
}

/// Slashes behind the address make no difference to where files are uploaded to.
pub proof fn trailing_slashes_do_not_matter(api_base_url: Seq<char>)
    ensures
        api::upload_endpoint(api_base_url.push('/')) == api::upload_endpoint(api_base_url),
{
    assert(api_base_url.push('/').drop_last() =~= api_base_url);
}

/// Every receiver is addressed, in the order in which they are given: the form of
/// an upload has a part for each, a field `receiverUser` with that receiver, then
/// the file under `file`, then a field `exchangeType` with the one direction there
/// is, and no part besides.
pub proof fn every_receiver_is_addressed(receivers: Seq<Seq<char>>, file_name: Seq<char>)
    ensures
        ({
            let form = api::upload_form(receivers, file_name);
            let n = receivers.len() as int;
            &&& form.len() == n + 2
            &&& forall|i: int|
                0 <= i < n ==> #[trigger] form[i] == (PartView::Field {
                    name: "receiverUser"@,
                    value: receivers[i],
                })
            &&& form[n] == (PartView::File { name: "file"@, file_name })
            &&& form[n + 1] == (PartView::Field { name: "exchangeType"@, value: "2"@ })
        }),
{
    reveal_strlit("2");
    assert(number::decimal(2) =~= "2"@);
}

/// The parts of a form are seen in their places, with their names and values.
pub proof fn views_hold_every_part(parts: Seq<FormPart>)
    ensures
        api::part_views(parts).len() == parts.len(),
        forall|i: int|
            0 <= i < parts.len() ==> match parts[i] {
                FormPart::Field { name, value } => #[trigger] api::part_views(parts)[i] == (
                PartView::Field { name: name@, value: value@ }),
                FormPart::File { name, file_name } => api::part_views(parts)[i] == (PartView::File {
                    name: name@,
                    file_name: file_name@,
                }),
            },
{
}

/// The view of the options holds all of them.
pub proof fn views_hold_all_options(options: UploadOptions, report: SpendInfo)
    ensures
        options@.api_base_url == options.api_base_url@,
        options@.token == options.token@,
        options@.receiver_users.len() == options.receiver_users@.len(),
        forall|i: int|
            0 <= i < options.receiver_users@.len() ==> #[trigger] options@.receiver_users[i]
                == options.receiver_users@[i]@,
        options@.upload_file_name is Some <==> options.upload_file_name is Some,
        options.upload_file_name matches Some(name) ==> options@.upload_file_name == Some(name@),
        report@.spend == report.spend@,
        report@.max_budget is Some <==> report.max_budget is Some,
        report.max_budget matches Some(amount) ==> report@.max_budget == Some(amount@),
        report@.budget_duration is Some <==> report.budget_duration is Some,
        report.budget_duration matches Some(time) ==> report@.budget_duration == Some(time@),
        report@.budget_reset_at is Some <==> report.budget_reset_at is Some,
        report.budget_reset_at matches Some(date) ==> report@.budget_reset_at == Some(date@),
        report@.last_active is Some <==> report.last_active is Some,
        report.last_active matches Some(date) ==> report@.last_active == Some(date@),
{
}

/// Files are uploaded to one path below the address, which is otherwise kept as it
/// is given.
pub proof fn uploads_go_below_the_address(root: Seq<char>)
    requires
        root.len() > 0 ==> root.last() != '/',
    ensures
        api::upload_endpoint(root) == root + "/api/exchange/user/transfer/open/upload"@,
{
}

/// A file is sent under the name that was asked for, whatever its own is; else
/// under its own; else under a stand-in.
pub proof fn files_are_sent_under_the_name_asked_for(
    asked: Seq<char>,
    own: Seq<char>,
    any: Option<Seq<char>>,
)
    ensures
        api::sent_name(Some(asked), any) == asked,
        api::sent_name(None, Some(own)) == own,
        api::sent_name(None, None) == "upload.bin"@,
{
}

/// Nothing is sent without a receiver, or with a token that is blank or holds a
/// line break; with a receiver and another token, the request is made.
pub proof fn requests_need_a_receiver_and_a_token(options: OptionsView)
    ensures
        options.receiver_users.len() == 0 ==> api::upload_refusal(options) == Some(
            ApiFault::NoReceivers,
        ),
        options.receiver_users.len() > 0 ==> (api::upload_refusal(options) is None
            <==> !text::is_blank(options.token) && !text::has_line_break(
            config::token_of(options.token),
        )),
        options.receiver_users.len() > 0 && api::upload_refusal(options) is Some
            ==> api::upload_refusal(options) == Some(ApiFault::InvalidToken),
        api::usable_key(options.token) <==> !text::is_blank(options.token)
            && !text::has_line_break(config::token_of(options.token)),
{
    config_laws::headers_carry_the_bare_token(options.token);
    config_laws::bare_tokens_are_trimmed(options.token);
    lemma_blank_has_no_token(options.token);
}

proof fn lemma_blank_has_no_token(value: Seq<char>)
    ensures
        text::is_blank(value) ==> config::token_of(value).len() == 0,
{
}

/// The usage is asked for at `/key/info` below an address that has none of the
/// paths of the other endpoints behind it.
pub proof fn usage_is_asked_for_below_the_root(root: Seq<char>)
    requires
        text::is_trimmed(root),
        root.len() > 0 ==> root.last() != '/',
        !api::has_suffix(root, "/v1/responses"@),
        !api::has_suffix(root, "/v1/chat/completions"@),
        !api::has_suffix(root, "/v1"@),
    ensures
        api::usage_endpoint(root) == root + "/key/info"@,
{
    text::lemma_trimmed_stays(root);
}

/// A suffix ends a text where the characters there agree with it up to case, and
/// at least one stands in front of them.
pub proof fn suffixes_stand_behind_something(front: Seq<char>, end: Seq<char>, suffix: Seq<char>)
    requires
        front.len() > 0,
        end.len() == suffix.len(),
    ensures
        api::has_suffix(front + end, suffix) <==> text::same_ignoring_case(end, suffix),
        !api::has_suffix(end, suffix),
{
    let whole = front + end;
    assert(whole.skip(whole.len() - suffix.len()) =~= end);
}

/// The header of a usage query is `Bearer` and the bare key.
pub proof fn usage_headers_carry_the_bare_key(api_key: Seq<char>)
    ensures
        api::usage_header(api_key) == text_laws::run(seq!["Bearer "@, config::token_of(api_key)]),
{
    text_laws::lemma_run_two("Bearer "@, config::token_of(api_key));
}

/// What went out adds up: chunk by chunk as in one, and never beyond what can be
/// counted.
pub proof fn chunks_add_up(sent: u64, a: u64, b: u64)
    ensures
        sent + a <= u64::MAX ==> api::sent_with(sent, a) == sent + a,
        sent + a > u64::MAX ==> api::sent_with(sent, a) == u64::MAX,
        api::sent_with(api::sent_with(sent, a), b) == api::sent_with(api::sent_with(sent, b), a),
{
}

proof fn lemma_suffixed_whatever_the_case(root: Seq<char>, end: Seq<char>, suffix: Seq<char>)
    requires
        root.len() > 0,
        text::is_trimmed(root),
        root.last() != '/',
        end.len() == suffix.len(),
        end.len() > 0,
        text::same_ignoring_case(end, suffix),
        !text::is_white(suffix.last()),
        suffix.last() != '/',
    ensures
        api::bare_address(root + end) == root + end,
        api::has_suffix(root + end, suffix),
        api::without_suffix(root + end, suffix.len() as int) == root,
{
    let n = end.len() - 1;
    assert(text::ascii_lower(end[n]) == text::ascii_lower(suffix[n]));
    text_laws::only_ascii_letters_have_a_case(end[n], suffix[n]);
    let whole = root + end;
    assert(whole.last() == end[n]);
    assert(whole[0] == root[0]);
    text::lemma_trimmed_stays(whole);
    assert(whole.skip(whole.len() - suffix.len()) =~= end);
    assert(whole.take(whole.len() - suffix.len()) =~= root);
}

/// The path of an endpoint is taken off whatever the case of its letters, and so
/// are slashes and white space around the address.
pub proof fn endpoint_paths_are_taken_off_whatever_their_case(
    root: Seq<char>,
    end: Seq<char>,
    a: Seq<char>,
    b: Seq<char>,
)
    requires
        root.len() > 0,
        text::is_trimmed(root),
        root.last() != '/',
        text::same_ignoring_case(end, "/v1"@) || text::same_ignoring_case(end, "/v1/responses"@)
            || text::same_ignoring_case(end, "/v1/chat/completions"@),
        text::trim_end_char(text::trim(a), '/') == text::trim_end_char(text::trim(b), '/'),
    ensures
        api::usage_root(root + end) == root,
        api::usage_root(a) == api::usage_root(b),
{
    reveal_strlit("/v1/responses");
    reveal_strlit("/v1/chat/completions");
    reveal_strlit("/v1");
    let whole = root + end;
    if text::same_ignoring_case(end, "/v1/responses"@) {
        lemma_suffixed_whatever_the_case(root, end, "/v1/responses"@);
    } else if text::same_ignoring_case(end, "/v1/chat/completions"@) {
        lemma_suffixed_whatever_the_case(root, end, "/v1/chat/completions"@);
        assert(!api::has_suffix(whole, "/v1/responses"@)) by {
            if api::has_suffix(whole, "/v1/responses"@) {
                let tail = whole.skip(whole.len() - 13);
                assert(tail[0] == end[7]);
                assert(text::ascii_lower(tail[0]) == text::ascii_lower("/v1/responses"@[0]));
                assert(text::ascii_lower(end[7]) == text::ascii_lower("/v1/chat/completions"@[7]));
            }
        }
    } else {
        lemma_suffixed_whatever_the_case(root, end, "/v1"@);
        assert(text::ascii_lower(end[2]) == text::ascii_lower("/v1"@[2]));
        assert(!api::has_suffix(whole, "/v1/responses"@)) by {
            if api::has_suffix(whole, "/v1/responses"@) {
                let tail = whole.skip(whole.len() - 13);
                assert(tail[12] == end[2]);
                assert(text::ascii_lower(tail[12]) == text::ascii_lower("/v1/responses"@[12]));
            }
        }
        assert(!api::has_suffix(whole, "/v1/chat/completions"@)) by {
            if api::has_suffix(whole, "/v1/chat/completions"@) {
                let tail = whole.skip(whole.len() - 20);
                assert(tail[19] == end[2]);
                assert(text::ascii_lower(tail[19]) == text::ascii_lower(
                    "/v1/chat/completions"@[19],
                ));
            }
        }
    }
}

/// What came of a request once it was to be sent.
pub enum ReplyView {
    /// The server has answered.
    Answered { http_status: u16, http_success: bool, body: Option<JsonView> },
    /// It has not, and this is what is said of it.
    Lost(Seq<char>),
}

/// What is logged of an upload: its start, unless there is nobody to receive the
/// file, the answer, where there is one, and its failure, where it has failed.
pub open spec fn upload_log(
    shown_path: Seq<char>,
    file_name: Seq<char>,
    content: Seq<u8>,
    options: OptionsView,
    reply: ReplyView,
) -> Seq<NoteView> {
    let started = logging::upload_started_note(shown_path, content.len());
    match api::upload_refusal(options) {
        Some(fault) => {
            let failed = logging::upload_failed_note(file_name, fault.wording());
            if fault is NoReceivers {
                seq![failed]
            } else {
                seq![started, failed]
            }
        },
        None => match reply {
            ReplyView::Lost(error) => seq![started, logging::upload_failed_note(file_name, error)],
            ReplyView::Answered { http_status, http_success, body } => {
                let outcome = api::upload_outcome(http_status, http_success, body);
                let served = seq![
                    started,
                    logging::upload_answered_note(http_status, outcome is Ok),
                ];
                match outcome {
                    Ok(_) => served,
                    Err(fault) => served.push(
                        logging::upload_failed_note(file_name, fault.wording()),
                    ),
                }
            },
        },
    }
}

/// What is logged of an upload depends on what is uploaded only by its length,
/// and on the token only by whether it can stand in a request header.
pub proof fn uploads_log_no_secrets(
    shown_path: Seq<char>,
    file_name: Seq<char>,
    content: Seq<u8>,
    other: Seq<u8>,
    options: OptionsView,
    token: Seq<char>,
    reply: ReplyView,
)
    requires
        content.len() == other.len(),
        config::header_of(options.token) is Ok <==> config::header_of(token) is Ok,
    ensures
        upload_log(shown_path, file_name, content, options, reply) == upload_log(
            shown_path,
            file_name,
            other,
            OptionsView { token, ..options },
            reply,
        ),
{
}

/// What is logged of an upload that is refused before anything is sent is the
/// same for any two tokens with which it is refused, whatever would have come of
/// it, and whatever is uploaded but for its length: a start with the path and the
/// size, where there are receivers, and a failure with a fixed wording.
pub proof fn refused_uploads_log_no_token(
    shown_path: Seq<char>,
    file_name: Seq<char>,
    content: Seq<u8>,
    other: Seq<u8>,
    options: OptionsView,
    token: Seq<char>,
    reply: ReplyView,
    other_reply: ReplyView,
)
    requires
        content.len() == other.len(),
        api::upload_refusal(options) is Some,
        api::upload_refusal(OptionsView { token, ..options }) is Some,
    ensures
        upload_log(shown_path, file_name, content, options, reply) == upload_log(
            shown_path,
            file_name,
            other,
            OptionsView { token, ..options },
            other_reply,
        ),
        upload_log(shown_path, file_name, content, options, reply).last()
            == logging::upload_failed_note(
            file_name,
            if options.receiver_users.len() == 0 {
                ApiFault::NoReceivers.wording()
            } else {
                ApiFault::InvalidToken.wording()
            },
        ),
{
}

/// What is logged of a usage query: nothing where the key cannot stand in a
/// request header, else its start and the answer, where there is one.
pub open spec fn usage_log(
    api_base_url: Seq<char>,
    api_key: Seq<char>,
    reply: ReplyView,
) -> Seq<NoteView> {
    if api::usable_key(api_key) {
        let started = logging::usage_started_note(api::usage_endpoint(api_base_url));
        match reply {
            ReplyView::Lost(_) => seq![started],
            ReplyView::Answered { http_status, http_success, body } => seq![
                started,
                logging::usage_answered_note(
                    http_status,
                    api::spend_outcome(http_status, http_success, body) is Ok,
                ),
            ],
        }
    } else {
        seq![]
    }
}

/// What is logged of a usage query depends on the key only by whether it can
/// stand in a request header; where it cannot, nothing is.
pub proof fn usage_queries_log_no_key(
    api_base_url: Seq<char>,
    api_key: Seq<char>,
    other: Seq<char>,
    reply: ReplyView,
)
    requires
        api::usable_key(api_key) == api::usable_key(other),
    ensures
        usage_log(api_base_url, api_key, reply) == usage_log(api_base_url, other, reply),
        !api::usable_key(api_key) ==> usage_log(api_base_url, api_key, reply).len() == 0,
{
}

} // verus!
