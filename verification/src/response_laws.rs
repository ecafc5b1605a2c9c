//! What holds of the responses of the server, stated on the JSON that they are.
use vstd::prelude::*;

use crate::api;
use crate::api::{ApiError, ApiFault, SpendInfo, SpendView, UploadResult};
use crate::json::JsonView;
use crate::json_laws;
use crate::number;
use crate::number_laws;
use crate::text;
use crate::text_laws;

verus! {

/// Whether `shown` is what is shown of a message: its first characters, up to 500
/// of them, each line break among them as a space.
pub open spec fn shows(shown: Seq<char>, message: Seq<char>) -> bool {
    &&& shown.len() == (if message.len() < 500 {
        message.len()
    } else {
        500
    })
    &&& forall|i: int|
        0 <= i < shown.len() ==> #[trigger] shown[i] == (if message[i] == '\r' || message[i]
            == '\n' {
            ' '
        } else {
            message[i]
        })
}

/// Whether `message` is what an answer says under `message`: the text there, or a
/// stand-in where there is none.
pub open spec fn says(value: JsonView, message: Seq<char>) -> bool {
    ||| json_laws::stands_under(value, "message"@, JsonView::Text(message))
    ||| message == "请求失败"@ && forall|t: Seq<char>|
        !#[trigger] json_laws::stands_under(value, "message"@, JsonView::Text(t))
}

/// What is shown of a message is its first characters on one line.
pub proof fn messages_are_cut_to_one_line(message: Seq<char>)
    ensures
        shows(api::safe_message(message), message),
{
    let line = text::single_line(message);
    text_laws::shown_texts_keep_their_characters(message, 500);
    text_laws::shown_texts_keep_their_characters(line, 500);
    let shown = api::safe_message(message);
    assert forall|i: int| 0 <= i < shown.len() implies #[trigger] shown[i] == (if message[i]
        == '\r' || message[i] == '\n' {
        ' '
    } else {
        message[i]
    }) by {
        assert(shown[i] == line[i]);
    }
}

/// The message that is told of an upload is the one that the answer holds.
pub proof fn upload_messages_are_the_servers(value: JsonView, message: Seq<char>)
    requires
        says(value, message),
    ensures
        shows(api::upload_message(value), message),
{
    messages_are_cut_to_one_line(message);
    json_laws::texts_are_told_apart(value, "message"@, message);
    if !json_laws::stands_under(value, "message"@, JsonView::Text(message)) {
        if value.text_field("message"@) is Some {
            let t = value.text_field("message"@)->0;
            json_laws::texts_are_told_apart(value, "message"@, t);
            assert(json_laws::stands_under(value, "message"@, JsonView::Text(t)));
        }
    }
}

/// Whether an upload is refused with what the answer says.
pub open spec fn refused_as(outcome: Result<Option<Seq<char>>, ApiFault>, message: Seq<char>) -> bool {
    outcome matches Err(fault) && (fault matches ApiFault::Refused(told) && shows(told, message))
}

/// An answer with a whole number under `status` is a success only where that
/// number is zero; with every other number the upload is refused, with the message
/// of the answer.
pub proof fn numbers_but_zero_refuse(
    http_status: u16,
    value: JsonView,
    n: i64,
    digits: Seq<char>,
    message: Seq<char>,
)
    requires
        json_laws::stands_under(value, "status"@, JsonView::Number { integer: Some(n), text: digits }),
        says(value, message),
    ensures
        api::upload_outcome(http_status, true, Some(value)) is Ok ==> n == 0,
        n != 0 ==> refused_as(api::upload_outcome(http_status, true, Some(value)), message),
        api::business_status(value) == Some(n),
{
    json_laws::fields_are_what_stands_there(
        value,
        "status"@,
        JsonView::Number { integer: Some(n), text: digits },
    );
    upload_messages_are_the_servers(value, message);
}

/// An answer with a text under `status` is a success only where that text writes
/// down zero; with every other text the upload is refused, with the message of
/// the answer.
pub proof fn texts_but_zero_refuse(
    http_status: u16,
    value: JsonView,
    status: Seq<char>,
    message: Seq<char>,
)
    requires
        json_laws::stands_under(value, "status"@, JsonView::Text(status)),
        says(value, message),
    ensures
        api::upload_outcome(http_status, true, Some(value)) is Ok ==> number_laws::is_zero_text(status),
        !number_laws::is_zero_text(status) ==> refused_as(
            api::upload_outcome(http_status, true, Some(value)),
            message,
        ),
        number_laws::is_zero_text(status) ==> api::business_status(value) == Some(0i64),
{
    json_laws::fields_are_what_stands_there(value, "status"@, JsonView::Text(status));
    upload_messages_are_the_servers(value, message);
    number_laws::zero_is_written_with_zeros(status);
}

/// An answer without a whole number or a text under `status` is no success.
pub proof fn answers_without_a_status_refuse(http_status: u16, value: JsonView, message: Seq<char>)
    requires
        says(value, message),
        forall|n: i64, t: Seq<char>|
            !#[trigger] json_laws::stands_under(
                value,
                "status"@,
                JsonView::Number { integer: Some(n), text: t },
            ),
        forall|t: Seq<char>| !#[trigger] json_laws::stands_under(value, "status"@, JsonView::Text(t)),
    ensures
        refused_as(api::upload_outcome(http_status, true, Some(value)), message),
{
    upload_messages_are_the_servers(value, message);
    if value.field("status"@) is Some {
        let found = value.field("status"@)->0;
        json_laws::fields_are_what_stands_there(value, "status"@, found);
        match found {
            JsonView::Number { integer: Some(n), text: t } => {
                assert(json_laws::stands_under(
                    value,
                    "status"@,
                    JsonView::Number { integer: Some(n), text: t },
                ));
            },
            JsonView::Text(t) => {
                assert(json_laws::stands_under(value, "status"@, JsonView::Text(t)));
            },
            _ => {},
        }
    }
}

/// An answer that the server gave with another status than success is told with
/// that status and its message, whatever else it holds; one that is no JSON is
/// told as such.
pub proof fn failed_requests_are_told_with_their_status(
    http_status: u16,
    http_success: bool,
    value: JsonView,
    message: Seq<char>,
)
    requires
        says(value, message),
    ensures
        api::upload_outcome(http_status, false, Some(value)) matches Err(fault) && (
        fault matches ApiFault::Http { status, message: told } && status == http_status && shows(
            told,
            message,
        )),
        api::upload_outcome(http_status, http_success, None) == Err::<Option<Seq<char>>, ApiFault>(
            ApiFault::UnreadableUpload,
        ),
        api::spend_outcome(http_status, http_success, None) == Err::<SpendView, ApiFault>(
            ApiFault::UnreadableUsage,
        ),
        api::spend_outcome(http_status, false, Some(value)) matches Err(fault) && (
        fault matches ApiFault::Http { status, .. } && status == http_status),
{
    upload_messages_are_the_servers(value, message);
}

/// What an answer with a zero under `status` says of the file: its identifier is
/// the text under `data`, or the first of a list there; without data, or with
/// `true` or `null` there, it is a success without an identifier; with `false` it
/// is a failure with the message of the answer; other data are not understood.
pub proof fn served_uploads_name_the_file(
    http_status: u16,
    value: JsonView,
    digits: Seq<char>,
    message: Seq<char>,
    data: JsonView,
)
    requires
        json_laws::stands_under(value, "status"@, JsonView::Number { integer: Some(0i64), text: digits }),
        says(value, message),
    ensures
        ({
            let outcome = api::upload_outcome(http_status, true, Some(value));
            &&& json_laws::lacks(value, "data"@) ==> outcome == Ok::<Option<Seq<char>>, ApiFault>(None)
            &&& json_laws::stands_under(value, "data"@, data) ==> match data {
                JsonView::Text(id) => if id.len() > 0 {
                    outcome == Ok::<Option<Seq<char>>, ApiFault>(Some(id))
                } else {
                    outcome == Err::<Option<Seq<char>>, ApiFault>(ApiFault::InvalidData)
                },
                JsonView::List(ids) => outcome matches Ok(file_id) && {
                    &&& file_id is Some <==> ids.len() > 0 && ids[0] is Text
                    &&& file_id matches Some(id) ==> ids[0] == JsonView::Text(id)
                },
                JsonView::Bool(done) => if done {
                    outcome == Ok::<Option<Seq<char>>, ApiFault>(None)
                } else {
                    outcome matches Err(fault) && (fault matches ApiFault::ReportedFailure(told)
                        && shows(told, message))
                },
                JsonView::Null => outcome == Ok::<Option<Seq<char>>, ApiFault>(None),
                _ => outcome == Err::<Option<Seq<char>>, ApiFault>(ApiFault::InvalidData),
            }
        }),
{
    numbers_but_zero_refuse(http_status, value, 0, digits, message);
    json_laws::fields_are_what_stands_there(value, "data"@, data);
    upload_messages_are_the_servers(value, message);
}

/// Whether `figures` is where the figures of a usage report stand: the value under
/// `info`, or the whole where nothing stands there.
pub open spec fn holds_figures(value: JsonView, figures: JsonView) -> bool {
    json_laws::stands_under(value, "info"@, figures) || json_laws::lacks(value, "info"@) && figures == value
}

/// Whether `shown` is what is reported of the text or the number under `name`:
/// the text without white space at its ends, where it is not blank, or the digits
/// of the number; nothing where there is neither.
pub open spec fn reports_scalar(figures: JsonView, name: Seq<char>, shown: Option<Seq<char>>) -> bool {
    &&& forall|t: Seq<char>| #[trigger]
        json_laws::stands_under(figures, name, JsonView::Text(t)) ==> shown == (if text::is_blank(t) {
            None
        } else {
            Some(text::trim(t))
        })
    &&& forall|n: Option<i64>, t: Seq<char>| #[trigger]
        json_laws::stands_under(figures, name, JsonView::Number { integer: n, text: t }) ==> shown == Some(t)
    &&& forall|found: JsonView| #[trigger]
        json_laws::stands_under(figures, name, found) && !(found is Text) && !(found is Number)
            ==> shown is None
    &&& json_laws::lacks(figures, name) ==> shown is None
}

/// Whether `shown` is what is reported of the text under `name`: without white
/// space at its ends, where it is not blank; nothing where there is no text.
pub open spec fn reports_text(figures: JsonView, name: Seq<char>, shown: Option<Seq<char>>) -> bool {
    &&& forall|t: Seq<char>| #[trigger]
        json_laws::stands_under(figures, name, JsonView::Text(t)) ==> shown == (if text::is_blank(t) {
            None
        } else {
            Some(text::trim(t))
        })
    &&& forall|found: JsonView| #[trigger]
        json_laws::stands_under(figures, name, found) && !(found is Text) ==> shown is None
    &&& json_laws::lacks(figures, name) ==> shown is None
}

/// Whether `shown` is the amount under `name`: the digits of the number there, or
/// the text there without white space at its ends, where it writes down a number;
/// nothing where there is neither.
pub open spec fn reports_amount(figures: JsonView, name: Seq<char>, shown: Option<Seq<char>>) -> bool {
    &&& forall|n: Option<i64>, t: Seq<char>| #[trigger]
        json_laws::stands_under(figures, name, JsonView::Number { integer: n, text: t }) ==> shown == Some(t)
    &&& forall|t: Seq<char>| #[trigger]
        json_laws::stands_under(figures, name, JsonView::Text(t)) ==> shown == (if number::is_float_text(
            text::trim(t),
        ) {
            Some(text::trim(t))
        } else {
            None
        })
    &&& forall|found: JsonView| #[trigger]
        json_laws::stands_under(figures, name, found) && !(found is Text) && !(found is Number)
            ==> shown is None
    &&& json_laws::lacks(figures, name) ==> shown is None
}

proof fn lemma_found(figures: JsonView, name: Seq<char>)
    ensures
        forall|found: JsonView| #[trigger]
            json_laws::stands_under(figures, name, found) <==> figures.field(name) == Some(found),
        json_laws::lacks(figures, name) <==> figures.field(name) is None,
{
    assert forall|found: JsonView| #[trigger]
        json_laws::stands_under(figures, name, found) <==> figures.field(name) == Some(found) by {
        json_laws::fields_are_what_stands_there(figures, name, found);
    }
    json_laws::fields_are_what_stands_there(figures, name, JsonView::Null);
}

proof fn lemma_reports(figures: JsonView, name: Seq<char>)
    ensures
        reports_scalar(figures, name, api::scalar_in(figures.field(name))),
        reports_text(figures, name, api::string_in(figures.field(name))),
        reports_amount(figures, name, api::amount_in(figures.field(name))),
{
    lemma_found(figures, name);
}

proof fn lemma_amount_is(figures: JsonView, name: Seq<char>, shown: Option<Seq<char>>)
    requires
        reports_amount(figures, name, shown),
    ensures
        shown == api::amount_in(figures.field(name)),
{
    lemma_found(figures, name);
    match figures.field(name) {
        Some(JsonView::Number { integer: n, text: t }) => {
            assert(json_laws::stands_under(figures, name, JsonView::Number { integer: n, text: t }));
        },
        Some(JsonView::Text(t)) => {
            assert(json_laws::stands_under(figures, name, JsonView::Text(t)));
        },
        Some(found) => {
            assert(json_laws::stands_under(figures, name, found));
        },
        None => {},
    }
}

/// Each figure of a usage report comes from the field of its own name, whatever
/// stands in the others: what was spent from `spend`, the budget from
/// `max_budget`, its time from `budget_duration`, its end from `budget_reset_at`,
/// and the last use from `last_active`. There is a report just where there is an
/// amount under `spend`.
pub proof fn figures_come_from_their_own_fields(
    http_status: u16,
    value: JsonView,
    figures: JsonView,
    spent: Option<Seq<char>>,
)
    requires
        holds_figures(value, figures),
        reports_amount(figures, "spend"@, spent),
    ensures
        match api::spend_outcome(http_status, true, Some(value)) {
            Ok(report) => {
                &&& spent == Some(report.spend)
                &&& reports_amount(figures, "max_budget"@, report.max_budget)
                &&& reports_text(figures, "budget_duration"@, report.budget_duration)
                &&& reports_scalar(figures, "budget_reset_at"@, report.budget_reset_at)
                &&& reports_scalar(figures, "last_active"@, report.last_active)
            },
            Err(fault) => spent is None && fault == ApiFault::NoSpend,
        },
{
    json_laws::fields_are_what_stands_there(value, "info"@, figures);
    assert(api::figures_in(value) == figures);
    lemma_amount_is(figures, "spend"@, spent);
    lemma_reports(figures, "max_budget"@);
    lemma_reports(figures, "budget_duration"@);
    lemma_reports(figures, "budget_reset_at"@);
    lemma_reports(figures, "last_active"@);
}

/// Whether a text stands under `name`, and which.
pub open spec fn text_under(value: JsonView, name: Seq<char>, found: Option<Seq<char>>) -> bool {
    match found {
        Some(t) => json_laws::stands_under(value, name, JsonView::Text(t)),
        None => forall|t: Seq<char>| !#[trigger] json_laws::stands_under(value, name, JsonView::Text(t)),
    }
}

/// The message of a usage query that failed is the text under `error`, else the
/// one under `message` of the object under `error`, else the one under `message`,
/// else the one under `msg`, else a stand-in.
pub proof fn usage_faults_are_told_in_order(
    http_status: u16,
    value: JsonView,
    error: JsonView,
    named: Option<Seq<char>>,
    inner: Option<Seq<char>>,
    message: Option<Seq<char>>,
    short: Option<Seq<char>>,
)
    requires
        json_laws::stands_under(value, "error"@, error) || json_laws::lacks(value, "error"@) && error is Null,
        text_under(value, "error"@, named),
        text_under(error, "message"@, inner),
        text_under(value, "message"@, message),
        text_under(value, "msg"@, short),
    ensures
        api::spend_outcome(http_status, false, Some(value)) matches Err(fault) && (
        fault matches ApiFault::Http { status, message: told } && status == http_status && shows(
            told,
            match (named, inner, message, short) {
                (Some(t), _, _, _) => t,
                (None, Some(t), _, _) => t,
                (None, None, Some(t), _) => t,
                (None, None, None, Some(t)) => t,
                (None, None, None, None) => "请求失败"@,
            },
        )),
{
    let told = match (named, inner, message, short) {
        (Some(t), _, _, _) => t,
        (None, Some(t), _, _) => t,
        (None, None, Some(t), _) => t,
        (None, None, None, Some(t)) => t,
        (None, None, None, None) => "请求失败"@,
    };
    messages_are_cut_to_one_line(told);
    lemma_found(value, "error"@);
    lemma_found(value, "message"@);
    lemma_found(value, "msg"@);
    lemma_found(error, "message"@);
    lemma_text_under(value, "error"@, named);
    lemma_text_under(error, "message"@, inner);
    lemma_text_under(value, "message"@, message);
    lemma_text_under(value, "msg"@, short);
}

proof fn lemma_text_under(value: JsonView, name: Seq<char>, found: Option<Seq<char>>)
    requires
        text_under(value, name, found),
    ensures
        value.text_field(name) == found,
{
    lemma_found(value, name);
    if value.text_field(name) is Some {
        assert(json_laws::stands_under(value, name, JsonView::Text(value.text_field(name)->0)));
    }
}

/// A fault is told with the status and the message that it came with.
pub proof fn faults_are_told_with_their_message(status: u16, message: Seq<char>)
    ensures
        (ApiFault::Http { status, message }).wording() == text_laws::run(
            seq![
                text_laws::run(seq!["HTTP "@, number::decimal(status as nat), ": "@]),
                message,
            ],
        ),
        ApiFault::Refused(message).wording() == text_laws::run(
            seq!["服务端拒绝了请求："@, message],
        ),
        ApiFault::ReportedFailure(message).wording() == text_laws::run(
            seq!["服务端报告上传失败："@, message],
        ),
{
    text_laws::lemma_run_three("HTTP "@, number::decimal(status as nat), ": "@);
    text_laws::lemma_run_two(
        text_laws::run(seq!["HTTP "@, number::decimal(status as nat), ": "@]),
        message,
    );
    text_laws::lemma_run_two("服务端拒绝了请求："@, message);
    text_laws::lemma_run_two("服务端报告上传失败："@, message);
}

/// A result is what is expected of it just where it has the same identifier, or
/// report, or the same fault.
pub proof fn results_are_held_to_what_is_expected(
    upload: Result<UploadResult, ApiError>,
    expected_upload: Result<Option<Seq<char>>, ApiFault>,
    report: Result<SpendInfo, ApiError>,
    expected_report: Result<SpendView, ApiFault>,
)
    ensures
        api::is_upload_result(upload, expected_upload) <==> {
            &&& upload is Ok <==> expected_upload is Ok
            &&& upload matches Ok(made) ==> (made.file_id is Some
                <==> expected_upload->Ok_0 is Some) && (made.file_id matches Some(id)
                ==> expected_upload->Ok_0 == Some(id@))
            &&& upload matches Err(error) ==> expected_upload->Err_0 == error@
        },
        api::is_spend_result(report, expected_report) <==> {
            &&& report is Ok <==> expected_report is Ok
            &&& report matches Ok(made) ==> expected_report->Ok_0 == made@
            &&& report matches Err(error) ==> expected_report->Err_0 == error@
        },
{
}

} // verus!
