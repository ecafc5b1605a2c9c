//! The HTTP interface: what is sent for an upload or a usage query, and what a
//! response says.
use vstd::prelude::*;
use vstd::slice::slice_subrange;

use crate::config;
use crate::config::{authorization_header, normalize_token};
use crate::json;
use crate::json::{parse_json, JsonValue, JsonView};
use crate::logging;
use crate::logging::{upload_answered, usage_answered, LogNote};
use crate::number;
use crate::number::{decimal_text, parse_i64, text_is_float};
use crate::text;
use crate::text::{
    chars_end_ignoring_case, chars_of, string_of, take_chars, text_has_line_break, to_single_line,
    trim_chars, trim_end_char_of, trimmed,
};

verus! {

/// The direction of every upload: from the office network to the inner one.
pub const EXCHANGE_TYPE_EXTERNAL_TO_INTERNAL: u8 = 2;

/// How many characters of a message of the server are shown.
pub const MESSAGE_LIMIT: usize = 500;

/// What an upload needs besides the file.
#[derive(Clone)]
pub struct UploadOptions {
    pub api_base_url: String,
    pub token: String,
    pub receiver_users: Vec<String>,
    pub upload_file_name: Option<String>,
}

/// The options, with their texts as sequences of characters.
pub struct OptionsView {
    pub api_base_url: Seq<char>,
    pub token: Seq<char>,
    pub receiver_users: Seq<Seq<char>>,
    pub upload_file_name: Option<Seq<char>>,
}

impl View for UploadOptions {
    type V = OptionsView;

    open spec fn view(&self) -> OptionsView {
        OptionsView {
            api_base_url: self.api_base_url@,
            token: self.token@,
            receiver_users: text::texts(self.receiver_users@),
            upload_file_name: text::text_option(self.upload_file_name),
        }
    }
}

/// A copy of a list of texts.
pub fn copy_texts(list: &Vec<String>) -> (copy: Vec<String>)
    ensures
        text::texts(copy@) == text::texts(list@),
{
    let mut copy: Vec<String> = Vec::new();
    for i in 0..list.len()
        invariant
            copy@.len() == i,
            forall|j: int| 0 <= j < i ==> #[trigger] copy@[j]@ == list@[j]@,
    {
        copy.push(list[i].clone());
    }
    assert(text::texts(copy@) =~= text::texts(list@));
    copy
}

/// A copy of an optional text.
pub fn copy_option(value: &Option<String>) -> (copy: Option<String>)
    ensures
        text::text_option(copy) == text::text_option(*value),
{
    match value {
        Some(found) => Some(found.clone()),
        None => None,
    }
}

impl UploadOptions {
    /// A copy.
    pub fn duplicate(&self) -> (copy: UploadOptions)
        ensures
            copy@ == self@,
    {
        UploadOptions {
            api_base_url: self.api_base_url.clone(),
            token: self.token.clone(),
            receiver_users: copy_texts(&self.receiver_users),
            upload_file_name: copy_option(&self.upload_file_name),
        }
    }
}

/// What the server says of a finished upload.
#[derive(Debug, Clone, PartialEq, Eq)]
pub struct UploadResult {
    pub file_id: Option<String>,
}

/// What was spent. The amounts are the texts of floating-point numbers.
#[derive(Debug, Clone, PartialEq, Eq)]
pub struct SpendInfo {
    pub spend: String,
    pub max_budget: Option<String>,
    pub budget_duration: Option<String>,
    pub budget_reset_at: Option<String>,
    pub last_active: Option<String>,
}

/// What was spent, with its texts as sequences of characters.
pub struct SpendView {
    pub spend: Seq<char>,
    pub max_budget: Option<Seq<char>>,
    pub budget_duration: Option<Seq<char>>,
    pub budget_reset_at: Option<Seq<char>>,
    pub last_active: Option<Seq<char>>,
}

impl View for SpendInfo {
    type V = SpendView;

    open spec fn view(&self) -> SpendView {
        SpendView {
            spend: self.spend@,
            max_budget: text::text_option(self.max_budget),
            budget_duration: text::text_option(self.budget_duration),
            budget_reset_at: text::text_option(self.budget_reset_at),
            last_active: text::text_option(self.last_active),
        }
    }
}

impl SpendView {
    /// The amounts are numbers.
    pub open spec fn wf(self) -> bool {
        &&& number::is_float_text(self.spend)
        &&& self.max_budget is Some ==> number::is_float_text(self.max_budget->0)
    }
}

/// Why a request is not sent, or its response is no success.
#[derive(Debug)]
pub enum ApiError {
    NoReceivers,
    InvalidToken,
    InvalidApiKey,
    UnreadableUpload,
    UnreadableUsage,
    Http { status: u16, message: String },
    Refused(String),
    ReportedFailure(String),
    InvalidData,
    NoSpend,
}

/// An error, with its message as a sequence of characters.
pub enum ApiFault {
    NoReceivers,
    InvalidToken,
    InvalidApiKey,
    UnreadableUpload,
    UnreadableUsage,
    Http { status: u16, message: Seq<char> },
    Refused(Seq<char>),
    ReportedFailure(Seq<char>),
    InvalidData,
    NoSpend,
}

impl View for ApiError {
    type V = ApiFault;

    open spec fn view(&self) -> ApiFault {
        match self {
            ApiError::NoReceivers => ApiFault::NoReceivers,
            ApiError::InvalidToken => ApiFault::InvalidToken,
            ApiError::InvalidApiKey => ApiFault::InvalidApiKey,
            ApiError::UnreadableUpload => ApiFault::UnreadableUpload,
            ApiError::UnreadableUsage => ApiFault::UnreadableUsage,
            ApiError::Http { status, message } => ApiFault::Http {
                status: *status,
                message: message@,
            },
            ApiError::Refused(message) => ApiFault::Refused(message@),
            ApiError::ReportedFailure(message) => ApiFault::ReportedFailure(message@),
            ApiError::InvalidData => ApiFault::InvalidData,
            ApiError::NoSpend => ApiFault::NoSpend,
        }
    }
}

impl ApiFault {
    /// What the user reads.
    pub open spec fn wording(self) -> Seq<char> {
        match self {
            ApiFault::NoReceivers => "没有可用的接收人"@,
            ApiFault::InvalidToken => "个人令牌无效"@,
            ApiFault::InvalidApiKey => "API Key 无效"@,
            ApiFault::UnreadableUpload => "服务器返回了无法解析的响应"@,
            ApiFault::UnreadableUsage => "用量接口返回了无法解析的响应"@,
            ApiFault::Http { status, message } => "HTTP "@ + number::decimal(status as nat) + ": "@
                + message,
            ApiFault::Refused(message) => "服务端拒绝了请求："@ + message,
            ApiFault::ReportedFailure(message) => "服务端报告上传失败："@ + message,
            ApiFault::InvalidData => "服务器响应中的 data 字段无效"@,
            ApiFault::NoSpend => "未获取到消费额信息，请检查用量查询地址和 API Key"@,
        }
    }
}

impl ApiError {
    /// What the user reads.
    pub fn message(&self) -> (message: String)
        ensures
            message@ == self@.wording(),
    {
        match self {
            ApiError::NoReceivers => "没有可用的接收人".to_owned(),
            ApiError::InvalidToken => "个人令牌无效".to_owned(),
            ApiError::InvalidApiKey => "API Key 无效".to_owned(),
            ApiError::UnreadableUpload => "服务器返回了无法解析的响应".to_owned(),
            ApiError::UnreadableUsage => "用量接口返回了无法解析的响应".to_owned(),
            ApiError::Http { status, message } => "HTTP ".to_owned().concat(
                decimal_text(*status as u64).as_str(),
            ).concat(": ").concat(message.as_str()),
            ApiError::Refused(message) => "服务端拒绝了请求：".to_owned().concat(message.as_str()),
            ApiError::ReportedFailure(message) => "服务端报告上传失败：".to_owned().concat(
                message.as_str(),
            ),
            ApiError::InvalidData => "服务器响应中的 data 字段无效".to_owned(),
            ApiError::NoSpend => "未获取到消费额信息，请检查用量查询地址和 API Key".to_owned(),
        }
    }
}

/// What is shown of a message of the server: one line, and no more than the
/// first part of it.
pub open spec fn safe_message(value: Seq<char>) -> Seq<char> {
    text::at_most(text::single_line(value), MESSAGE_LIMIT as int)
}

/// What is shown of a message of the server.
pub fn safe_server_message(value: &str) -> (message: String)
    ensures
        message@ == safe_message(value@),
{
    let line = to_single_line(value);
    take_chars(line.as_str(), MESSAGE_LIMIT)
}

/// A shown message is one line of at most so many characters, and a message
/// that was one already is shown as it is.
pub proof fn shown_messages_are_short_lines(value: Seq<char>)
    ensures
        !text::has_line_break(safe_message(value)),
        safe_message(value).len() <= MESSAGE_LIMIT,
        !text::has_line_break(value) && value.len() <= MESSAGE_LIMIT ==> safe_message(value)
            == value,
{
    let shown = safe_message(value);
    assert forall|i: int| 0 <= i < shown.len() implies shown[i] != '\r' && shown[i] != '\n' by {
        assert(shown[i] == text::break_to_space(value[i]));
    }
    if !text::has_line_break(value) && value.len() <= MESSAGE_LIMIT {
        assert forall|i: int| 0 <= i < value.len() implies shown[i] == value[i] by {
            assert(value.contains(value[i]));
        }
        assert(shown =~= value);
    }
}

/// The message of a response to an upload, as it is shown.
pub open spec fn upload_message(value: JsonView) -> Seq<char> {
    safe_message(
        match value.text_field("message"@) {
            Some(message) => message,
            None => "请求失败"@,
        },
    )
}

/// The status of a response to an upload: a whole number, or its text.
pub open spec fn business_status(value: JsonView) -> Option<i64> {
    match value.field("status"@) {
        Some(JsonView::Number { integer, .. }) => integer,
        Some(JsonView::Text(status)) => number::i64_value(status),
        _ => None,
    }
}

/// The file's identifier in the data of a response to an upload, where the data
/// are of a kind that is understood.
pub open spec fn file_id_in(data: Option<JsonView>) -> Result<Option<Seq<char>>, ApiFault> {
    match data {
        Some(JsonView::Text(id)) => if id.len() > 0 {
            Ok(Some(id))
        } else {
            Err(ApiFault::InvalidData)
        },
        Some(JsonView::List(ids)) => Ok(
            if ids.len() > 0 {
                ids[0].as_text()
            } else {
                None
            },
        ),
        Some(JsonView::Bool(true)) | Some(JsonView::Null) | None => Ok(None),
        _ => Err(ApiFault::InvalidData),
    }
}

/// What a response to an upload says, given what its body parses to.
pub open spec fn upload_outcome(
    http_status: u16,
    http_success: bool,
    body: Option<JsonView>,
) -> Result<Option<Seq<char>>, ApiFault> {
    match body {
        None => Err(ApiFault::UnreadableUpload),
        Some(value) => if !http_success {
            Err(ApiFault::Http { status: http_status, message: upload_message(value) })
        } else if business_status(value) != Some(0i64) {
            Err(ApiFault::Refused(upload_message(value)))
        } else if value.field("data"@) == Some(JsonView::Bool(false)) {
            Err(ApiFault::ReportedFailure(upload_message(value)))
        } else {
            file_id_in(value.field("data"@))
        },
    }
}

/// Whether `result` is what `expected` says.
pub open spec fn is_upload_result(
    result: Result<UploadResult, ApiError>,
    expected: Result<Option<Seq<char>>, ApiFault>,
) -> bool {
    match expected {
        Ok(file_id) => result matches Ok(made) && text::text_option(made.file_id) == file_id,
        Err(fault) => result matches Err(error) && error@ == fault,
    }
}

/// An upload counts as done only where the server answered with a success, a
/// status of zero, and data that do not say otherwise; a request that was
/// refused is never taken for one that was served.
pub proof fn refused_uploads_are_errors(http_status: u16, http_success: bool, body: Option<JsonView>)
    ensures
        upload_outcome(http_status, http_success, body) is Ok ==> {
            &&& http_success
            &&& body is Some
            &&& business_status(body->0) == Some(0i64)
            &&& body->0.field("data"@) != Some(JsonView::Bool(false))
        },
        http_success && body is Some && business_status(body->0) == Some(0i64) && (body->0.field(
            "data"@,
        ) is None || body->0.field("data"@) == Some(JsonView::Bool(true)))
            ==> upload_outcome(http_status, http_success, body) == Ok::<Option<Seq<char>>, ApiFault>(
            None,
        ),
{
}

fn status_of(value: &JsonValue) -> (status: Option<i64>)
    ensures
        status == business_status(value@),
{
    match value.get("status") {
        Some(JsonValue::Number { integer, .. }) => *integer,
        Some(JsonValue::Text(status)) => parse_i64(status.as_str()),
        _ => None,
    }
}

/// Reads the response to an upload, given what its body parses to.
pub fn read_upload_response(http_status: u16, http_success: bool, body: &Option<JsonValue>) -> (result:
    Result<UploadResult, ApiError>)
    ensures
        is_upload_result(
            result,
            upload_outcome(http_status, http_success, json::json_view(*body)),
        ),
{
    let value = match body {
        Some(value) => value,
        None => return Err(ApiError::UnreadableUpload),
    };
    let message = safe_server_message(
        match value.get_str("message") {
            Some(message) => message,
            None => "请求失败",
        },
    );
    if !http_success {
        return Err(ApiError::Http { status: http_status, message });
    }
    match status_of(value) {
        Some(0) => {},
        _ => return Err(ApiError::Refused(message)),
    }
    match value.get("data") {
        Some(JsonValue::Bool(false)) => Err(ApiError::ReportedFailure(message)),
        Some(JsonValue::Text(id)) => if id.as_str().is_empty() {
            Err(ApiError::InvalidData)
        } else {
            Ok(UploadResult { file_id: Some(id.clone()) })
        },
        Some(JsonValue::List(ids)) => {
            if ids.len() == 0 {
                return Ok(UploadResult { file_id: None });
            }
            match ids[0].as_str() {
                Some(id) => Ok(UploadResult { file_id: Some(id.to_owned()) }),
                None => Ok(UploadResult { file_id: None }),
            }
        },
        Some(JsonValue::Bool(true)) | Some(JsonValue::Null) | None => Ok(
            UploadResult { file_id: None },
        ),
        _ => Err(ApiError::InvalidData),
    }
}

/// Reads the response to an upload.
pub fn parse_upload_response(http_status: u16, http_success: bool, body: &str) -> (result: Result<
    UploadResult,
    ApiError,
>)
    ensures
        is_upload_result(
            result,
            upload_outcome(http_status, http_success, json::parsed_json(body@)),
        ),
{
    let value = parse_json(body);
    read_upload_response(http_status, http_success, &value)
}

/// Reads the response to an upload, and says what is logged of it.
pub fn answer_upload(http_status: u16, http_success: bool, body: &str) -> (answer: (
    Result<UploadResult, ApiError>,
    LogNote,
))
    ensures
        ({
            let outcome = upload_outcome(http_status, http_success, json::parsed_json(body@));
            &&& is_upload_result(answer.0, outcome)
            &&& answer.1@ == logging::upload_answered_note(http_status, outcome is Ok)
        }),
{
    let result = parse_upload_response(http_status, http_success, body);
    let note = upload_answered(http_status, result.is_ok());
    (result, note)
}

/// The amount in `value`: a number, or a text that is one.
pub open spec fn amount_in(value: Option<JsonView>) -> Option<Seq<char>> {
    match value {
        Some(JsonView::Number { text, .. }) => Some(text),
        Some(JsonView::Text(text)) => if number::is_float_text(text::trim(text)) {
            Some(text::trim(text))
        } else {
            None
        },
        _ => None,
    }
}

/// The text in `value`, where it is not blank.
pub open spec fn string_in(value: Option<JsonView>) -> Option<Seq<char>> {
    match value {
        Some(JsonView::Text(text)) => if text::is_blank(text) {
            None
        } else {
            Some(text::trim(text))
        },
        _ => None,
    }
}

/// The text in `value`, where it is not blank, or the text of its number.
pub open spec fn scalar_in(value: Option<JsonView>) -> Option<Seq<char>> {
    match value {
        Some(JsonView::Number { text, .. }) => Some(text),
        _ => string_in(value),
    }
}

/// The message in an error response: a text under `error`, one under `message`
/// of the object there, one under `message`, or one under `msg`.
pub open spec fn error_message_in(value: JsonView) -> Option<Seq<char>> {
    let error = value.field("error"@);
    if error is Some && error->0.as_text() is Some {
        error->0.as_text()
    } else if error is Some && error->0.text_field("message"@) is Some {
        error->0.text_field("message"@)
    } else if value.text_field("message"@) is Some {
        value.text_field("message"@)
    } else {
        value.text_field("msg"@)
    }
}

/// Where the figures of a response to a usage query stand: under `info`, or at
/// the top.
pub open spec fn figures_in(value: JsonView) -> JsonView {
    match value.field("info"@) {
        Some(info) => info,
        None => value,
    }
}

/// What a response to a usage query says, given what its body parses to.
pub open spec fn spend_outcome(
    http_status: u16,
    http_success: bool,
    body: Option<JsonView>,
) -> Result<SpendView, ApiFault> {
    match body {
        None => Err(ApiFault::UnreadableUsage),
        Some(value) => if !http_success {
            Err(
                ApiFault::Http {
                    status: http_status,
                    message: safe_message(
                        match error_message_in(value) {
                            Some(message) => message,
                            None => "请求失败"@,
                        },
                    ),
                },
            )
        } else {
            let info = figures_in(value);
            match amount_in(info.field("spend"@)) {
                None => Err(ApiFault::NoSpend),
                Some(spend) => Ok(
                    SpendView {
                        spend,
                        max_budget: amount_in(info.field("max_budget"@)),
                        budget_duration: string_in(info.field("budget_duration"@)),
                        budget_reset_at: scalar_in(info.field("budget_reset_at"@)),
                        last_active: scalar_in(info.field("last_active"@)),
                    },
                ),
            }
        },
    }
}

/// Whether `result` is what `expected` says.
pub open spec fn is_spend_result(
    result: Result<SpendInfo, ApiError>,
    expected: Result<SpendView, ApiFault>,
) -> bool {
    match expected {
        Ok(spend) => result matches Ok(made) && made@ == spend,
        Err(fault) => result matches Err(error) && error@ == fault,
    }
}

proof fn lemma_field_is_sound(value: JsonView, key: Seq<char>)
    requires
        value.sound(),
    ensures
        value.field(key) matches Some(found) ==> found.sound(),
{
    if value is Object {
        lemma_entry_is_sound(value->Object_0, key);
    }
}

proof fn lemma_entry_is_sound(entries: Seq<(Seq<char>, JsonView)>, key: Seq<char>)
    requires
        forall|i: int| 0 <= i < entries.len() ==> (#[trigger] entries[i]).1.sound(),
    ensures
        json::entry(entries, key) matches Some(found) ==> found.sound(),
    decreases entries.len(),
{
    if entries.len() > 0 && entries[0].0 != key {
        let rest = entries.drop_first();
        assert forall|i: int| 0 <= i < rest.len() implies (#[trigger] rest[i]).1.sound() by {
            assert(rest[i] == entries[i + 1]);
        }
        lemma_entry_is_sound(rest, key);
    }
}

/// The amounts that a usage query yields are numbers. It yields none where the
/// request was refused, and yields one for every number that stands where the
/// amount is looked for.
pub proof fn spent_amounts_are_numbers(http_status: u16, http_success: bool, body: Option<JsonView>)
    requires
        body is Some ==> body->0.sound(),
    ensures
        spend_outcome(http_status, http_success, body) matches Ok(spend) ==> spend.wf()
            && http_success,
        http_success && body is Some && (figures_in(body->0).field("spend"@) matches Some(
            amount,
        ) && amount is Number) ==> spend_outcome(http_status, http_success, body) is Ok,
{
    if body is Some {
        let value = body->0;
        lemma_field_is_sound(value, "info"@);
        lemma_field_is_sound(figures_in(value), "spend"@);
        lemma_field_is_sound(figures_in(value), "max_budget"@);
    }
}

fn number_from_value(value: Option<&JsonValue>) -> (amount: Option<String>)
    ensures
        text::text_option(amount) == amount_in(
            match value {
                Some(found) => Some(found@),
                None => None,
            },
        ),
{
    match value {
        Some(JsonValue::Number { text, .. }) => Some(text.clone()),
        Some(JsonValue::Text(text)) => {
            let amount = trimmed(text.as_str());
            if text_is_float(amount.as_str()) {
                Some(amount)
            } else {
                None
            }
        },
        _ => None,
    }
}

fn string_from_value(value: Option<&JsonValue>) -> (found: Option<String>)
    ensures
        text::text_option(found) == string_in(
            match value {
                Some(found) => Some(found@),
                None => None,
            },
        ),
{
    match value {
        Some(JsonValue::Text(text)) => {
            let result = trimmed(text.as_str());
            if result.as_str().is_empty() {
                None
            } else {
                Some(result)
            }
        },
        _ => None,
    }
}

fn scalar_to_string(value: Option<&JsonValue>) -> (found: Option<String>)
    ensures
        text::text_option(found) == scalar_in(
            match value {
                Some(found) => Some(found@),
                None => None,
            },
        ),
{
    match value {
        Some(JsonValue::Number { text, .. }) => Some(text.clone()),
        _ => string_from_value(value),
    }
}

fn extract_error_message(value: &JsonValue) -> (message: Option<String>)
    ensures
        text::text_option(message) == error_message_in(value@),
{
    match value.get("error") {
        Some(error) => {
            match error.as_str() {
                Some(found) => return Some(found.to_owned()),
                None => {},
            }
            match error.get_str("message") {
                Some(found) => return Some(found.to_owned()),
                None => {},
            }
        },
        None => {},
    }
    match value.get_str("message") {
        Some(found) => Some(found.to_owned()),
        None => match value.get_str("msg") {
            Some(found) => Some(found.to_owned()),
            None => None,
        },
    }
}

/// Reads the response to a usage query, given what its body parses to.
pub fn read_spend_response(http_status: u16, http_success: bool, body: &Option<JsonValue>) -> (result:
    Result<SpendInfo, ApiError>)
    ensures
        is_spend_result(result, spend_outcome(http_status, http_success, json::json_view(*body))),
{
    let value = match body {
        Some(value) => value,
        None => return Err(ApiError::UnreadableUsage),
    };
    if !http_success {
        let message = match extract_error_message(value) {
            Some(message) => message,
            None => "请求失败".to_owned(),
        };
        return Err(
            ApiError::Http {
                status: http_status,
                message: safe_server_message(message.as_str()),
            },
        );
    }
    let info = match value.get("info") {
        Some(info) => info,
        None => value,
    };
    let spend = match number_from_value(info.get("spend")) {
        Some(spend) => spend,
        None => return Err(ApiError::NoSpend),
    };
    Ok(
        SpendInfo {
            spend,
            max_budget: number_from_value(info.get("max_budget")),
            budget_duration: string_from_value(info.get("budget_duration")),
            budget_reset_at: scalar_to_string(info.get("budget_reset_at")),
            last_active: scalar_to_string(info.get("last_active")),
        },
    )
}

/// Reads the response to a usage query.
pub fn parse_spend_response(http_status: u16, http_success: bool, body: &str) -> (result: Result<
    SpendInfo,
    ApiError,
>)
    ensures
        is_spend_result(
            result,
            spend_outcome(http_status, http_success, json::parsed_json(body@)),
        ),
        result matches Ok(info) ==> info@.wf(),
{
    let value = parse_json(body);
    proof {
        spent_amounts_are_numbers(http_status, http_success, json::json_view(value));
    }
    read_spend_response(http_status, http_success, &value)
}

/// Reads the response to a usage query, and says what is logged of it.
pub fn answer_usage(http_status: u16, http_success: bool, body: &str) -> (answer: (
    Result<SpendInfo, ApiError>,
    LogNote,
))
    ensures
        ({
            let outcome = spend_outcome(http_status, http_success, json::parsed_json(body@));
            &&& is_spend_result(answer.0, outcome)
            &&& answer.1@ == logging::usage_answered_note(http_status, outcome is Ok)
        }),
        answer.0 matches Ok(info) ==> info@.wf(),
{
    let result = parse_spend_response(http_status, http_success, body);
    let note = usage_answered(http_status, result.is_ok());
    (result, note)
}

/// The address in `value`, without white space at its ends and slashes behind.
pub open spec fn bare_address(value: Seq<char>) -> Seq<char> {
    text::trim_end_char(text::trim(value), '/')
}

/// Whether `suffix` ends `base`, up to the case of letters, and more stands in
/// front of it.
pub open spec fn has_suffix(base: Seq<char>, suffix: Seq<char>) -> bool {
    base.len() > suffix.len() && text::ends_with_ignoring_case(base, suffix)
}

/// `base` without its last `n` characters and the slashes in front of them.
pub open spec fn without_suffix(base: Seq<char>, n: int) -> Seq<char> {
    text::trim_end_char(base.take(base.len() - n), '/')
}

/// The root of the interface that a usage query goes to: the address without
/// the path of one of its endpoints.
pub open spec fn usage_root(value: Seq<char>) -> Seq<char> {
    let base = bare_address(value);
    if has_suffix(base, "/v1/responses"@) {
        without_suffix(base, 13)
    } else if has_suffix(base, "/v1/chat/completions"@) {
        without_suffix(base, 20)
    } else if has_suffix(base, "/v1"@) {
        without_suffix(base, 3)
    } else {
        base
    }
}

fn chars_have_suffix(base: &[char], suffix: &str) -> (found: bool)
    ensures
        found == has_suffix(base@, suffix@),
{
    base.len() > chars_of(suffix).len() && chars_end_ignoring_case(base, suffix)
}

/// The root of the interface that a usage query goes to.
pub fn normalize_usage_api_base_url(value: &str) -> (root: String)
    ensures
        root@ == usage_root(value@),
{
    let chars = chars_of(value);
    let base = trim_end_char_of(trim_chars(chars.as_slice()), '/');
    proof {
        reveal_strlit("/v1/responses");
        reveal_strlit("/v1/chat/completions");
        reveal_strlit("/v1");
    }
    let n: usize = if chars_have_suffix(base, "/v1/responses") {
        13
    } else if chars_have_suffix(base, "/v1/chat/completions") {
        20
    } else if chars_have_suffix(base, "/v1") {
        3
    } else {
        return string_of(base);
    };
    assert(base@.subrange(0, base@.len() - n) =~= base@.take(base@.len() - n));
    string_of(trim_end_char_of(slice_subrange(base, 0, base.len() - n), '/'))
}

/// A part of the form that an upload sends.
#[derive(Debug)]
pub enum FormPart {
    /// A field with a text.
    Field { name: String, value: String },
    /// The file, under the name that the server sees.
    File { name: String, file_name: String },
}

/// A part of a form, with its texts as sequences of characters.
pub enum PartView {
    Field { name: Seq<char>, value: Seq<char> },
    File { name: Seq<char>, file_name: Seq<char> },
}

impl View for FormPart {
    type V = PartView;

    open spec fn view(&self) -> PartView {
        match self {
            FormPart::Field { name, value } => PartView::Field { name: name@, value: value@ },
            FormPart::File { name, file_name } => PartView::File {
                name: name@,
                file_name: file_name@,
            },
        }
    }
}

/// The views of the parts of a form.
pub open spec fn part_views(parts: Seq<FormPart>) -> Seq<PartView> {
    Seq::new(parts.len(), |i: int| parts[i]@)
}

/// What is sent to upload a file.
#[derive(Debug)]
pub struct UploadRequest {
    pub endpoint: String,
    pub authorization: String,
    pub parts: Vec<FormPart>,
}

/// The address that files are uploaded to.
pub open spec fn upload_endpoint(api_base_url: Seq<char>) -> Seq<char> {
    text::trim_end_char(api_base_url, '/') + "/api/exchange/user/transfer/open/upload"@
}

/// The name that the server sees: the one asked for, else the file's own, else
/// a stand-in.
pub open spec fn sent_name(asked: Option<Seq<char>>, own: Option<Seq<char>>) -> Seq<char> {
    match asked {
        Some(name) => name,
        None => match own {
            Some(name) => name,
            None => "upload.bin"@,
        },
    }
}

/// The form of an upload: a field for each receiver, the file, the direction.
pub open spec fn upload_form(receivers: Seq<Seq<char>>, file_name: Seq<char>) -> Seq<PartView> {
    Seq::new(
        receivers.len(),
        |i: int| PartView::Field { name: "receiverUser"@, value: receivers[i] },
    ) + seq![
        PartView::File { name: "file"@, file_name },
        PartView::Field {
            name: "exchangeType"@,
            value: number::decimal(EXCHANGE_TYPE_EXTERNAL_TO_INTERNAL as nat),
        },
    ]
}

/// Refuses options that name no receiver.
pub fn check_receivers(options: &UploadOptions) -> (verdict: Result<(), ApiError>)
    ensures
        verdict is Ok <==> options@.receiver_users.len() > 0,
        verdict matches Err(error) ==> error@ == ApiFault::NoReceivers,
{
    if options.receiver_users.len() == 0 {
        Err(ApiError::NoReceivers)
    } else {
        Ok(())
    }
}

/// Why nothing is sent with these options, where nothing is: there is no
/// receiver, or the token cannot stand in a request header.
pub open spec fn upload_refusal(options: OptionsView) -> Option<ApiFault> {
    if options.receiver_users.len() == 0 {
        Some(ApiFault::NoReceivers)
    } else if config::header_of(options.token) is Err {
        Some(ApiFault::InvalidToken)
    } else {
        None
    }
}

/// What is sent to upload a file with the last component `own_name`, or why
/// nothing is.
pub fn upload_request(options: &UploadOptions, own_name: &Option<String>) -> (request: Result<
    UploadRequest,
    ApiError,
>)
    ensures
        match upload_refusal(options@) {
            Some(fault) => request matches Err(error) && error@ == fault,
            None => request matches Ok(made) && {
                &&& made.endpoint@ == upload_endpoint(options@.api_base_url)
                &&& config::header_of(options@.token) == Ok::<Seq<char>, config::InvalidToken>(
                    made.authorization@,
                )
                &&& part_views(made.parts@) == upload_form(
                    options@.receiver_users,
                    sent_name(options@.upload_file_name, text::text_option(*own_name)),
                )
            },
        },
{
    match check_receivers(options) {
        Err(error) => return Err(error),
        Ok(()) => {},
    }
    let file_name = match &options.upload_file_name {
        Some(name) => name.clone(),
        None => match own_name {
            Some(name) => name.clone(),
            None => "upload.bin".to_owned(),
        },
    };
    let ghost sent = file_name@;
    let ghost receivers = options@.receiver_users;
    let ghost form = upload_form(receivers, sent);
    let mut parts: Vec<FormPart> = Vec::new();
    for i in 0..options.receiver_users.len()
        invariant
            receivers == options@.receiver_users,
            form == upload_form(receivers, sent),
            part_views(parts@) == form.take(i as int),
    {
        let ghost before = parts@;
        let part = FormPart::Field {
            name: "receiverUser".to_owned(),
            value: options.receiver_users[i].clone(),
        };
        parts.push(part);
        assert(part@ == form[i as int]);
        assert(part_views(parts@) =~= part_views(before).push(part@));
        assert(form.take(i + 1) =~= form.take(i as int).push(form[i as int]));
    }
    let ghost before = parts@;
    parts.push(FormPart::File { name: "file".to_owned(), file_name });
    parts.push(
        FormPart::Field {
            name: "exchangeType".to_owned(),
            value: decimal_text(EXCHANGE_TYPE_EXTERNAL_TO_INTERNAL as u64),
        },
    );
    assert(part_views(parts@) =~= form) by {
        assert forall|i: int| 0 <= i < before.len() implies part_views(parts@)[i] == form[i] by {
            assert(part_views(before)[i] == form.take(before.len() as int)[i]);
        }
    }
    let base = chars_of(options.api_base_url.as_str());
    let endpoint = string_of(trim_end_char_of(base.as_slice(), '/')).concat(
        "/api/exchange/user/transfer/open/upload",
    );
    match authorization_header(options.token.as_str()) {
        Err(_) => Err(ApiError::InvalidToken),
        Ok(authorization) => Ok(UploadRequest { endpoint, authorization, parts }),
    }
}

/// How much of a file went out.
#[derive(Debug, Clone, Copy, PartialEq, Eq, Structural)]
pub struct UploadProgress {
    pub sent: u64,
    pub total: u64,
}

/// How much went out once so much more has, up to the most that can be counted.
pub open spec fn sent_with(sent: u64, chunk: u64) -> u64 {
    if sent + chunk > u64::MAX {
        u64::MAX
    } else {
        (sent + chunk) as u64
    }
}

impl UploadProgress {
    /// Counts a chunk that went out.
    pub fn advance(&mut self, chunk: u64)
        ensures
            final(self).total == old(self).total,
            final(self).sent == (if old(self).sent + chunk > u64::MAX {
                u64::MAX as int
            } else {
                old(self).sent + chunk
            }),
            final(self).sent == sent_with(old(self).sent, chunk),
    {
        self.sent = self.sent.saturating_add(chunk);
    }
}

/// What is sent to ask for the usage.
#[derive(Debug)]
pub struct UsageRequest {
    pub endpoint: String,
    pub authorization: String,
}

/// Whether a key can stand in a request header.
pub open spec fn usable_key(api_key: Seq<char>) -> bool {
    config::token_of(api_key).len() > 0 && !text::has_line_break(config::token_of(api_key))
}

/// The `Authorization` header of a usage query.
pub open spec fn usage_header(api_key: Seq<char>) -> Seq<char> {
    "Bearer "@ + config::token_of(api_key)
}

/// The address that the usage is asked for at.
pub open spec fn usage_endpoint(api_base_url: Seq<char>) -> Seq<char> {
    usage_root(api_base_url) + "/key/info"@
}

/// What is sent to ask for the usage, or why nothing is.
pub fn usage_request(api_base_url: &str, api_key: &str) -> (request: Result<UsageRequest, ApiError>)
    ensures
        if usable_key(api_key@) {
            request matches Ok(made) && {
                &&& made.endpoint@ == usage_endpoint(api_base_url@)
                &&& made.authorization@ == "Bearer "@ + config::token_of(api_key@)
                &&& made.authorization@ == usage_header(api_key@)
            }
        } else {
            request matches Err(error) && error@ == ApiFault::InvalidApiKey
        },
{
    let key = normalize_token(api_key);
    if key.as_str().is_empty() || text_has_line_break(key.as_str()) {
        return Err(ApiError::InvalidApiKey);
    }
    Ok(
        UsageRequest {
            endpoint: normalize_usage_api_base_url(api_base_url).concat("/key/info"),
            authorization: "Bearer ".to_owned().concat(key.as_str()),
        },
    )
}

} // verus!
