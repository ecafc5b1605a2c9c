//! The diagnostic logs.
use vstd::prelude::*;

use crate::api::EXCHANGE_TYPE_EXTERNAL_TO_INTERNAL;
use crate::number;
use crate::number::decimal_text;
use crate::text;
use crate::text::to_single_line;
use crate::text_laws;

verus! {

/// A line to be added to a log.
#[derive(Debug)]
pub struct LogEntry {
    /// The file, in the app's data directory.
    pub file_name: &'static str,
    /// The line, with its line feed.
    pub line: String,
}

/// What is to be logged.
#[derive(Debug)]
pub struct LogNote {
    pub category: &'static str,
    pub message: String,
}

/// What is to be logged, with its texts as sequences of characters.
pub struct NoteView {
    pub category: Seq<char>,
    pub message: Seq<char>,
}

impl View for LogNote {
    type V = NoteView;

    open spec fn view(&self) -> NoteView {
        NoteView { category: self.category@, message: self.message@ }
    }
}

/// The views of what is to be logged.
pub open spec fn note_views(notes: Seq<LogNote>) -> Seq<NoteView> {
    Seq::new(notes.len(), |i: int| notes[i]@)
}

/// A line of a log: the time, the category, and the message on that one line.
pub open spec fn log_line(timestamp: Seq<char>, category: Seq<char>, message: Seq<char>) -> Seq<
    char,
> {
    "["@ + timestamp + "] ["@ + category + "] "@ + text::single_line(message) + "\n"@
}

fn make_line(timestamp: &str, category: &str, message: &str) -> (line: String)
    ensures
        line@ == log_line(timestamp@, category@, message@),
{
    "[".to_owned().concat(timestamp).concat("] [").concat(category).concat("] ").concat(
        to_single_line(message).as_str(),
    ).concat("\n")
}

/// What is logged of the app's work.
pub fn application_log(timestamp: &str, category: &str, message: &str) -> (entry: LogEntry)
    ensures
        entry.file_name@ == "application.log"@,
        entry.line@ == log_line(timestamp@, category@, message@),
{
    LogEntry { file_name: "application.log", line: make_line(timestamp, category, message) }
}

/// `true` or `false`.
pub open spec fn truth(value: bool) -> Seq<char> {
    if value {
        "true"@
    } else {
        "false"@
    }
}

fn truth_text(value: bool) -> (text: &'static str)
    ensures
        text@ == truth(value),
{
    if value {
        "true"
    } else {
        "false"
    }
}

/// What is logged where an upload starts: the path, the size and the direction.
pub open spec fn upload_started_note(shown_path: Seq<char>, size: nat) -> NoteView {
    NoteView {
        category: "UPLOAD"@,
        message: "开始上传：file="@ + shown_path + "; size="@ + number::decimal(size)
            + "; exchangeType="@ + number::decimal(EXCHANGE_TYPE_EXTERNAL_TO_INTERNAL as nat),
    }
}

/// What is logged where an upload was answered.
pub open spec fn upload_answered_note(status: u16, success: bool) -> NoteView {
    NoteView {
        category: "HTTP"@,
        message: "上传响应：status="@ + number::decimal(status as nat) + "; success="@ + truth(
            success,
        ),
    }
}

/// What is logged where an upload has failed.
pub open spec fn upload_failed_note(file_name: Seq<char>, error: Seq<char>) -> NoteView {
    NoteView { category: "ERROR"@, message: "上传失败：file="@ + file_name + "; error="@ + error }
}

/// What is logged where the worker of an upload is gone.
pub open spec fn worker_lost_note(file_name: Seq<char>) -> NoteView {
    NoteView { category: "ERROR"@, message: "上传工作线程意外结束：file="@ + file_name }
}

/// What is logged where the usage is asked for.
pub open spec fn usage_started_note(endpoint: Seq<char>) -> NoteView {
    NoteView { category: "USAGE"@, message: "开始查询用量：endpoint="@ + endpoint }
}

/// What is logged where a usage query was answered.
pub open spec fn usage_answered_note(status: u16, success: bool) -> NoteView {
    NoteView {
        category: "HTTP"@,
        message: "用量查询响应：status="@ + number::decimal(status as nat) + "; success="@ + truth(
            success,
        ),
    }
}

/// What is logged where an upload starts.
pub fn upload_started(shown_path: &str, size: u64) -> (note: LogNote)
    ensures
        note@ == upload_started_note(shown_path@, size as nat),
{
    LogNote {
        category: "UPLOAD",
        message: "开始上传：file=".to_owned().concat(shown_path).concat("; size=").concat(
            decimal_text(size).as_str(),
        ).concat("; exchangeType=").concat(
            decimal_text(EXCHANGE_TYPE_EXTERNAL_TO_INTERNAL as u64).as_str(),
        ),
    }
}

/// What is logged where an upload was answered.
pub fn upload_answered(status: u16, success: bool) -> (note: LogNote)
    ensures
        note@ == upload_answered_note(status, success),
{
    LogNote {
        category: "HTTP",
        message: "上传响应：status=".to_owned().concat(decimal_text(status as u64).as_str()).concat(
            "; success=",
        ).concat(truth_text(success)),
    }
}

/// What is logged where an upload has failed.
pub fn upload_failed(file_name: &str, error: &str) -> (note: LogNote)
    ensures
        note@ == upload_failed_note(file_name@, error@),
{
    LogNote {
        category: "ERROR",
        message: "上传失败：file=".to_owned().concat(file_name).concat("; error=").concat(error),
    }
}

/// What is logged where the worker of an upload is gone.
pub fn worker_lost(file_name: &str) -> (note: LogNote)
    ensures
        note@ == worker_lost_note(file_name@),
{
    LogNote {
        category: "ERROR",
        message: "上传工作线程意外结束：file=".to_owned().concat(file_name),
    }
}

/// What is logged where the usage is asked for.
pub fn usage_started(endpoint: &str) -> (note: LogNote)
    ensures
        note@ == usage_started_note(endpoint@),
{
    LogNote {
        category: "USAGE",
        message: "开始查询用量：endpoint=".to_owned().concat(endpoint),
    }
}

/// What is logged where a usage query was answered.
pub fn usage_answered(status: u16, success: bool) -> (note: LogNote)
    ensures
        note@ == usage_answered_note(status, success),
{
    LogNote {
        category: "HTTP",
        message: "用量查询响应：status=".to_owned().concat(
            decimal_text(status as u64).as_str(),
        ).concat("; success=").concat(truth_text(success)),
    }
}

/// What is logged where a notification could not be shown.
pub fn notification_failed(error: &str) -> (note: LogNote)
    ensures
        note@ == (NoteView { category: "NOTIFY"@, message: "系统通知发送失败："@ + error@ }),
{
    LogNote { category: "NOTIFY", message: "系统通知发送失败：".to_owned().concat(error) }
}

/// What is logged of a crash.
pub fn crash_log(timestamp: &str, message: &str) -> (entry: LogEntry)
    ensures
        entry.file_name@ == "crash.log"@,
        entry.line@ == log_line(timestamp@, "PANIC"@, message@),
{
    LogEntry { file_name: "crash.log", line: make_line(timestamp, "PANIC", message) }
}

/// An entry is one line, whatever its message: its only line break is its last
/// character.
pub proof fn log_entries_are_single_lines(
    timestamp: Seq<char>,
    category: Seq<char>,
    message: Seq<char>,
)
    requires
        !text::has_line_break(timestamp),
        !text::has_line_break(category),
    ensures
        log_line(timestamp, category, message).last() == '\n',
        !text::has_line_break(log_line(timestamp, category, message).drop_last()),
{
    reveal_strlit("[");
    reveal_strlit("] [");
    reveal_strlit("] ");
    reveal_strlit("\n");
    let line = log_line(timestamp, category, message);
    let shown = text::single_line(message);
    assert forall|i: int| 0 <= i < line.len() - 1 implies line[i] != '\r' && line[i] != '\n' by {
        let a = 1 + timestamp.len();
        let b = a + 3 + category.len();
        if 1 <= i < a {
            assert(timestamp.contains(timestamp[i - 1]));
        } else if a + 3 <= i < b {
            assert(category.contains(category[i - a - 3]));
        } else if b + 2 <= i {
            assert(line[i] == shown[i - b - 2]);
            assert(shown[i - b - 2] == text::break_to_space(message[i - b - 2]));
        }
    }
}

/// What is logged says what it is about: the path and the size of an upload that
/// starts, the status and the success of an answer, the file and the error of a
/// failure, the address that is asked at; each as it is.
pub proof fn notes_say_what_they_are_about(
    shown_path: Seq<char>,
    size: nat,
    status: u16,
    success: bool,
    error: Seq<char>,
)
    ensures
        upload_started_note(shown_path, size).category == "UPLOAD"@,
        upload_started_note(shown_path, size).message == text_laws::run(
            seq![
                text_laws::run(seq!["开始上传：file="@, shown_path, "; size="@]),
                number::decimal(size),
                "; exchangeType=2"@,
            ],
        ),
        upload_failed_note(shown_path, error).category == "ERROR"@,
        upload_failed_note(shown_path, error).message == text_laws::run(
            seq![text_laws::run(seq!["上传失败：file="@, shown_path, "; error="@]), error],
        ),
        worker_lost_note(shown_path).category == "ERROR"@,
        worker_lost_note(shown_path).message == text_laws::run(
            seq!["上传工作线程意外结束：file="@, shown_path],
        ),
        usage_started_note(shown_path).category == "USAGE"@,
        usage_started_note(shown_path).message == text_laws::run(
            seq!["开始查询用量：endpoint="@, shown_path],
        ),
        upload_answered_note(status, success).category == "HTTP"@,
        usage_answered_note(status, success).category == "HTTP"@,
        ({
            let told = text_laws::run(
                seq![
                    number::decimal(status as nat),
                    if success {
                        "; success=true"@
                    } else {
                        "; success=false"@
                    },
                ],
            );
            &&& upload_answered_note(status, success).message == text_laws::run(
                seq!["上传响应：status="@, told],
            )
            &&& usage_answered_note(status, success).message == text_laws::run(
                seq!["用量查询响应：status="@, told],
            )
        }),
{
    reveal_strlit("; exchangeType=2");
    reveal_strlit("; exchangeType=");
    reveal_strlit("; success=");
    reveal_strlit("; success=true");
    reveal_strlit("; success=false");
    reveal_strlit("true");
    reveal_strlit("false");
    let opening = text_laws::run(seq!["开始上传：file="@, shown_path, "; size="@]);
    text_laws::lemma_run_three("开始上传：file="@, shown_path, "; size="@);
    text_laws::lemma_run_three(opening, number::decimal(size), "; exchangeType=2"@);
    assert("; exchangeType=2"@ =~= "; exchangeType="@ + number::decimal(2));
    assert(upload_started_note(shown_path, size).message =~= opening + number::decimal(size)
        + "; exchangeType=2"@);
    let failed = text_laws::run(seq!["上传失败：file="@, shown_path, "; error="@]);
    text_laws::lemma_run_three("上传失败：file="@, shown_path, "; error="@);
    text_laws::lemma_run_two(failed, error);
    text_laws::lemma_run_two("上传工作线程意外结束：file="@, shown_path);
    text_laws::lemma_run_two("开始查询用量：endpoint="@, shown_path);
    let word = if success {
        "; success=true"@
    } else {
        "; success=false"@
    };
    assert(word =~= "; success="@ + truth(success));
    let told = text_laws::run(seq![number::decimal(status as nat), word]);
    text_laws::lemma_run_two(number::decimal(status as nat), word);
    text_laws::lemma_run_two("上传响应：status="@, told);
    text_laws::lemma_run_two("用量查询响应：status="@, told);
    assert(upload_answered_note(status, success).message =~= "上传响应：status="@ + told);
    assert(usage_answered_note(status, success).message =~= "用量查询响应：status="@ + told);
}

/// A line of a log holds the time, the category and the message, which keeps its
/// characters but for line breaks.
pub proof fn log_lines_keep_the_message(
    timestamp: Seq<char>,
    category: Seq<char>,
    message: Seq<char>,
    notes: Seq<LogNote>,
)
    ensures
        ({
            let line = log_line(timestamp, category, message);
            let a = timestamp.len() as int;
            let b = category.len() as int;
            let n = message.len() as int;
            &&& line.len() == 1 + a + 3 + b + 2 + n + 1
            &&& line.subrange(1, 1 + a) == timestamp
            &&& line.subrange(4 + a, 4 + a + b) == category
            &&& forall|i: int|
                0 <= i < n && message[i] != '\r' && message[i] != '\n' ==> line[6 + a + b + i]
                    == #[trigger] message[i]
        }),
        note_views(notes).len() == notes.len(),
        forall|i: int|
            0 <= i < notes.len() ==> (#[trigger] note_views(notes)[i]).category
                == notes[i].category@ && note_views(notes)[i].message == notes[i].message@,
{
    reveal_strlit("[");
    reveal_strlit("] [");
    reveal_strlit("] ");
    reveal_strlit("\n");
    let line = log_line(timestamp, category, message);
    let a = timestamp.len() as int;
    let b = category.len() as int;
    assert(line.subrange(1, 1 + a) =~= timestamp);
    assert(line.subrange(4 + a, 4 + a + b) =~= category);
    assert forall|i: int|
        0 <= i < message.len() && message[i] != '\r' && message[i] != '\n' implies line[6 + a + b
        + i] == #[trigger] message[i] by {
        assert(line[6 + a + b + i] == text::single_line(message)[i]);
    }
}

} // verus!
