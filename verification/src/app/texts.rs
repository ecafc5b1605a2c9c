//! Sending text: selected in another window, or typed in by hand.
use vstd::prelude::*;

use crate::api::{OptionsView, UploadOptions};
use crate::app;
use crate::app::{AppView, FileExchangeApp, Notice, NoticeView, Page, TEXT_FILE_NAME};
use crate::queue;
use crate::queue::{Candidate, QueueView, StartUpload};
use crate::text;
use crate::text::text_is_blank;
use crate::windows::clipboard::TextCaptureResult;
use crate::windows::notification::SystemNotificationKind;

verus! {

/// What came of writing a text to a file of its own.
#[derive(Debug)]
pub enum TextFile {
    NoDirectory(String),
    NotWritten(String),
    Written(Candidate),
}

/// What is to be done once a text was to be added to the queue.
pub struct TextOutcome {
    pub result: Result<(), String>,
    pub start: Option<StartUpload>,
}

/// The name of the file that a text is written to, given the time.
pub open spec fn text_file_of(stamp: Seq<char>) -> Seq<char> {
    "selected-text-"@ + stamp + ".txt"@
}

/// The name of the file that a text is written to, given the time.
pub fn text_file_name(stamp: &str) -> (name: String)
    ensures
        name@ == text_file_of(stamp@),
{
    "selected-text-".to_owned().concat(stamp).concat(".txt")
}

/// What a text is uploaded with, given what files are.
pub open spec fn as_text(options: OptionsView) -> OptionsView {
    OptionsView { upload_file_name: Some(TEXT_FILE_NAME@), ..options }
}

/// The queue once a text was to be added to it, the upload that may follow not
/// yet started.
pub open spec fn queue_with_text(queue: QueueView, options: OptionsView, file: TextFile) -> QueueView {
    match file {
        TextFile::Written(candidate) => queue.add_one(candidate@, true, options),
        _ => queue,
    }
}

/// What is said where a text was not added to the queue.
pub open spec fn text_fault(file: TextFile) -> Option<Seq<char>> {
    match file {
        TextFile::NoDirectory(error) => Some("无法创建文本临时目录："@ + error@),
        TextFile::NotWritten(error) => Some("无法创建文本临时文件："@ + error@),
        TextFile::Written(candidate) => match candidate@.fault() {
            Some(error) => Some(candidate@.shown + "："@ + error),
            None => None,
        },
    }
}

impl AppView {
    /// The state once selected text is to be fetched.
    pub open spec fn capture_begun(self, token: Result<Seq<char>, Seq<char>>) -> AppView {
        if self.capturing {
            self
        } else {
            match self.options(token) {
                Err(error) => AppView { page: Page::Settings, ..self }.with_error(error),
                Ok(_) => AppView { capturing: true, ..self },
            }
        }
    }

    /// The state once the fetching of selected text is over: a failure is shown.
    pub open spec fn capture_ended(self, fault: Option<Seq<char>>) -> AppView {
        let ended = AppView { capturing: false, ..self };
        match fault {
            Some(error) => ended.with_error(error),
            None => ended,
        }
    }

    /// The state once a hotkey went down or up.
    pub open spec fn hotkey_moved(
        self,
        id: u32,
        pressed: bool,
        token: Result<Seq<char>, Seq<char>>,
    ) -> AppView {
        if pressed && self.hotkey == Some(id) {
            self.capture_begun(token)
        } else {
            self
        }
    }

    /// The typed text that is to be sent, where there is one.
    pub open spec fn typed_text(self) -> Option<Seq<char>> {
        if text::is_blank(self.manual_text) {
            None
        } else {
            Some(self.manual_text)
        }
    }

    /// The state once it is known whether the typed text is in the queue.
    pub open spec fn typed_text_noted(self, fault: Option<Seq<char>>) -> AppView {
        match fault {
            Some(error) => self.with_error(error),
            None => AppView { manual_text: Seq::empty(), ..self }.with_info(
                "手动输入的文本已加入上传队列"@,
            ),
        }
    }

    /// The state once it is known whether the selected text is in the queue.
    pub open spec fn selected_text_noted(self, fault: Option<Seq<char>>, restored: bool) -> AppView {
        match fault {
            Some(error) => self.with_error(error),
            None => if restored {
                self.with_info("选中文本已加入上传队列"@)
            } else {
                self.with_error("文本已加入队列，但未能完整恢复原剪贴板"@)
            },
        }
    }

    /// Whether the fetching of selected text begins.
    pub open spec fn begins_capture(self, token: Result<Seq<char>, Seq<char>>) -> bool {
        !self.capturing && self.options(token) is Ok
    }
}

/// The notification of a text that was added to the queue.
pub open spec fn text_notice() -> NoticeView {
    NoticeView {
        title: "文本已加入队列"@,
        message: "message.txt 将按顺序上传"@,
        kind: SystemNotificationKind::Info,
    }
}

/// The notification of a text that was added to the queue, or was not, given
/// whether the clipboard is again as it was.
pub open spec fn text_notice_due(fault: Option<Seq<char>>, restored: bool) -> Option<NoticeView> {
    if fault is Some {
        None
    } else if restored {
        Some(text_notice())
    } else {
        Some(
            NoticeView {
                title: "文本已加入队列"@,
                message: "message.txt 已加入，但未能完整恢复原剪贴板"@,
                kind: SystemNotificationKind::Warning,
            },
        )
    }
}

/// What is said of something that could not be done, where it could not.
pub open spec fn fault_of<T>(result: Result<T, String>) -> Option<Seq<char>> {
    match result {
        Ok(_) => None,
        Err(error) => Some(error@),
    }
}

fn make_text_notice() -> (notice: Notice)
    ensures
        notice@ == text_notice(),
{
    Notice {
        title: "文本已加入队列".to_owned(),
        message: "message.txt 将按顺序上传".to_owned(),
        kind: SystemNotificationKind::Info,
    }
}

impl FileExchangeApp {
    /// Begins to fetch selected text, unless that is going on already or the
    /// settings do not allow an upload. Tells whether it begins.
    pub fn begin_text_capture(&mut self, token: Result<String, String>) -> (begun: bool)
        ensures
            final(self)@ == old(self)@.capture_begun(app::text_result(token)),
            begun == old(self)@.begins_capture(app::text_result(token)),
    {
        if self.capturing {
            return false;
        }
        match self.upload_options(token) {
            Err(error) => {
                self.page = Page::Settings;
                self.set_error(error);
                return false;
            },
            Ok(_) => {},
        }
        self.capturing = true;
        true
    }

    /// Takes note of a hotkey: where the registered one went down, selected text
    /// is fetched. Tells whether that begins.
    pub fn hotkey_event(&mut self, id: u32, pressed: bool, token: Result<String, String>) -> (begun:
        bool)
        ensures
            ({
                let ours = pressed && old(self)@.hotkey == Some(id);
                &&& final(self)@ == (if ours {
                    old(self)@.capture_begun(app::text_result(token))
                } else {
                    old(self)@
                })
                &&& begun == (ours && old(self)@.begins_capture(app::text_result(token)))
            }),
            final(self)@ == old(self)@.hotkey_moved(id, pressed, app::text_result(token)),
    {
        let ours = match self.hotkey {
            Some(own) => pressed && own == id,
            None => false,
        };
        if !ours {
            return false;
        }
        self.begin_text_capture(token)
    }

    /// Takes note of what came of fetching selected text, and hands it out where
    /// there is any.
    pub fn capture_finished(&mut self, result: Result<TextCaptureResult, String>) -> (captured:
        Option<TextCaptureResult>)
        ensures
            match result {
                Ok(found) => captured == Some(found) && final(self)@ == (AppView {
                    capturing: false,
                    ..old(self)@
                }),
                Err(error) => captured is None && final(self)@ == (AppView {
                    capturing: false,
                    ..old(self)@
                }.with_error(error@)),
            },
            final(self)@ == old(self)@.capture_ended(fault_of(result)),
            captured is Some <==> result is Ok,
    {
        self.capturing = false;
        match result {
            Ok(found) => Some(found),
            Err(error) => {
                self.set_error(error);
                None
            },
        }
    }

    /// What a text is uploaded with, given what the stored token is.
    pub fn text_options(&self, token: Result<String, String>) -> (options: Result<
        UploadOptions,
        String,
    >)
        ensures
            app::options_result(options) == (match self@.options(app::text_result(token)) {
                Ok(found) => Ok(as_text(found)),
                Err(error) => Err(error),
            }),
    {
        match self.upload_options(token) {
            Ok(found) => Ok(
                UploadOptions { upload_file_name: Some(TEXT_FILE_NAME.to_owned()), ..found },
            ),
            Err(error) => Err(error),
        }
    }

    /// Adds a text to the queue, given what came of writing it to a file.
    pub fn enqueue_text_upload(&mut self, options: UploadOptions, file: TextFile, now: u128) -> (
    outcome: TextOutcome)
        requires
            old(self)@.wf(),
            old(self)@.queue.next_id < u64::MAX,
        ensures
            ({
                let queue = queue_with_text(old(self)@.queue, options@, file);
                &&& final(self)@ == (AppView { queue: queue.start_next(now), ..old(self)@ })
                &&& queue::start_view(outcome.start) == queue.next_start()
            }),
            match text_fault(file) {
                Some(error) => outcome.result matches Err(message) && message@ == error,
                None => outcome.result is Ok,
            },
            final(self)@.wf(),
    {
        let ghost before = self@.queue;
        match file {
            TextFile::NoDirectory(error) => {
                proof {
                    queue::lemma_idle(before, now);
                }
                TextOutcome {
                    result: Err("无法创建文本临时目录：".to_owned().concat(error.as_str())),
                    start: None,
                }
            },
            TextFile::NotWritten(error) => {
                proof {
                    queue::lemma_idle(before, now);
                }
                TextOutcome {
                    result: Err("无法创建文本临时文件：".to_owned().concat(error.as_str())),
                    start: None,
                }
            },
            TextFile::Written(candidate) => {
                let ghost given = candidate@;
                let mut files: Vec<Candidate> = Vec::new();
                files.push(candidate);
                let ghost all = queue::candidate_views(files@);
                proof {
                    assert(all.drop_last() =~= seq![]);
                    assert(all.last() == given);
                    reveal_with_fuel(QueueView::add_all, 2);
                    reveal_with_fuel(queue::add_errors, 2);
                }
                let mut added = self.queue.add_files(files, true, options, now);
                assert(text::texts(added.errors@).len() == added.errors@.len());
                let result = if added.errors.len() > 0 {
                    assert(text::texts(added.errors@)[0] == queue::add_errors(all)[0]);
                    Err(added.errors.swap_remove(0))
                } else {
                    Ok(())
                };
                TextOutcome { result, start: added.start }
            },
        }
    }

    /// The typed text that is to be sent; where there is none, that is said.
    pub fn manual_text_to_send(&mut self) -> (typed: Option<String>)
        ensures
            if text::is_blank(old(self)@.manual_text) {
                typed is None && final(self)@ == old(self)@.with_error("请输入要发送的文本内容"@)
            } else {
                typed matches Some(found) && found@ == old(self)@.manual_text && final(self)@
                    == old(self)@
            },
            text::text_option(typed) == old(self)@.typed_text(),
    {
        if text_is_blank(self.manual_text.as_str()) {
            self.set_error("请输入要发送的文本内容".to_owned());
            return None;
        }
        Some(self.manual_text.clone())
    }

    /// Takes note of what came of adding the typed text to the queue. Once it is
    /// in the queue it is gone from the page.
    pub fn manual_text_queued(&mut self, result: Result<(), String>) -> (notice: Option<Notice>)
        ensures
            match result {
                Ok(_) => app::notice_option(notice) == Some(text_notice()) && final(self)@ == (
                AppView { manual_text: Seq::empty(), ..old(self)@ }.with_info(
                    "手动输入的文本已加入上传队列"@,
                )),
                Err(error) => notice is None && final(self)@ == old(self)@.with_error(error@),
            },
            final(self)@ == old(self)@.typed_text_noted(fault_of(result)),
            app::notice_option(notice) == text_notice_due(fault_of(result), true),
    {
        match result {
            Ok(()) => {
                self.manual_text = String::new();
                self.set_info("手动输入的文本已加入上传队列".to_owned());
                Some(make_text_notice())
            },
            Err(error) => {
                self.set_error(error);
                None
            },
        }
    }

    /// Takes note of what came of adding selected text to the queue.
    pub fn captured_text_queued(&mut self, result: Result<(), String>, clipboard_restored: bool) -> (
    notice: Option<Notice>)
        ensures
            match result {
                Ok(_) => if clipboard_restored {
                    app::notice_option(notice) == Some(text_notice()) && final(self)@ == old(
                        self,
                    )@.with_info("选中文本已加入上传队列"@)
                } else {
                    app::notice_option(notice) == Some(
                        NoticeView {
                            title: "文本已加入队列"@,
                            message: "message.txt 已加入，但未能完整恢复原剪贴板"@,
                            kind: SystemNotificationKind::Warning,
                        },
                    ) && final(self)@ == old(self)@.with_error(
                        "文本已加入队列，但未能完整恢复原剪贴板"@,
                    )
                },
                Err(error) => notice is None && final(self)@ == old(self)@.with_error(error@),
            },
            final(self)@ == old(self)@.selected_text_noted(fault_of(result), clipboard_restored),
            app::notice_option(notice) == text_notice_due(fault_of(result), clipboard_restored),
    {
        match result {
            Ok(()) => {
                if clipboard_restored {
                    self.set_info("选中文本已加入上传队列".to_owned());
                    return Some(make_text_notice());
                }
                self.set_error("文本已加入队列，但未能完整恢复原剪贴板".to_owned());
                Some(
                    Notice {
                        title: "文本已加入队列".to_owned(),
                        message: "message.txt 已加入，但未能完整恢复原剪贴板".to_owned(),
                        kind: SystemNotificationKind::Warning,
                    },
                )
            },
            Err(error) => {
                self.set_error(error);
                None
            },
        }
    }
}

} // verus!
