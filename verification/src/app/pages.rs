//! What the pages say: counts, captions, colours, and which buttons are live.
use vstd::prelude::*;
use vstd::utf8;

use crate::app::{AppView, FileExchangeApp};
use crate::model;
use crate::model::{format_bytes, TaskView, UploadStatus, UploadTask};
use crate::number;
use crate::number::decimal_text;
use crate::queue;
use crate::text;
use crate::text::{chars_of, lines_of, text_is_blank};
use crate::usage;
use crate::usage::format_usage_date;

verus! {

/// A colour.
#[derive(Debug, Clone, Copy, PartialEq, Eq, Structural)]
pub struct Rgb {
    pub r: u8,
    pub g: u8,
    pub b: u8,
}

pub open spec fn rgb(r: u8, g: u8, b: u8) -> Rgb {
    Rgb { r, g, b }
}

/// The colour of what is under way.
pub open spec fn accent() -> Rgb {
    rgb(37, 99, 235)
}

/// The colour of success.
pub open spec fn success() -> Rgb {
    rgb(22, 130, 70)
}

/// The colour of failure.
pub open spec fn danger() -> Rgb {
    rgb(185, 28, 28)
}

/// The colour of what matters less.
pub open spec fn muted() -> Rgb {
    rgb(102, 116, 139)
}

/// What is written, and what it is written on.
#[derive(Debug, Clone, Copy, PartialEq, Eq, Structural)]
pub struct Colors {
    pub foreground: Rgb,
    pub background: Rgb,
}

/// The colours of a task's state.
pub open spec fn colors_of(status: UploadStatus) -> Colors {
    match status {
        UploadStatus::Succeeded => Colors {
            foreground: success(),
            background: rgb(236, 253, 245),
        },
        UploadStatus::Failed => Colors { foreground: danger(), background: rgb(254, 242, 242) },
        UploadStatus::Cancelled => Colors { foreground: muted(), background: rgb(241, 245, 249) },
        UploadStatus::Processing => Colors {
            foreground: rgb(126, 34, 206),
            background: rgb(250, 245, 255),
        },
        _ => Colors { foreground: accent(), background: rgb(239, 246, 255) },
    }
}

/// The colours of a task's state.
pub fn status_colors(status: UploadStatus) -> (colors: Colors)
    ensures
        colors == colors_of(status),
{
    match status {
        UploadStatus::Succeeded => Colors {
            foreground: Rgb { r: 22, g: 130, b: 70 },
            background: Rgb { r: 236, g: 253, b: 245 },
        },
        UploadStatus::Failed => Colors {
            foreground: Rgb { r: 185, g: 28, b: 28 },
            background: Rgb { r: 254, g: 242, b: 242 },
        },
        UploadStatus::Cancelled => Colors {
            foreground: Rgb { r: 102, g: 116, b: 139 },
            background: Rgb { r: 241, g: 245, b: 249 },
        },
        UploadStatus::Processing => Colors {
            foreground: Rgb { r: 126, g: 34, b: 206 },
            background: Rgb { r: 250, g: 245, b: 255 },
        },
        _ => Colors {
            foreground: Rgb { r: 37, g: 99, b: 235 },
            background: Rgb { r: 239, g: 246, b: 255 },
        },
    }
}

/// The colours of the line above the page.
pub fn banner_colors(is_error: bool) -> (colors: Colors)
    ensures
        colors == (if is_error {
            Colors { foreground: danger(), background: rgb(254, 242, 242) }
        } else {
            Colors { foreground: success(), background: rgb(240, 253, 244) }
        }),
{
    if is_error {
        Colors {
            foreground: Rgb { r: 185, g: 28, b: 28 },
            background: Rgb { r: 254, g: 242, b: 242 },
        }
    } else {
        Colors {
            foreground: Rgb { r: 22, g: 130, b: 70 },
            background: Rgb { r: 240, g: 253, b: 244 },
        }
    }
}

/// How many tasks there are, and how many stand where.
#[derive(Debug, Clone, Copy, PartialEq, Eq, Structural)]
pub struct TransferCounts {
    pub total: usize,
    pub active: usize,
    pub succeeded: usize,
    pub failed: usize,
}

impl TransferCounts {
    /// What is said of active tasks, where there are tasks.
    pub fn active_note(self) -> (note: Option<String>)
        ensures
            text::text_option(note) == (if self.total > 0 {
                Some(number::decimal(self.active as nat) + " 个活动任务"@)
            } else {
                None
            }),
    {
        if self.total == 0 {
            return None;
        }
        Some(decimal_text(self.active as u64).concat(" 个活动任务"))
    }
}

/// How many tasks stand there.
pub open spec fn tasks_at(tasks: Seq<TaskView>, status: UploadStatus) -> nat {
    tasks.filter(|task: TaskView| task.status == status).len()
}

fn count_at(tasks: &[UploadTask], status: UploadStatus) -> (count: usize)
    ensures
        count == tasks_at(queue::task_views(tasks@), status),
{
    let ghost all = queue::task_views(tasks@);
    let ghost wanted = |task: TaskView| task.status == status;
    let mut count: usize = 0;
    for i in 0..tasks.len()
        invariant
            all == queue::task_views(tasks@),
            wanted == (|task: TaskView| task.status == status),
            count <= i,
            count == all.take(i as int).filter(wanted).len(),
    {
        proof {
            let longer = all.take(i + 1);
            assert(longer.drop_last() =~= all.take(i as int));
            assert(longer.last() == tasks@[i as int]@);
            reveal_with_fuel(Seq::filter, 2);
        }
        if tasks[i].status == status {
            count += 1;
        }
    }
    assert(all.take(all.len() as int) =~= all);
    count
}

/// What is said of the typed text.
#[derive(Debug)]
pub struct ManualTextFacts {
    /// Lines and characters.
    pub summary: String,
    pub characters: String,
    pub size: String,
    pub state: String,
    pub can_send: bool,
}

/// What is shown of a task.
#[derive(Debug)]
pub struct TaskRow {
    pub source: String,
    pub progress: String,
    /// The speed, while the task is being uploaded.
    pub speed: Option<String>,
    pub file_id: Option<String>,
    pub colors: Colors,
    /// Whether the bar moves.
    pub animated: bool,
    pub can_cancel: bool,
    pub can_retry: bool,
    pub can_remove: bool,
}

/// Where a task comes from, given how its path is shown.
pub open spec fn source_of(task: TaskView, shown_path: Seq<char>) -> Seq<char> {
    if task.temporary {
        "来源：手动文本 / 临时内容"@
    } else {
        "来源："@ + shown_path
    }
}

/// How much of a task's file was sent, as it is shown.
pub open spec fn progress_of(task: TaskView) -> Seq<char> {
    model::byte_text(task.bytes_sent as nat) + " / "@ + model::byte_text(task.file_size as nat)
}

/// How many bytes are sent in a second, as it is shown while the task is uploaded.
pub open spec fn speed_of(task: TaskView, speed: u64) -> Option<Seq<char>> {
    if task.status == UploadStatus::Uploading {
        Some(model::byte_text(speed as nat) + "/s"@)
    } else {
        None
    }
}

/// The identifier that the server gave, as it is shown.
pub open spec fn file_id_of(task: TaskView) -> Option<Seq<char>> {
    match task.server_file_id {
        Some(id) => Some("文件 ID："@ + id),
        None => None,
    }
}

/// Which buttons of a task are live: to cancel it, to start it over, to remove it.
pub open spec fn live_buttons(status: UploadStatus) -> (bool, bool, bool) {
    (status.active(), status.retryable(), !status.active())
}

/// What is shown of a task, given how its path is shown and how many bytes are
/// sent in a second.
pub fn task_row(task: &UploadTask, shown_path: &str, speed: u64) -> (row: TaskRow)
    ensures
        row.source@ == source_of(task@, shown_path@),
        row.progress@ == model::byte_text(task@.bytes_sent as nat) + " / "@
            + model::byte_text(task@.file_size as nat),
        text::text_option(row.speed) == (if task@.status == UploadStatus::Uploading {
            Some(model::byte_text(speed as nat) + "/s"@)
        } else {
            None
        }),
        text::text_option(row.file_id) == (match task@.server_file_id {
            Some(id) => Some("文件 ID："@ + id),
            None => None,
        }),
        row.colors == colors_of(task@.status),
        row.animated == (task@.status == UploadStatus::Uploading),
        row.can_cancel == task@.status.active(),
        row.can_retry == task@.status.retryable(),
        row.can_remove == !task@.status.active(),
        row.progress@ == progress_of(task@),
        text::text_option(row.speed) == speed_of(task@, speed),
        text::text_option(row.file_id) == file_id_of(task@),
        (row.can_cancel, row.can_retry, row.can_remove) == live_buttons(task@.status),
{
    let uploading = task.status == UploadStatus::Uploading;
    TaskRow {
        source: if task.temporary {
            "来源：手动文本 / 临时内容".to_owned()
        } else {
            "来源：".to_owned().concat(shown_path)
        },
        progress: format_bytes(task.bytes_sent).concat(" / ").concat(
            format_bytes(task.file_size).as_str(),
        ),
        speed: if uploading {
            Some(format_bytes(speed).concat("/s"))
        } else {
            None
        },
        file_id: match &task.server_file_id {
            Some(id) => Some("文件 ID：".to_owned().concat(id.as_str())),
            None => None,
        },
        colors: status_colors(task.status),
        animated: uploading,
        can_cancel: task.status.is_active(),
        can_retry: task.status.can_retry(),
        can_remove: !task.status.is_active(),
    }
}

/// Where the usage query stands.
#[derive(Debug, Clone, Copy, PartialEq, Eq, Structural)]
pub enum UsageState {
    Unconfigured,
    Querying,
    Failed,
    Updated,
    Idle,
}

impl UsageState {
    pub open spec fn name(self) -> Seq<char> {
        match self {
            UsageState::Unconfigured => "未配置"@,
            UsageState::Querying => "查询中"@,
            UsageState::Failed => "查询失败"@,
            UsageState::Updated => "已更新"@,
            UsageState::Idle => "待查询"@,
        }
    }

    pub open spec fn explanation(self) -> Seq<char> {
        match self {
            UsageState::Unconfigured => "请先到设置页补全地址与 API Key"@,
            UsageState::Querying => "正在请求最新用量数据"@,
            UsageState::Failed => "接口返回异常，请检查地址或凭证"@,
            UsageState::Updated => "最近一次查询已成功完成"@,
            UsageState::Idle => "点击右上角按钮获取最新用量数据"@,
        }
    }

    pub open spec fn shade(self) -> Colors {
        match self {
            UsageState::Unconfigured => Colors {
                foreground: rgb(146, 64, 14),
                background: rgb(255, 247, 237),
            },
            UsageState::Querying => Colors {
                foreground: accent(),
                background: rgb(239, 246, 255),
            },
            UsageState::Failed => Colors {
                foreground: danger(),
                background: rgb(254, 242, 242),
            },
            UsageState::Updated => Colors {
                foreground: success(),
                background: rgb(236, 253, 245),
            },
            UsageState::Idle => Colors { foreground: muted(), background: rgb(241, 245, 249) },
        }
    }

    /// What the state is called.
    pub fn text(self) -> (text: &'static str)
        ensures
            text@ == self.name(),
    {
        match self {
            UsageState::Unconfigured => "未配置",
            UsageState::Querying => "查询中",
            UsageState::Failed => "查询失败",
            UsageState::Updated => "已更新",
            UsageState::Idle => "待查询",
        }
    }

    /// What the state means.
    pub fn caption(self) -> (caption: &'static str)
        ensures
            caption@ == self.explanation(),
    {
        match self {
            UsageState::Unconfigured => "请先到设置页补全地址与 API Key",
            UsageState::Querying => "正在请求最新用量数据",
            UsageState::Failed => "接口返回异常，请检查地址或凭证",
            UsageState::Updated => "最近一次查询已成功完成",
            UsageState::Idle => "点击右上角按钮获取最新用量数据",
        }
    }

    /// The colours of the state.
    pub fn colors(self) -> (colors: Colors)
        ensures
            colors == self.shade(),
    {
        match self {
            UsageState::Unconfigured => Colors {
                foreground: Rgb { r: 146, g: 64, b: 14 },
                background: Rgb { r: 255, g: 247, b: 237 },
            },
            UsageState::Querying => Colors {
                foreground: Rgb { r: 37, g: 99, b: 235 },
                background: Rgb { r: 239, g: 246, b: 255 },
            },
            UsageState::Failed => Colors {
                foreground: Rgb { r: 185, g: 28, b: 28 },
                background: Rgb { r: 254, g: 242, b: 242 },
            },
            UsageState::Updated => Colors {
                foreground: Rgb { r: 22, g: 130, b: 70 },
                background: Rgb { r: 236, g: 253, b: 245 },
            },
            UsageState::Idle => Colors {
                foreground: Rgb { r: 102, g: 116, b: 139 },
                background: Rgb { r: 241, g: 245, b: 249 },
            },
        }
    }
}

/// The buttons above the usage.
#[derive(Debug, Clone, Copy, PartialEq, Eq, Structural)]
pub struct UsageToolbar {
    pub can_query: bool,
    pub querying: bool,
    pub can_clear: bool,
    pub offers_settings: bool,
}

impl UsageToolbar {
    /// What stands on the button that asks for the usage.
    pub fn query_caption(self) -> (caption: &'static str)
        ensures
            caption@ == (if self.querying {
                "查询中"@
            } else {
                "立即查询"@
            }),
    {
        if self.querying {
            "查询中"
        } else {
            "立即查询"
        }
    }
}

/// An amount, given its digits where the report holds it.
pub open spec fn amount_of(reported: bool, digits: Option<Seq<char>>) -> Seq<char> {
    if !reported {
        "--"@
    } else {
        match digits {
            Some(found) => "$"@ + found,
            None => "未返回"@,
        }
    }
}

/// How an amount is shown, given whether there is a report, and the amount's
/// digits where the report holds it.
pub fn usage_amount(reported: bool, digits: Option<String>) -> (amount: String)
    ensures
        amount@ == amount_of(reported, text::text_option(digits)),
{
    if !reported {
        return "--".to_owned();
    }
    match digits {
        Some(found) => "$".to_owned().concat(found.as_str()),
        None => "未返回".to_owned(),
    }
}

/// How a date is shown, given whether there is a report, and the date where the
/// report holds it.
pub fn usage_date(reported: bool, date: &Option<String>) -> (shown: String)
    ensures
        if !reported {
            shown@ == "尚未执行查询"@
        } else {
            match date {
                Some(found) if !text::is_blank(found@) => usage::date_is_shown(
                    text::trim(found@),
                    shown@,
                ),
                _ => shown@ == "未返回"@,
            }
        },
{
    if !reported {
        return "尚未执行查询".to_owned();
    }
    match date {
        Some(found) => format_usage_date(Some(found.as_str())),
        None => format_usage_date(None),
    }
}

impl AppView {
    /// Where the usage query stands. What comes first counts.
    pub open spec fn usage_state(self) -> UsageState {
        if !self.settings.usage_configured() {
            UsageState::Unconfigured
        } else if self.querying_usage {
            UsageState::Querying
        } else if self.usage_error is Some {
            UsageState::Failed
        } else if self.usage_info is Some {
            UsageState::Updated
        } else {
            UsageState::Idle
        }
    }

    /// Whether `shown` is a date of the report as it is shown, given the date where
    /// the report holds it.
    pub open spec fn shows_date(self, date: Option<Seq<char>>, shown: Seq<char>) -> bool {
        if self.usage_info is None {
            shown == "尚未执行查询"@
        } else {
            match date {
                Some(found) if !text::is_blank(found) => usage::date_is_shown(
                    text::trim(found),
                    shown,
                ),
                _ => shown == "未返回"@,
            }
        }
    }

    /// Whether `shown` is when the report's key was last used.
    pub open spec fn shows_last_active(self, shown: Seq<char>) -> bool {
        self.shows_date(
            match self.usage_info {
                Some(info) => info.last_active,
                None => None,
            },
            shown,
        )
    }

    /// Whether `shown` is when the budget starts anew.
    pub open spec fn shows_budget_reset(self, shown: Seq<char>) -> bool {
        self.shows_date(
            match self.usage_info {
                Some(info) => info.budget_reset_at,
                None => None,
            },
            shown,
        )
    }

    /// Whether the usage can be asked for now.
    pub open spec fn can_query(self) -> bool {
        self.settings.usage_configured() && !self.querying_usage
    }

    /// What is said of the length of the typed text.
    pub open spec fn text_summary(self) -> Seq<char> {
        number::decimal(text::lines(self.manual_text).len()) + " 行 / "@ + number::decimal(
            self.manual_text.len(),
        ) + " 字"@
    }

    /// Whether there is anything to clear.
    pub open spec fn has_query_result(self) -> bool {
        self.usage_info is Some || self.usage_error is Some || self.usage_last_fetched_at is Some
    }

    /// How long a budget lasts, as it is shown.
    pub open spec fn budget_cycle(self) -> Seq<char> {
        match self.usage_info {
            Some(info) => match info.budget_duration {
                Some(duration) => duration,
                None => "未返回"@,
            },
            None => "未返回"@,
        }
    }
}

impl FileExchangeApp {
    /// How many tasks there are, and how many stand where.
    pub fn transfer_counts(&self) -> (counts: TransferCounts)
        ensures
            counts.total == self@.queue.tasks.len(),
            counts.active == queue::active_tasks(self@.queue.tasks),
            counts.succeeded == tasks_at(self@.queue.tasks, UploadStatus::Succeeded),
            counts.failed == tasks_at(self@.queue.tasks, UploadStatus::Failed),
    {
        let tasks = self.queue.tasks();
        assert(queue::task_views(tasks@).len() == tasks@.len());
        TransferCounts {
            total: tasks.len(),
            active: self.queue.active_count(),
            succeeded: count_at(tasks, UploadStatus::Succeeded),
            failed: count_at(tasks, UploadStatus::Failed),
        }
    }

    /// What is said of the typed text.
    pub fn manual_text_facts(&self) -> (facts: ManualTextFacts)
        ensures
            ({
                let typed = self@.manual_text;
                let size = utf8::encode_utf8(typed).len();
                &&& facts.summary@ == number::decimal(text::lines(typed).len()) + " 行 / "@
                    + number::decimal(typed.len()) + " 字"@
                &&& facts.summary@ == self@.text_summary()
                &&& facts.characters@ == number::decimal(typed.len())
                &&& facts.size@ == model::byte_text(size)
                &&& facts.can_send == !text::is_blank(typed)
                &&& facts.state@ == (if text::is_blank(typed) {
                    "待输入"@
                } else {
                    "可发送"@
                })
            }),
    {
        let typed = self.manual_text.as_str();
        let lines = lines_of(typed);
        assert(text::texts(lines@).len() == lines@.len());
        let characters = decimal_text(chars_of(typed).len() as u64);
        let blank = text_is_blank(typed);
        ManualTextFacts {
            summary: decimal_text(lines.len() as u64).concat(" 行 / ").concat(
                characters.as_str(),
            ).concat(" 字"),
            characters,
            size: format_bytes(typed.as_bytes().len() as u64),
            state: if blank {
                "待输入".to_owned()
            } else {
                "可发送".to_owned()
            },
            can_send: !blank,
        }
    }

    /// Where the usage query stands.
    pub fn usage_state(&self) -> (state: UsageState)
        ensures
            state == self@.usage_state(),
    {
        if !self.settings.has_usage_query_config() {
            UsageState::Unconfigured
        } else if self.querying_usage {
            UsageState::Querying
        } else if self.usage_error.is_some() {
            UsageState::Failed
        } else if self.usage_info.is_some() {
            UsageState::Updated
        } else {
            UsageState::Idle
        }
    }

    /// The buttons above the usage.
    pub fn usage_toolbar(&self) -> (toolbar: UsageToolbar)
        ensures
            toolbar.can_query == (!self@.querying_usage && self@.settings.usage_configured()),
            toolbar.can_query == self@.can_query(),
            toolbar.querying == self@.querying_usage,
            toolbar.can_clear == self@.has_query_result(),
            toolbar.offers_settings == !self@.settings.usage_configured(),
    {
        let configured = self.settings.has_usage_query_config();
        UsageToolbar {
            can_query: !self.querying_usage && configured,
            querying: self.querying_usage,
            can_clear: self.usage_info.is_some() || self.usage_error.is_some()
                || self.usage_last_fetched_at.is_some(),
            offers_settings: !configured,
        }
    }

    /// How long a budget lasts, as it is shown.
    pub fn budget_cycle(&self) -> (cycle: String)
        ensures
            cycle@ == self@.budget_cycle(),
    {
        match &self.usage_info {
            Some(info) => match &info.budget_duration {
                Some(duration) => duration.clone(),
                None => "未返回".to_owned(),
            },
            None => "未返回".to_owned(),
        }
    }

    /// When the report's key was last used, as it is shown.
    pub fn last_active(&self) -> (shown: String)
        ensures
            match self@.usage_info {
                None => shown@ == "尚未执行查询"@,
                Some(info) => match info.last_active {
                    Some(date) if !text::is_blank(date) => usage::date_is_shown(
                        text::trim(date),
                        shown@,
                    ),
                    _ => shown@ == "未返回"@,
                },
            },
            self@.shows_last_active(shown@),
    {
        match &self.usage_info {
            Some(info) => usage_date(true, &info.last_active),
            None => usage_date(false, &None),
        }
    }

    /// When the budget starts anew, as it is shown.
    pub fn budget_reset(&self) -> (shown: String)
        ensures
            match self@.usage_info {
                None => shown@ == "尚未执行查询"@,
                Some(info) => match info.budget_reset_at {
                    Some(date) if !text::is_blank(date) => usage::date_is_shown(
                        text::trim(date),
                        shown@,
                    ),
                    _ => shown@ == "未返回"@,
                },
            },
            self@.shows_budget_reset(shown@),
    {
        match &self.usage_info {
            Some(info) => usage_date(true, &info.budget_reset_at),
            None => usage_date(false, &None),
        }
    }

    /// When the usage was last fetched, as it is shown.
    pub fn last_refresh(&self) -> (shown: String)
        ensures
            shown@ == (match self@.usage_last_fetched_at {
                Some(time) => time,
                None => "尚无记录"@,
            }),
    {
        match &self.usage_last_fetched_at {
            Some(time) => time.clone(),
            None => "尚无记录".to_owned(),
        }
    }

    /// The last tile of the usage: the error where there is one, else what the
    /// state means. First its label, then its text.
    pub fn usage_detail(&self) -> (tile: (&'static str, String))
        ensures
            tile.0@ == (if self@.usage_error is Some {
                "错误信息"@
            } else {
                "接口状态"@
            }),
            tile.1@ == (match self@.usage_error {
                Some(error) => error,
                None => self@.usage_state().explanation(),
            }),
    {
        match &self.usage_error {
            Some(error) => ("错误信息", error.clone()),
            None => ("接口状态", self.usage_state().caption().to_owned()),
        }
    }

    /// What the settings page says of usage queries, and in which colour.
    pub fn usage_settings_note(&self) -> (note: (&'static str, Rgb))
        ensures
            note.0@ == (if self@.settings.usage_configured() {
                "已存在可用的用量查询配置"@
            } else {
                "当前尚未完成用量查询配置"@
            }),
            note.1 == (if self@.settings.usage_configured() {
                success()
            } else {
                muted()
            }),
    {
        if self.settings.has_usage_query_config() {
            ("已存在可用的用量查询配置", Rgb { r: 22, g: 130, b: 70 })
        } else {
            ("当前尚未完成用量查询配置", Rgb { r: 102, g: 116, b: 139 })
        }
    }

    /// What the settings page says of the context menu, and in which colour.
    pub fn shell_note(&self) -> (note: (&'static str, Rgb))
        ensures
            note.0@ == (if self@.shell_registered {
                "右键菜单已注册，可将文件快速送入上传队列"@
            } else {
                "右键菜单未注册，可能是首次安装或系统环境发生变化"@
            }),
            note.1 == (if self@.shell_registered {
                success()
            } else {
                danger()
            }),
    {
        if self.shell_registered {
            ("右键菜单已注册，可将文件快速送入上传队列", Rgb { r: 22, g: 130, b: 70 })
        } else {
            (
                "右键菜单未注册，可能是首次安装或系统环境发生变化",
                Rgb { r: 185, g: 28, b: 28 },
            )
        }
    }
}

} // verus!
