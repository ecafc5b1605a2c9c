//! Upload tasks: their states, their measures and how sizes are shown.
use std::path::PathBuf;
use vstd::prelude::*;

use crate::number;
use crate::number::{decimal_text, rounded_quotient};
use crate::text;

verus! {

/// `PathBuf` of std: a path that is carried along and never looked into.
#[verifier::external_type_specification]
#[verifier::external_body]
pub struct ExPathBuf(std::path::PathBuf);

/// Where a task stands.
#[derive(Debug, Clone, Copy, PartialEq, Eq, Structural)]
pub enum UploadStatus {
    Waiting,
    Uploading,
    Processing,
    Succeeded,
    Failed,
    Cancelled,
}

impl UploadStatus {
    /// The caption that the user reads.
    pub open spec fn caption(self) -> Seq<char> {
        match self {
            UploadStatus::Waiting => "等待上传"@,
            UploadStatus::Uploading => "上传中"@,
            UploadStatus::Processing => "服务器处理中"@,
            UploadStatus::Succeeded => "上传成功"@,
            UploadStatus::Failed => "上传失败"@,
            UploadStatus::Cancelled => "已取消"@,
        }
    }

    /// Whether the task still has work before it.
    pub open spec fn active(self) -> bool {
        self == UploadStatus::Waiting || self.in_flight()
    }

    /// Whether the task is the one being worked on.
    pub open spec fn in_flight(self) -> bool {
        self == UploadStatus::Uploading || self == UploadStatus::Processing
    }

    /// Whether the task may be started over.
    pub open spec fn retryable(self) -> bool {
        self == UploadStatus::Failed || self == UploadStatus::Cancelled
    }

    pub fn text(self) -> (caption: &'static str)
        ensures
            caption@ == self.caption(),
    {
        match self {
            UploadStatus::Waiting => "等待上传",
            UploadStatus::Uploading => "上传中",
            UploadStatus::Processing => "服务器处理中",
            UploadStatus::Succeeded => "上传成功",
            UploadStatus::Failed => "上传失败",
            UploadStatus::Cancelled => "已取消",
        }
    }

    pub fn is_active(self) -> (active: bool)
        ensures
            active == self.active(),
    {
        match self {
            UploadStatus::Waiting | UploadStatus::Uploading | UploadStatus::Processing => true,
            _ => false,
        }
    }

    pub fn can_retry(self) -> (retryable: bool)
        ensures
            retryable == self.retryable(),
    {
        match self {
            UploadStatus::Failed | UploadStatus::Cancelled => true,
            _ => false,
        }
    }
}

/// A task is done, or has work before it, or may be started over: one of the
/// three, and never two.
pub proof fn status_is_one_of_three(status: UploadStatus)
    ensures
        status == UploadStatus::Succeeded || status.active() || status.retryable(),
        !(status.active() && status.retryable()),
        status == UploadStatus::Succeeded ==> !status.active() && !status.retryable(),
{
}

/// A number of bytes over a stretch of time.
#[derive(Debug, Clone, Copy, PartialEq, Eq, Structural)]
pub struct TransferRate {
    pub bytes: u64,
    pub nanos: u128,
}

/// Nothing over one nanosecond.
pub open spec fn no_transfer() -> TransferRate {
    TransferRate { bytes: 0, nanos: 1 }
}

impl TransferRate {
    /// Nothing over one nanosecond.
    pub fn none() -> (rate: TransferRate)
        ensures
            rate == no_transfer(),
    {
        TransferRate { bytes: 0, nanos: 1 }
    }
}

/// A share of a whole: `part` out of `whole`, which is never zero.
#[derive(Debug, Clone, Copy, PartialEq, Eq, Structural)]
pub struct Share {
    pub part: u64,
    pub whole: u64,
}

/// What the file system says of a path.
#[derive(Debug, Clone, Copy, PartialEq, Eq, Structural)]
pub struct FileMetadata {
    pub is_file: bool,
    pub len: u64,
}

/// What was found out about a path before it is made a task: its metadata, or
/// why there are none, and its last component where that is text.
#[derive(Debug)]
pub struct FileProbe {
    pub metadata: Result<FileMetadata, String>,
    pub file_name: Option<String>,
}

/// What is said of a path that is no regular file.
pub open spec fn not_a_file() -> Seq<char> {
    "所选路径不是普通文件"@
}

/// One upload.
#[derive(Debug)]
pub struct UploadTask {
    pub id: u64,
    pub path: PathBuf,
    pub file_name: String,
    pub file_size: u64,
    pub bytes_sent: u64,
    pub speed_bytes_per_second: TransferRate,
    pub status: UploadStatus,
    pub error: String,
    pub server_file_id: Option<String>,
    pub temporary: bool,
    pub last_progress_at: Option<u128>,
    pub last_progress_bytes: u64,
}

/// An upload, with its texts as sequences of characters.
pub struct TaskView {
    pub id: u64,
    pub path: PathBuf,
    pub file_name: Seq<char>,
    pub file_size: u64,
    pub bytes_sent: u64,
    pub speed: TransferRate,
    pub status: UploadStatus,
    pub error: Seq<char>,
    pub server_file_id: Option<Seq<char>>,
    pub temporary: bool,
    pub last_progress_at: Option<u128>,
    pub last_progress_bytes: u64,
}

impl View for UploadTask {
    type V = TaskView;

    open spec fn view(&self) -> TaskView {
        TaskView {
            id: self.id,
            path: self.path,
            file_name: self.file_name@,
            file_size: self.file_size,
            bytes_sent: self.bytes_sent,
            speed: self.speed_bytes_per_second,
            status: self.status,
            error: self.error@,
            server_file_id: text::text_option(self.server_file_id),
            temporary: self.temporary,
            last_progress_at: self.last_progress_at,
            last_progress_bytes: self.last_progress_bytes,
        }
    }
}

impl TaskView {
    /// No more was sent than the file holds.
    pub open spec fn wf(self) -> bool {
        self.bytes_sent <= self.file_size
    }

    /// The task of a file that was just added.
    pub open spec fn fresh(
        id: u64,
        path: PathBuf,
        file_name: Seq<char>,
        file_size: u64,
        temporary: bool,
    ) -> TaskView {
        TaskView {
            id,
            path,
            file_name,
            file_size,
            bytes_sent: 0,
            speed: no_transfer(),
            status: UploadStatus::Waiting,
            error: Seq::empty(),
            server_file_id: None,
            temporary,
            last_progress_at: None,
            last_progress_bytes: 0,
        }
    }

    /// The task as it was when it was added.
    pub open spec fn as_new(self) -> TaskView {
        TaskView::fresh(self.id, self.path, self.file_name, self.file_size, self.temporary)
    }

    /// How much of the file was sent. An empty file counts as sent once its
    /// upload has succeeded.
    pub open spec fn sent_share(self) -> Share {
        if self.file_size == 0 {
            Share { part: if self.status == UploadStatus::Succeeded {
                    1
                } else {
                    0
                }, whole: 1 }
        } else if self.bytes_sent <= self.file_size {
            Share { part: self.bytes_sent, whole: self.file_size }
        } else {
            Share { part: self.file_size, whole: self.file_size }
        }
    }
}

/// The name that a file is shown under.
pub open spec fn shown_name(file_name: Option<Seq<char>>) -> Seq<char> {
    match file_name {
        Some(name) => name,
        None => "未命名文件"@,
    }
}

impl UploadTask {
    /// Makes a task of a regular file, or says why there is none.
    pub fn new(id: u64, path: PathBuf, probe: FileProbe, temporary: bool) -> (task: Result<
        Self,
        String,
    >)
        ensures
            match probe.metadata {
                Err(error) => task matches Err(message) && message@ == error@,
                Ok(metadata) => if metadata.is_file {
                    task matches Ok(made) && made@ == TaskView::fresh(
                        id,
                        path,
                        shown_name(text::text_option(probe.file_name)),
                        metadata.len,
                        temporary,
                    )
                } else {
                    task matches Err(message) && message@ == not_a_file()
                },
            },
    {
        let metadata = match probe.metadata {
            Ok(metadata) => metadata,
            Err(error) => return Err(error),
        };
        if !metadata.is_file {
            return Err("所选路径不是普通文件".to_owned());
        }
        let file_name = match probe.file_name {
            Some(name) => name,
            None => "未命名文件".to_owned(),
        };
        Ok(
            UploadTask {
                id,
                path,
                file_name,
                file_size: metadata.len,
                bytes_sent: 0,
                speed_bytes_per_second: TransferRate::none(),
                status: UploadStatus::Waiting,
                error: String::new(),
                server_file_id: None,
                temporary,
                last_progress_at: None,
                last_progress_bytes: 0,
            },
        )
    }

    /// How much of the file was sent.
    pub fn progress(&self) -> (share: Share)
        ensures
            share == self@.sent_share(),
            share.part <= share.whole,
            share.whole > 0,
    {
        if self.file_size == 0 {
            let part: u64 = if self.status == UploadStatus::Succeeded {
                1
            } else {
                0
            };
            return Share { part, whole: 1 };
        }
        let part: u64 = if self.bytes_sent <= self.file_size {
            self.bytes_sent
        } else {
            self.file_size
        };
        Share { part, whole: self.file_size }
    }

    /// Puts the task back to where it was when it was added.
    pub fn reset_for_retry(&mut self)
        ensures
            final(self)@ == old(self)@.as_new(),
    {
        self.bytes_sent = 0;
        self.speed_bytes_per_second = TransferRate::none();
        self.status = UploadStatus::Waiting;
        self.error = String::new();
        self.server_file_id = None;
        self.last_progress_at = None;
        self.last_progress_bytes = 0;
    }
}

/// Which of the five units an amount of bytes is shown in: the largest that it
/// holds one of, up to the last.
pub open spec fn unit_of(amount: nat) -> nat {
    if amount < 0x400 {
        0
    } else if amount < 0x10_0000 {
        1
    } else if amount < 0x4000_0000 {
        2
    } else if amount < 0x100_0000_0000 {
        3
    } else {
        4
    }
}

/// How many bytes the unit stands for.
pub open spec fn unit_bytes(unit: nat) -> nat {
    if unit == 0 {
        1
    } else if unit == 1 {
        0x400
    } else if unit == 2 {
        0x10_0000
    } else if unit == 3 {
        0x4000_0000
    } else {
        0x100_0000_0000
    }
}

/// What the unit is called.
pub open spec fn unit_name(unit: nat) -> Seq<char> {
    if unit == 0 {
        "B"@
    } else if unit == 1 {
        "KB"@
    } else if unit == 2 {
        "MB"@
    } else if unit == 3 {
        "GB"@
    } else {
        "TB"@
    }
}

/// How an amount of bytes is shown: rounded to a whole number of its unit, or,
/// below ten of a unit that is not the byte, to a tenth. The amount is first
/// taken to double precision.
pub open spec fn byte_text(value: nat) -> Seq<char> {
    let amount = number::nearest_double(value);
    let unit = unit_of(amount);
    let size = unit_bytes(unit);
    if unit == 0 || amount >= 10 * size {
        number::decimal(number::round_half_even(amount, size)) + " "@ + unit_name(unit)
    } else {
        let tenths = number::round_half_even(amount * 10, size);
        number::decimal(tenths / 10) + "."@ + number::decimal(tenths % 10) + " "@ + unit_name(unit)
    }
}

proof fn lemma_double_step(n: nat, bound: nat)
    requires
        n < 0x20_0000_0000_0000 * bound,
        bound == 1 || bound == 2 || bound == 4 || bound == 8 || bound == 0x10 || bound == 0x20
            || bound == 0x40 || bound == 0x80 || bound == 0x100 || bound == 0x200 || bound == 0x400
            || bound == 0x800,
        bound == 1 || n >= 0x10_0000_0000_0000 * bound,
    ensures
        number::double_step(n) == bound,
    decreases bound,
{
    if bound > 1 {
        lemma_double_step(n / 2, bound / 2);
    }
}

/// The place value of the last of 53 significant bits of `n`.
fn double_step_of(n: u64) -> (step: u64)
    ensures
        step == number::double_step(n as nat),
        1 <= step <= 0x800,
        n < 0x20_0000_0000_0000 * step,
{
    let mut step: u64 = 1;
    let mut top: u128 = 0x20_0000_0000_0000;
    while n as u128 >= top
        invariant
            top == 0x20_0000_0000_0000 * step,
            step == 1 || step == 2 || step == 4 || step == 8 || step == 0x10 || step == 0x20
                || step == 0x40 || step == 0x80 || step == 0x100 || step == 0x200 || step == 0x400
                || step == 0x800,
            step == 1 || n >= 0x10_0000_0000_0000 * step,
        decreases 0x1000 - step,
    {
        step = step * 2;
        top = top * 2;
    }
    proof {
        lemma_double_step(n as nat, step as nat);
    }
    step
}

/// Shows an amount of bytes.
pub fn format_bytes(value: u64) -> (result: String)
    ensures
        result@ == byte_text(value as nat),
{
    let step = double_step_of(value);
    let steps: u128 = rounded_quotient(value as u128, step as u128);
    assert(steps * step <= value + step) by (nonlinear_arith)
        requires
            step > 0,
            steps <= (value as nat) / (step as nat) + 1,
    ;
    let amount: u128 = steps * step as u128;
    assert(amount == number::nearest_double(value as nat));
    let (size, name): (u128, &str) = if amount < 0x400 {
        (1, "B")
    } else if amount < 0x10_0000 {
        (0x400, "KB")
    } else if amount < 0x4000_0000 {
        (0x10_0000, "MB")
    } else if amount < 0x100_0000_0000 {
        (0x4000_0000, "GB")
    } else {
        (0x100_0000_0000, "TB")
    };
    if size == 1 || amount >= 10 * size {
        assert(amount / size <= amount) by (nonlinear_arith)
            requires
                size > 0,
        ;
        assert(size > 1 ==> amount / size <= amount / 2) by (nonlinear_arith)
            requires
                size > 0,
        ;
        decimal_text(rounded_quotient(amount, size) as u64).concat(" ").concat(name)
    } else {
        let tenths: u128 = rounded_quotient(amount * 10, size);
        assert((amount * 10) as nat / (size as nat) < 100) by (nonlinear_arith)
            requires
                amount < 10 * size,
                size > 0,
        ;
        decimal_text((tenths / 10) as u64).concat(".").concat(
            decimal_text((tenths % 10) as u64).as_str(),
        ).concat(" ").concat(name)
    }
}

} // verus!
