//! What holds of tasks, and of how amounts of bytes are shown.
use std::path::PathBuf;
use vstd::arithmetic::power;
use vstd::prelude::*;

use crate::model;
use crate::model::{TaskView, UploadStatus, UploadTask};
use crate::number;
use crate::number_laws;

verus! {

/// A task has work before it until it has succeeded, failed or been cancelled; it
/// is being worked on while it is uploaded or the server is at it; and it may be
/// started over once it has failed or been cancelled.
pub proof fn states_are_what_they_say(status: UploadStatus)
    ensures
        status.active() <==> !(status == UploadStatus::Succeeded || status == UploadStatus::Failed
            || status == UploadStatus::Cancelled),
        status.in_flight() <==> status.active() && status != UploadStatus::Waiting,
        status.retryable() <==> !status.active() && status != UploadStatus::Succeeded,
{
}

/// The captions of the states differ from each other.
pub proof fn captions_tell_states_apart(a: UploadStatus, b: UploadStatus)
    requires
        a.caption() == b.caption(),
    ensures
        a == b,
{
    reveal_strlit("等待上传");
    reveal_strlit("上传中");
    reveal_strlit("服务器处理中");
    reveal_strlit("上传成功");
    reveal_strlit("上传失败");
    reveal_strlit("已取消");
    let x = a.caption();
    let y = b.caption();
    assert(x.len() == y.len());
    assert(x[0] == y[0]);
    if x.len() == 4 {
        assert(x[2] == y[2]);
        assert(x[3] == y[3]);
    }
}

/// The view of a task holds all that the task does.
pub proof fn views_hold_the_whole_task(task: UploadTask)
    ensures
        task@.id == task.id,
        task@.path == task.path,
        task@.file_name == task.file_name@,
        task@.file_size == task.file_size,
        task@.bytes_sent == task.bytes_sent,
        task@.speed == task.speed_bytes_per_second,
        task@.status == task.status,
        task@.error == task.error@,
        task@.server_file_id is Some <==> task.server_file_id is Some,
        task.server_file_id matches Some(id) ==> task@.server_file_id == Some(id@),
        task@.temporary == task.temporary,
        task@.last_progress_at == task.last_progress_at,
        task@.last_progress_bytes == task.last_progress_bytes,
{
}

/// A new task has its number, path, name, length and origin, waits, and has
/// nothing behind it; a task that is put back to that keeps these five.
pub proof fn new_tasks_have_nothing_behind_them(
    id: u64,
    path: PathBuf,
    file_name: Seq<char>,
    file_size: u64,
    temporary: bool,
    task: TaskView,
)
    ensures
        ({
            let fresh = TaskView::fresh(id, path, file_name, file_size, temporary);
            &&& fresh.id == id && fresh.path == path && fresh.file_name == file_name
            &&& fresh.file_size == file_size && fresh.temporary == temporary
            &&& fresh.status == UploadStatus::Waiting
            &&& fresh.bytes_sent == 0 && fresh.speed.bytes == 0 && fresh.speed.nanos > 0
            &&& fresh.error.len() == 0 && fresh.server_file_id is None
            &&& fresh.last_progress_at is None && fresh.last_progress_bytes == 0
        }),
        ({
            let back = task.as_new();
            &&& back.id == task.id && back.path == task.path && back.file_name == task.file_name
            &&& back.file_size == task.file_size && back.temporary == task.temporary
            &&& back.status == UploadStatus::Waiting
            &&& back.bytes_sent == 0 && back.speed.bytes == 0
            &&& back.error.len() == 0 && back.server_file_id is None
            &&& back.last_progress_at is None && back.last_progress_bytes == 0
        }),
{
}

/// The share of a file that was sent is the bytes sent of the bytes there are, and
/// never more than all; an empty file is sent just where its upload has succeeded.
pub proof fn shares_are_bytes_of_bytes(task: TaskView)
    ensures
        ({
            let share = task.sent_share();
            &&& share.whole > 0 && share.part <= share.whole
            &&& task.file_size > 0 ==> share.whole == task.file_size && (task.bytes_sent
                <= task.file_size ==> share.part == task.bytes_sent) && (task.bytes_sent
                > task.file_size ==> share.part == share.whole)
            &&& task.file_size == 0 ==> (share.part == share.whole <==> task.status
                == UploadStatus::Succeeded) && (share.part == 0 <==> task.status
                != UploadStatus::Succeeded)
        }),
{
}

/// What a unit is called: each is 1024 times the one before.
pub open spec fn is_unit(u: nat, name: Seq<char>) -> bool {
    ||| u == 0 && name == "B"@
    ||| u == 1 && name == "KB"@
    ||| u == 2 && name == "MB"@
    ||| u == 3 && name == "GB"@
    ||| u == 4 && name == "TB"@
}

/// An amount of bytes is shown in the largest unit that it holds one of: rounded
/// to a whole number of it, and below ten, unless it is bytes, to a tenth. The
/// amount is the one that double precision makes of the bytes.
pub proof fn bytes_are_shown_in_the_largest_unit(value: nat, u: nat, name: Seq<char>)
    requires
        is_unit(u, name),
        u == 0 || number::nearest_double(value) >= power::pow(1024, u),
        u == 4 || number::nearest_double(value) < power::pow(1024, u) * 1024,
    ensures
        ({
            let amount = number::nearest_double(value) as int;
            let size = power::pow(1024, u);
            &&& u == 0 ==> model::byte_text(value) == number::decimal(amount as nat) + " "@ + name
            &&& u > 0 && amount >= 10 * size ==> exists|k: nat|
                2 * (k * size) <= 2 * amount + size && 2 * amount <= 2 * (k * size) + size
                    && model::byte_text(value) == #[trigger] number::decimal(k) + " "@ + name
            &&& u > 0 && amount < 10 * size ==> exists|a: nat, b: nat|
                b < 10 && 2 * ((10 * a + b) * size) <= 20 * amount + size && 20 * amount <= 2 * ((10
                    * a + b) * size) + size && model::byte_text(value) == #[trigger] number::decimal(
                    a,
                ) + "."@ + #[trigger] number::decimal(b) + " "@ + name
        }),
{
    let amount = number::nearest_double(value);
    lemma_sizes(u);
    let size = power::pow(1024, u);
    assert(model::unit_of(amount) == u);
    assert(model::unit_bytes(u) == size);
    assert(model::unit_name(u) == name);
    if u == 0 {
        number_laws::quotients_are_rounded_to_the_nearest(amount, 1);
    } else if amount >= 10 * size {
        let k = number::round_half_even(amount, size as nat);
        number_laws::quotients_are_rounded_to_the_nearest(amount, size as nat);
        assert(model::byte_text(value) == number::decimal(k) + " "@ + name);
    } else {
        let k = number::round_half_even(amount * 10, size as nat);
        number_laws::quotients_are_rounded_to_the_nearest(amount * 10, size as nat);
        let a = k / 10;
        let b = k % 10;
        assert(k == 10 * a + b);
        assert(model::byte_text(value) == number::decimal(a) + "."@ + number::decimal(b) + " "@
            + name);
    }
}

proof fn lemma_sizes(u: nat)
    requires
        u <= 4,
    ensures
        u == 0 ==> power::pow(1024, u) == 1,
        u == 1 ==> power::pow(1024, u) == 0x400,
        u == 2 ==> power::pow(1024, u) == 0x10_0000,
        u == 3 ==> power::pow(1024, u) == 0x4000_0000,
        u == 4 ==> power::pow(1024, u) == 0x100_0000_0000,
{
    power::lemma_pow0(1024);
    power::lemma_pow1(1024);
    power::lemma_pow_adds(1024, 1, 1);
    power::lemma_pow_adds(1024, 2, 1);
    power::lemma_pow_adds(1024, 3, 1);
}

} // verus!
