//! Watching the tasks: each that is done, or has failed, is reported once.
use std::collections::HashMap;
use vstd::prelude::*;

use crate::app;
use crate::app::{AppView, FileExchangeApp, Notice, NoticeView};
use crate::model::{FileMetadata, TaskView, UploadStatus, UploadTask};
use crate::queue;
use crate::queue::{QueueView, RetryError, StartUpload};
use crate::windows::notification::SystemNotificationKind;

verus! {

/// Where each task stands.
pub open spec fn statuses_of(tasks: Seq<TaskView>) -> Map<u64, UploadStatus>
    decreases tasks.len(),
{
    if tasks.len() == 0 {
        Map::empty()
    } else {
        statuses_of(tasks.drop_last()).insert(tasks.last().id, tasks.last().status)
    }
}

/// The notification of a task that is done, or has failed.
pub open spec fn task_notice(task: TaskView) -> Option<NoticeView> {
    match task.status {
        UploadStatus::Succeeded => Some(
            NoticeView {
                title: "上传成功"@,
                message: task.file_name + " 已上传完成"@,
                kind: SystemNotificationKind::Info,
            },
        ),
        UploadStatus::Failed => Some(
            NoticeView {
                title: "上传失败"@,
                message: if task.error.len() == 0 {
                    task.file_name + " 上传失败"@
                } else {
                    task.file_name + "："@ + task.error
                },
                kind: SystemNotificationKind::Error,
            },
        ),
        _ => None,
    }
}

/// Whether the task stands where it stood when it was last looked at.
pub open spec fn unmoved(task: TaskView, seen: Map<u64, UploadStatus>) -> bool {
    seen.contains_key(task.id) && seen[task.id] == task.status
}

/// The notifications that are due, given where the tasks stood before.
pub open spec fn notices_due(tasks: Seq<TaskView>, seen: Map<u64, UploadStatus>) -> Seq<NoticeView>
    decreases tasks.len(),
{
    if tasks.len() == 0 {
        seq![]
    } else {
        let before = notices_due(tasks.drop_last(), seen);
        match task_notice(tasks.last()) {
            Some(notice) if !unmoved(tasks.last(), seen) => before.push(notice),
            _ => before,
        }
    }
}

fn make_task_notice(task: &UploadTask) -> (notice: Option<Notice>)
    ensures
        app::notice_option(notice) == task_notice(task@),
{
    match task.status {
        UploadStatus::Succeeded => Some(
            Notice {
                title: "上传成功".to_owned(),
                message: task.file_name.clone().concat(" 已上传完成"),
                kind: SystemNotificationKind::Info,
            },
        ),
        UploadStatus::Failed => {
            let message = if task.error.as_str().is_empty() {
                task.file_name.clone().concat(" 上传失败")
            } else {
                task.file_name.clone().concat("：").concat(task.error.as_str())
            };
            Some(
                Notice {
                    title: "上传失败".to_owned(),
                    message,
                    kind: SystemNotificationKind::Error,
                },
            )
        },
        _ => None,
    }
}

/// Notes where the tasks stand, and hands out the notifications that are due.
fn look_at(tasks: &[UploadTask], seen: &HashMap<u64, UploadStatus>) -> (result: (
    Vec<Notice>,
    HashMap<u64, UploadStatus>,
))
    ensures
        app::notice_views(result.0@) == notices_due(queue::task_views(tasks@), seen@),
        result.1@ == statuses_of(queue::task_views(tasks@)),
{
    let ghost all = queue::task_views(tasks@);
    let mut notices: Vec<Notice> = Vec::new();
    let mut statuses: HashMap<u64, UploadStatus> = HashMap::new();
    assert(app::notice_views(notices@) =~= notices_due(all.take(0), seen@));
    assert(statuses@ =~= statuses_of(all.take(0)));
    for i in 0..tasks.len()
        invariant
            all == queue::task_views(tasks@),
            app::notice_views(notices@) == notices_due(all.take(i as int), seen@),
            statuses@ == statuses_of(all.take(i as int)),
    {
        let task = &tasks[i];
        let ghost before = notices@;
        proof {
            assert(all[i as int] == task@);
            assert(all.take(i + 1).drop_last() =~= all.take(i as int));
            assert(all.take(i + 1).last() == all[i as int]);
        }
        let unmoved = match seen.get(&task.id) {
            Some(status) => *status == task.status,
            None => false,
        };
        if !unmoved {
            match make_task_notice(task) {
                Some(notice) => {
                    notices.push(notice);
                    assert(app::notice_views(notices@) =~= app::notice_views(before).push(notice@));
                },
                None => {},
            }
        }
        statuses.insert(task.id, task.status);
    }
    assert(all.take(all.len() as int) =~= all);
    (notices, statuses)
}

impl FileExchangeApp {
    /// Looks at where the tasks stand, and hands out the notifications that are
    /// due.
    pub fn poll_task_notifications(&mut self) -> (notices: Vec<Notice>)
        ensures
            app::notice_views(notices@) == notices_due(
                old(self)@.queue.tasks,
                old(self)@.task_statuses,
            ),
            final(self)@ == (AppView {
                task_statuses: statuses_of(old(self)@.queue.tasks),
                ..old(self)@
            }),
    {
        let (notices, statuses) = look_at(self.queue.tasks(), &self.task_statuses);
        self.task_statuses = statuses;
        notices
    }

    /// Starts a task over; where that cannot be, the reason is shown.
    pub fn retry(&mut self, id: u64, metadata: Option<FileMetadata>, now: u128) -> (start: Option<
        StartUpload,
    >)
        requires
            old(self)@.wf(),
            old(self)@.queue.retry_verdict(id, metadata) == Ok::<bool, RetryError>(true) ==> old(
                self,
            )@.queue.jobs[id].generation < u64::MAX,
        ensures
            match old(self)@.queue.retry_verdict(id, metadata) {
                Err(error) => start is None && final(self)@ == old(self)@.with_error(
                    error.wording(),
                ),
                Ok(false) => start is None && final(self)@ == old(self)@,
                Ok(true) => {
                    let renewed = old(self)@.queue.renewed(id, metadata->0.len);
                    &&& queue::start_view(start) == renewed.next_start()
                    &&& final(self)@ == (AppView { queue: renewed.start_next(now), ..old(self)@ })
                },
            },
            final(self)@.wf(),
    {
        match self.queue.retry(id, metadata, now) {
            Ok(start) => start,
            Err(error) => {
                self.set_error(error.message());
                None
            },
        }
    }
}

/// Where each task of a queue in order stands is what its entry says.
proof fn lemma_statuses(tasks: Seq<TaskView>, i: int)
    requires
        0 <= i < tasks.len(),
        forall|a: int, b: int| 0 <= a < b < tasks.len() ==> (#[trigger] tasks[a]).id < (
        #[trigger] tasks[b]).id,
    ensures
        unmoved(tasks[i], statuses_of(tasks)),
    decreases tasks.len(),
{
    let rest = tasks.drop_last();
    if i < rest.len() {
        assert forall|a: int, b: int| 0 <= a < b < rest.len() implies (#[trigger] rest[a]).id < (
        #[trigger] rest[b]).id by {
            assert(rest[a] == tasks[a] && rest[b] == tasks[b]);
        }
        lemma_statuses(rest, i);
        assert(rest[i] == tasks[i]);
        assert(tasks[i].id < tasks[tasks.len() - 1].id);
    }
}

proof fn lemma_no_notices(tasks: Seq<TaskView>, seen: Map<u64, UploadStatus>)
    requires
        forall|i: int| 0 <= i < tasks.len() ==> unmoved(#[trigger] tasks[i], seen),
    ensures
        notices_due(tasks, seen) == Seq::<NoticeView>::empty(),
    decreases tasks.len(),
{
    if tasks.len() > 0 {
        let rest = tasks.drop_last();
        assert forall|i: int| 0 <= i < rest.len() implies unmoved(#[trigger] rest[i], seen) by {
            assert(rest[i] == tasks[i]);
        }
        lemma_no_notices(rest, seen);
        assert(unmoved(tasks[tasks.len() - 1], seen));
    }
}

/// Looking twice reports nothing twice: once the tasks were looked at, nothing
/// is due until one of them moves.
pub proof fn nothing_is_reported_twice(queue: QueueView)
    requires
        queue.wf(),
    ensures
        notices_due(queue.tasks, statuses_of(queue.tasks)) == Seq::<NoticeView>::empty(),
{
    let seen = statuses_of(queue.tasks);
    assert forall|i: int| 0 <= i < queue.tasks.len() implies unmoved(
        #[trigger] queue.tasks[i],
        seen,
    ) by {
        lemma_statuses(queue.tasks, i);
    }
    lemma_no_notices(queue.tasks, seen);
}

proof fn lemma_statuses_known(tasks: Seq<TaskView>, id: u64)
    ensures
        statuses_of(tasks).contains_key(id) <==> queue::position(tasks, id) < tasks.len(),
    decreases tasks.len(),
{
    queue::lemma_position(tasks, id);
    if tasks.len() > 0 {
        let rest = tasks.drop_last();
        lemma_statuses_known(rest, id);
        queue::lemma_position(rest, id);
        if queue::position(rest, id) < rest.len() {
            let k = queue::position(rest, id);
            assert(tasks[k] == rest[k]);
        }
        if queue::position(tasks, id) < rest.len() {
            let k = queue::position(tasks, id);
            assert(rest[k] == tasks[k]);
        }
    }
}

/// A task that is gone is forgotten: what is remembered are the tasks of the
/// queue, and no others.
pub proof fn only_present_tasks_are_remembered(queue: QueueView, id: u64)
    ensures
        statuses_of(queue.tasks).contains_key(id) <==> queue.holds(id),
{
    lemma_statuses_known(queue.tasks, id);
}

} // verus!
