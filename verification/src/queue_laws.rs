//! What the upload queue keeps, whatever is asked of it.
use vstd::prelude::*;

use crate::api::OptionsView;
use crate::logging;
use crate::model::{FileMetadata, TaskView, UploadStatus, UploadTask};
use crate::queue;
use crate::queue::{
    Candidate, CandidateView, EventView, QueueEvent, QueueView, RetryError, StartUpload,
};

verus! {

/// No two tasks are in flight at once.
pub proof fn one_upload_at_a_time(queue: QueueView, i: int, j: int)
    requires
        queue.sound(),
        0 <= i < queue.tasks.len(),
        0 <= j < queue.tasks.len(),
        queue.tasks[i].status.in_flight(),
        queue.tasks[j].status.in_flight(),
    ensures
        i == j,
{
    assert(queue.tasks[i].id == queue.tasks[j].id);
}

/// As long as a task is active, one is in flight: the queue never rests while
/// there is work.
pub proof fn work_is_never_left_lying(queue: QueueView, i: int)
    requires
        queue.wf(),
        0 <= i < queue.tasks.len(),
        queue.tasks[i].status.active(),
    ensures
        queue.current is Some,
        queue.task(queue.current->0).status.in_flight(),
{
    queue::lemma_position(queue.tasks, queue.current->0);
}

/// The upload that is started is that of the waiting task that was added
/// earliest, and it alone changes.
pub proof fn uploads_start_in_order(queue: QueueView, now: u128)
    requires
        queue.sound(),
    ensures
        match queue.next_start() {
            Some(start) => {
                let next = queue.start_next(now);
                &&& queue.holds(start.id)
                &&& queue.task(start.id).status == UploadStatus::Waiting
                &&& next.current == Some(start.id)
                &&& next.task(start.id).status == UploadStatus::Uploading
                &&& forall|i: int|
                    0 <= i < queue.tasks.len() && (#[trigger] queue.tasks[i]).status
                        == UploadStatus::Waiting ==> start.id <= queue.tasks[i].id
                &&& forall|i: int|
                    0 <= i < queue.tasks.len() && (#[trigger] queue.tasks[i]).id != start.id
                        ==> next.tasks[i] == queue.tasks[i]
            },
            None => queue.start_next(now) == queue,
        },
{
    queue::lemma_first_waiting(queue.tasks);
    if queue.can_start() {
        let k = queue::first_waiting(queue.tasks);
        let id = queue.tasks[k].id;
        let next = queue.start_next(now);
        assert forall|j: int| 0 <= j < k implies (#[trigger] queue.tasks[j]).id != id by {}
        queue::lemma_position_is(queue.tasks, id, k);
        assert forall|j: int| 0 <= j < k implies (#[trigger] next.tasks[j]).id != id by {
            assert(queue.tasks[j].id != id);
        }
        queue::lemma_position_is(next.tasks, id, k);
        assert forall|i: int|
            0 <= i < queue.tasks.len() && (#[trigger] queue.tasks[i]).status
                == UploadStatus::Waiting implies id <= queue.tasks[i].id by {
            if i < k {
                assert(queue.tasks[i].status != UploadStatus::Waiting);
            }
        }
    }
}

/// Added files come behind the tasks that are there, which stay as they are; they
/// wait, they are numbered in the order in which they were given, and each
/// candidate becomes a task or is reported.
pub proof fn added_files_come_last(
    queue: QueueView,
    candidates: Seq<CandidateView>,
    temporary: bool,
    options: OptionsView,
)
    requires
        queue.sound(),
        queue.next_id + candidates.len() <= u64::MAX,
    ensures
        ({
            let next = queue.add_all(candidates, temporary, options);
            let n = queue.tasks.len() as int;
            &&& next.sound()
            &&& next.next_id == queue.next_id + candidates.len()
            &&& next.current == queue.current
            &&& next.tasks.len() >= n
            &&& next.tasks.take(n) == queue.tasks
            &&& next.tasks.len() + queue::add_errors(candidates).len() == n + candidates.len()
            &&& forall|i: int|
                n <= i < next.tasks.len() ==> (#[trigger] next.tasks[i]).status
                    == UploadStatus::Waiting && next.tasks[i].id >= queue.next_id
                    && next.tasks[i].temporary == temporary
        }),
    decreases candidates.len(),
{
    let n = queue.tasks.len() as int;
    if candidates.len() == 0 {
        assert(queue.tasks.take(n) =~= queue.tasks);
    } else {
        let before = queue.add_all(candidates.drop_last(), temporary, options);
        added_files_come_last(queue, candidates.drop_last(), temporary, options);
        queue::lemma_add_one(before, candidates.last(), temporary, options);
        let next = queue.add_all(candidates, temporary, options);
        assert(next.tasks.take(n) =~= before.tasks.take(n));
        assert forall|i: int| n <= i < next.tasks.len() implies (#[trigger] next.tasks[i]).status
            == UploadStatus::Waiting && next.tasks[i].id >= queue.next_id
            && next.tasks[i].temporary == temporary by {
            if i < before.tasks.len() {
                assert(next.tasks[i] == before.tasks[i]);
            }
        }
    }
}

/// A report on a task that is not here, or on a try that is over, changes
/// nothing.
pub proof fn stale_reports_change_nothing(queue: QueueView, event: EventView, now: u128)
    requires
        !queue.holds(event.task()) || !queue.jobs.contains_key(event.task())
            || queue.jobs[event.task()].generation != event.generation(),
    ensures
        !queue.changed_by(event, now),
        queue.apply_event(event, now) == queue,
        queue.discarded_by(event) is None,
{
}

/// Once a task was started over, a late report on the try before changes nothing.
pub proof fn retries_shut_out_late_reports(
    queue: QueueView,
    id: u64,
    file_size: u64,
    event: EventView,
    started_at: u128,
    now: u128,
)
    requires
        queue.sound(),
        queue.holds(id),
        queue.task(id).status.retryable(),
        queue.jobs[id].generation < u64::MAX,
        event.task() == id,
        event.generation() <= queue.jobs[id].generation,
    ensures
        ({
            let next = queue.renewed(id, file_size).start_next(started_at);
            next.apply_event(event, now) == next && next.discarded_by(event) is None
        }),
{
    let next = queue.renewed(id, file_size).start_next(started_at);
    assert(next.jobs == queue.renewed(id, file_size).jobs);
    stale_reports_change_nothing(next, event, now);
}

/// A task that is started over waits in its old place, as it was when it was
/// added, with the length that its file has now; the other tasks stay as they
/// are.
pub proof fn retried_tasks_wait_as_new(queue: QueueView, id: u64, file_size: u64)
    requires
        queue.sound(),
        queue.holds(id),
        queue.task(id).status.retryable(),
    ensures
        ({
            let next = queue.renewed(id, file_size);
            let task = queue.task(id);
            &&& next.sound()
            &&& queue::position(next.tasks, id) == queue::position(queue.tasks, id)
            &&& next.task(id) == TaskView::fresh(
                id,
                task.path,
                task.file_name,
                file_size,
                task.temporary,
            )
            &&& next.tasks.len() == queue.tasks.len()
            &&& forall|i: int|
                0 <= i < queue.tasks.len() && (#[trigger] queue.tasks[i]).id != id
                    ==> next.tasks[i] == queue.tasks[i]
        }),
{
    queue::lemma_renewed(queue, id, file_size);
    queue::lemma_position(queue.tasks, id);
    let p = queue::position(queue.tasks, id);
    queue::lemma_positions_kept(
        queue.tasks,
        p,
        TaskView { file_size, ..queue.task(id) }.as_new(),
        id,
    );
}

/// A report changes no task but its own, and no task's number, path or origin.
pub proof fn reports_touch_one_task(queue: QueueView, event: EventView, now: u128, i: int)
    requires
        queue.sound(),
        0 <= i < queue.tasks.len(),
    ensures
        ({
            let next = queue.apply_event(event, now);
            &&& next.tasks.len() == queue.tasks.len()
            &&& queue.tasks[i].id != event.task() ==> next.tasks[i] == queue.tasks[i]
            &&& next.tasks[i].id == queue.tasks[i].id
            &&& next.tasks[i].path == queue.tasks[i].path
            &&& next.tasks[i].file_name == queue.tasks[i].file_name
            &&& next.tasks[i].file_size == queue.tasks[i].file_size
            &&& next.tasks[i].temporary == queue.tasks[i].temporary
        }),
{
    queue::lemma_position(queue.tasks, event.task());
}

/// A temporary file is done with when its upload has succeeded, and is kept when
/// it has failed.
pub proof fn failed_uploads_keep_their_file(queue: QueueView, event: EventView, now: u128)
    requires
        queue.sound(),
        queue.heeds(event),
        event is Finished,
    ensures
        ({
            let id = event.task();
            let next = queue.apply_event(event, now);
            &&& next.task(id).status == UploadStatus::Succeeded || next.task(id).status
                == UploadStatus::Failed
            &&& queue.discarded_by(event) == (if queue.task(id).temporary && next.task(id).status
                == UploadStatus::Succeeded {
                Some(id)
            } else {
                None
            })
        }),
{
    let id = event.task();
    queue::lemma_position(queue.tasks, id);
    let p = queue::position(queue.tasks, id);
    queue::lemma_positions_kept(
        queue.tasks,
        p,
        queue.task(id).after_finish(event->Finished_result),
        id,
    );
}

/// A cancelled task is no longer active, and the other tasks stay as they are.
pub proof fn cancelling_touches_one_task(queue: QueueView, id: u64)
    requires
        queue.sound(),
        queue.holds(id),
    ensures
        ({
            let next = queue.cancelled(id);
            &&& next.sound()
            &&& next.tasks.len() == queue.tasks.len()
            &&& !next.task(id).status.active()
            &&& queue.task(id).status.active() ==> next.task(id).status == UploadStatus::Cancelled
            &&& !queue.task(id).status.active() ==> next == queue
            &&& forall|i: int|
                0 <= i < queue.tasks.len() && (#[trigger] queue.tasks[i]).id != id
                    ==> next.tasks[i] == queue.tasks[i]
        }),
{
    queue::lemma_cancelled(queue, id);
    queue::lemma_position(queue.tasks, id);
    if queue.task(id).status.active() {
        let p = queue::position(queue.tasks, id);
        queue::lemma_positions_kept(queue.tasks, p, queue.cancelled(id).tasks[p], id);
    }
}

/// Once everything was cancelled no task is active, and those that were over
/// stay as they are.
pub proof fn cancelling_all_leaves_none_active(queue: QueueView)
    requires
        queue.sound(),
    ensures
        ({
            let next = queue.all_cancelled();
            &&& next.wf()
            &&& next.tasks.len() == queue.tasks.len()
            &&& queue::active_tasks(next.tasks) == 0
            &&& forall|i: int|
                0 <= i < next.tasks.len() ==> !(#[trigger] next.tasks[i]).status.active()
            &&& forall|i: int|
                0 <= i < queue.tasks.len() && !(#[trigger] queue.tasks[i]).status.active()
                    ==> next.tasks[i] == queue.tasks[i]
        }),
{
    queue::lemma_all_cancelled(queue);
    let next = queue.all_cancelled();
    let wanted = |task: TaskView| task.status.active();
    let active = next.tasks.filter(wanted);
    if active.len() > 0 {
        assert(active.contains(active[0]));
        next.tasks.lemma_filter_contains_rev(wanted, active[0]);
        next.tasks.lemma_filter_pred(wanted, 0);
    }
}

/// An active task cannot be removed; of another, nothing is left, and the rest
/// stays as it is.
pub proof fn removal_spares_active_tasks(queue: QueueView, id: u64)
    requires
        queue.wf(),
    ensures
        queue.holds(id) && queue.task(id).status.active() ==> queue.removed(id) == queue,
        queue.removable(id) ==> {
            let next = queue.removed(id);
            &&& !next.holds(id)
            &&& !next.jobs.contains_key(id)
            &&& next.tasks.len() == queue.tasks.len() - 1
            &&& next.current == queue.current
            &&& forall|i: int|
                0 <= i < queue.tasks.len() && (#[trigger] queue.tasks[i]).id != id
                    ==> next.tasks.contains(queue.tasks[i])
        },
{
    if queue.removable(id) {
        queue::lemma_position(queue.tasks, id);
        let p = queue::position(queue.tasks, id);
        let next = queue.removed(id);
        assert forall|j: int| 0 <= j < next.tasks.len() implies (#[trigger] next.tasks[j]).id
            != id by {
            let k = if j < p {
                j
            } else {
                j + 1
            };
            assert(next.tasks[j] == queue.tasks[k]);
            assert(queue.tasks[k].id != queue.tasks[p].id);
        }
        queue::lemma_position_is(next.tasks, id, next.tasks.len() as int);
        assert forall|i: int|
            0 <= i < queue.tasks.len() && (#[trigger] queue.tasks[i]).id
                != id implies next.tasks.contains(queue.tasks[i]) by {
            let k = if i < p {
                i
            } else {
                i - 1
            };
            assert(next.tasks[k] == queue.tasks[i]);
        }
    }
}

/// A look at the queue without reports changes nothing.
pub proof fn polling_without_reports_changes_nothing(queue: QueueView, now: u128)
    requires
        queue.wf(),
    ensures
        queue.settled(seq![], false).start_next(now) == queue,
        queue.settled(seq![], false).next_start() is None,
{
    queue::lemma_idle(queue, now);
}

proof fn lemma_place(queue: QueueView, i: int)
    requires
        queue.sound(),
        0 <= i < queue.tasks.len(),
    ensures
        queue::position(queue.tasks, queue.tasks[i].id) == i,
        queue.holds(queue.tasks[i].id),
        queue.task(queue.tasks[i].id) == queue.tasks[i],
        queue.jobs.contains_key(queue.tasks[i].id),
{
    let id = queue.tasks[i].id;
    assert forall|j: int| 0 <= j < i implies (#[trigger] queue.tasks[j]).id != id by {}
    queue::lemma_position_is(queue.tasks, id, i);
}

/// A task is in the queue just where a place holds one with its number, and it is
/// the task in that place.
pub proof fn tasks_are_found_by_their_number(queue: QueueView, id: u64)
    requires
        queue.sound(),
    ensures
        queue.holds(id) <==> exists|i: int|
            0 <= i < queue.tasks.len() && (#[trigger] queue.tasks[i]).id == id,
        forall|i: int|
            0 <= i < queue.tasks.len() && (#[trigger] queue.tasks[i]).id == id ==> queue.task(id)
                == queue.tasks[i],
{
    queue::lemma_position(queue.tasks, id);
    if queue.holds(id) {
        assert(queue.tasks[queue::position(queue.tasks, id)].id == id);
    }
    assert forall|i: int| 0 <= i < queue.tasks.len() && (#[trigger] queue.tasks[i]).id
        == id implies queue.task(id) == queue.tasks[i] && queue.holds(id) by {
        lemma_place(queue, i);
    }
}

/// Starting a task over leaves what it is uploaded with as it is: the options kept
/// for each task are those from before, the generation of the task goes up by one,
/// and that of every other stays.
pub proof fn retries_keep_what_is_uploaded_with(queue: QueueView, id: u64, file_size: u64)
    requires
        queue.sound(),
        queue.holds(id),
        queue.jobs[id].generation < u64::MAX,
    ensures
        ({
            let next = queue.renewed(id, file_size);
            &&& next.jobs.dom() == queue.jobs.dom()
            &&& next.jobs[id].generation == queue.jobs[id].generation + 1
            &&& forall|x: u64|
                queue.jobs.contains_key(x) ==> (#[trigger] next.jobs[x]).options
                    == queue.jobs[x].options
            &&& forall|x: u64|
                queue.jobs.contains_key(x) && x != id ==> (#[trigger] next.jobs[x]).generation
                    == queue.jobs[x].generation
            &&& next.current == queue.current
            &&& next.next_id == queue.next_id
        }),
{
    queue::lemma_position(queue.tasks, id);
    assert(queue.jobs.contains_key(queue.tasks[queue::position(queue.tasks, id)].id));
    assert(queue.renewed(id, file_size).jobs.dom() =~= queue.jobs.dom());
}

/// The upload that is started is made with the options kept for its task, in the
/// generation kept for it. What is kept stays as it is, and of the task only its
/// state and the time and the bytes of its last progress change.
pub proof fn uploads_start_with_what_is_kept(queue: QueueView, now: u128)
    requires
        queue.sound(),
    ensures
        queue.start_next(now).jobs == queue.jobs,
        queue.start_next(now).next_id == queue.next_id,
        queue.start_next(now).tasks.len() == queue.tasks.len(),
        queue.next_start() is Some <==> queue.current is None && exists|i: int|
            0 <= i < queue.tasks.len() && (#[trigger] queue.tasks[i]).status
                == UploadStatus::Waiting,
        queue.next_start() matches Some(start) ==> {
            &&& queue.jobs.contains_key(start.id)
            &&& start.options == queue.jobs[start.id].options
            &&& start.generation == queue.jobs[start.id].generation
            &&& forall|i: int|
                0 <= i < queue.tasks.len() && (#[trigger] queue.tasks[i]).id == start.id
                    ==> queue.start_next(now).tasks[i] == (TaskView {
                    status: UploadStatus::Uploading,
                    last_progress_at: Some(now),
                    last_progress_bytes: 0,
                    ..queue.tasks[i]
                })
        },
{
    queue::lemma_first_waiting(queue.tasks);
    if queue.current is None && exists|i: int|
        0 <= i < queue.tasks.len() && (#[trigger] queue.tasks[i]).status == UploadStatus::Waiting {
        let i = choose|i: int|
            0 <= i < queue.tasks.len() && (#[trigger] queue.tasks[i]).status
                == UploadStatus::Waiting;
        let k = queue::first_waiting(queue.tasks);
        if k >= queue.tasks.len() {
            assert(queue.tasks[i].status != UploadStatus::Waiting);
        }
        assert(queue.jobs.contains_key(queue.tasks[k].id));
    }
    if queue.can_start() {
        let k = queue::first_waiting(queue.tasks);
        assert(queue.tasks[k].status == UploadStatus::Waiting);
        assert forall|i: int|
            0 <= i < queue.tasks.len() && (#[trigger] queue.tasks[i]).id
                == queue.tasks[k].id implies i == k by {}
    }
}

/// Once the next upload was started, no task waits while none is being worked on.
pub proof fn starting_leaves_nothing_waiting(queue: QueueView, now: u128)
    requires
        queue.sound(),
    ensures
        queue.start_next(now).wf(),
{
    queue::lemma_start_next(queue, now);
}

/// Where nothing is being worked on, starting a task over starts its upload at
/// once, in the next generation, with the options that were kept for it.
pub proof fn retries_start_with_the_options_of_the_task(queue: QueueView, i: int, file_size: u64)
    requires
        queue.wf(),
        0 <= i < queue.tasks.len(),
        queue.tasks[i].status == UploadStatus::Failed || queue.tasks[i].status
            == UploadStatus::Cancelled,
        queue.current is None,
        queue.jobs[queue.tasks[i].id].generation < u64::MAX,
    ensures
        ({
            let id = queue.tasks[i].id;
            let start = queue.renewed(id, file_size).next_start();
            &&& start is Some
            &&& start->0.id == id
            &&& start->0.generation == queue.jobs[id].generation + 1
            &&& start->0.options == queue.jobs[id].options
        }),
{
    let id = queue.tasks[i].id;
    lemma_place(queue, i);
    retries_keep_what_is_uploaded_with(queue, id, file_size);
    retried_tasks_wait_as_new(queue, id, file_size);
    let next = queue.renewed(id, file_size);
    assert(next.tasks[i].status == UploadStatus::Waiting);
    uploads_start_with_what_is_kept(next, 0);
    queue::lemma_first_waiting(next.tasks);
    let k = queue::first_waiting(next.tasks);
    if k != i {
        assert(next.tasks[k] == queue.tasks[k]);
    }
}

/// What a task was added with is kept through everything: through reports, the
/// loss of the worker, cancelling, starts, further files, and the removal of other
/// tasks.
pub proof fn options_are_kept_through_everything(
    queue: QueueView,
    id: u64,
    event: EventView,
    now: u128,
    other: u64,
    candidates: Seq<CandidateView>,
    temporary: bool,
    options: OptionsView,
)
    requires
        queue.sound(),
        queue.jobs.contains_key(id),
        queue.next_id + candidates.len() <= u64::MAX,
    ensures
        queue.apply_event(event, now).jobs == queue.jobs,
        queue.worker_gone().jobs == queue.jobs,
        queue.cancelled(other).jobs == queue.jobs,
        queue.all_cancelled().jobs == queue.jobs,
        queue.start_next(now).jobs == queue.jobs,
        other != id ==> queue.removed(other).jobs.contains_key(id) && queue.removed(other).jobs[id]
            == queue.jobs[id],
        queue.add_all(candidates, temporary, options).jobs.contains_key(id),
        queue.add_all(candidates, temporary, options).jobs[id] == queue.jobs[id],
    decreases candidates.len(),
{
    if candidates.len() > 0 {
        let shorter = candidates.drop_last();
        options_are_kept_through_everything(
            queue,
            id,
            event,
            now,
            other,
            shorter,
            temporary,
            options,
        );
        added_files_come_last(queue, shorter, temporary, options);
        assert(queue.holds(id));
        queue::lemma_position(queue.tasks, id);
    }
}

/// Files are added as they were found: the candidate in place `k` gets the number
/// `k` behind the next one; where it is a regular file there is a task with that
/// number, its path, its length and its name, or the name that was asked for,
/// which has sent nothing and failed at nothing, and is uploaded with the options
/// given; where not, there is none.
pub proof fn added_files_are_as_they_were_found(
    queue: QueueView,
    candidates: Seq<CandidateView>,
    temporary: bool,
    options: OptionsView,
    k: int,
)
    requires
        queue.sound(),
        queue.next_id + candidates.len() <= u64::MAX,
        0 <= k < candidates.len(),
    ensures
        ({
            let next = queue.add_all(candidates, temporary, options);
            let id = (queue.next_id + k) as u64;
            let found = candidates[k];
            if found.metadata is Ok && found.metadata->Ok_0.is_file {
                &&& next.jobs.contains_key(id)
                &&& next.jobs[id].generation == 0
                &&& next.jobs[id].options == options
                &&& exists|i: int|
                    queue.tasks.len() <= i < next.tasks.len() && {
                        let task = #[trigger] next.tasks[i];
                        &&& task.id == id
                        &&& task.path == found.path
                        &&& task.file_size == found.metadata->Ok_0.len
                        &&& options.upload_file_name matches Some(name) ==> task.file_name == name
                        &&& options.upload_file_name is None ==> task.file_name == (
                        match found.file_name {
                            Some(name) => name,
                            None => "未命名文件"@,
                        })
                        &&& task.status == UploadStatus::Waiting
                        &&& task.temporary == temporary
                        &&& task.bytes_sent == 0
                        &&& task.speed.bytes == 0
                        &&& task.error.len() == 0
                        &&& task.server_file_id is None
                        &&& task.last_progress_at is None
                    }
            } else {
                &&& !next.jobs.contains_key(id)
                &&& forall|i: int| 0 <= i < next.tasks.len() ==> (#[trigger] next.tasks[i]).id != id
            }
        }),
    decreases candidates.len(),
{
    let shorter = candidates.drop_last();
    let before = queue.add_all(shorter, temporary, options);
    let next = queue.add_all(candidates, temporary, options);
    let id = (queue.next_id + k) as u64;
    added_files_come_last(queue, shorter, temporary, options);
    added_files_come_last(queue, candidates, temporary, options);
    queue::lemma_add_one(before, candidates.last(), temporary, options);
    if k < shorter.len() {
        added_files_are_as_they_were_found(queue, shorter, temporary, options, k);
        let found = candidates[k];
        assert(shorter[k] == found);
        assert(before.next_id != id);
        if found.metadata is Ok && found.metadata->Ok_0.is_file {
            let i = choose|i: int|
                queue.tasks.len() <= i < before.tasks.len() && {
                    let task = #[trigger] before.tasks[i];
                    &&& task.id == id
                    &&& task.path == found.path
                    &&& task.file_size == found.metadata->Ok_0.len
                    &&& options.upload_file_name matches Some(name) ==> task.file_name == name
                    &&& options.upload_file_name is None ==> task.file_name == (
                    match found.file_name {
                        Some(name) => name,
                        None => "未命名文件"@,
                    })
                    &&& task.status == UploadStatus::Waiting
                    &&& task.temporary == temporary
                    &&& task.bytes_sent == 0
                    &&& task.speed.bytes == 0
                    &&& task.error.len() == 0
                    &&& task.server_file_id is None
                    &&& task.last_progress_at is None
                };
            assert(next.tasks[i] == before.tasks[i]);
        } else {
            assert forall|i: int| 0 <= i < next.tasks.len() implies (#[trigger] next.tasks[i]).id
                != id by {
                if i < before.tasks.len() {
                    assert(next.tasks[i] == before.tasks[i]);
                }
            }
        }
    } else {
        assert(before.next_id == id);
        assert forall|i: int| 0 <= i < before.tasks.len() implies (#[trigger] before.tasks[i]).id
            != id by {}
        if before.jobs.contains_key(id) {
            assert(before.holds(id));
            queue::lemma_position(before.tasks, id);
            assert(before.tasks[queue::position(before.tasks, id)].id < before.next_id);
        }
        if candidates.last().metadata is Ok && candidates.last().metadata->Ok_0.is_file {
            assert(next.tasks[before.tasks.len() as int].id == id);
        }
    }
}

/// What is said of candidates is said of each by itself, in their order: of a
/// regular file nothing, of another path that it is none, and of a path that could
/// not be looked at what the system says, behind the path as it is shown.
pub proof fn each_fault_is_told(
    first: Seq<CandidateView>,
    second: Seq<CandidateView>,
    one: CandidateView,
)
    ensures
        queue::add_errors(first + second) == queue::add_errors(first) + queue::add_errors(second),
        match one.metadata {
            Err(reason) => queue::add_errors(seq![one]) == seq![one.shown + "："@ + reason],
            Ok(found) => if found.is_file {
                queue::add_errors(seq![one]).len() == 0
            } else {
                queue::add_errors(seq![one]) == seq![one.shown + "："@ + "所选路径不是普通文件"@]
            },
        },
    decreases second.len(),
{
    let single = seq![one];
    assert(single.drop_last() =~= seq![]);
    assert(single.last() == one);
    assert(queue::add_errors(single.drop_last()) =~= seq![]);
    assert(one.fault() is Some ==> queue::add_errors(single) =~= seq![
        one.shown + "："@ + one.fault()->0,
    ]);
    if second.len() == 0 {
        assert(first + second =~= first);
        assert(queue::add_errors(first) + queue::add_errors(second) =~= queue::add_errors(first));
    } else {
        each_fault_is_told(first, second.drop_last(), one);
        assert((first + second).drop_last() =~= first + second.drop_last());
        assert((first + second).last() == second.last());
        assert(queue::add_errors(first + second) =~= queue::add_errors(first) + queue::add_errors(
            second,
        ));
    }
}

/// Progress is shown as it is reported, unless it is shown already less than a
/// tenth of a second before and the file is not out yet: so many bytes are sent,
/// at most the file's, and the speed is what was sent since the last time over the
/// time since. Once the file is out, the server is at work, and there is no speed.
pub proof fn progress_is_shown_as_reported(
    queue: QueueView,
    i: int,
    generation: u64,
    sent: u64,
    total: u64,
    now: u128,
)
    requires
        queue.sound(),
        0 <= i < queue.tasks.len(),
        generation == queue.jobs[queue.tasks[i].id].generation,
    ensures
        ({
            let task = queue.tasks[i];
            let event = EventView::Progress { id: task.id, generation, sent, total };
            let next = queue.apply_event(event, now);
            let after = next.tasks[i];
            let due = sent >= total || task.last_progress_at is None || now
                >= task.last_progress_at->0 + 100_000_000;
            let shown = task.status == UploadStatus::Uploading && due;
            &&& queue.changed_by(event, now) == shown
            &&& !shown ==> next == queue
            &&& queue.discarded_by(event) is None
            &&& queue.failed_by(event) is None
            &&& shown ==> {
                &&& after.bytes_sent == (if sent < task.file_size {
                    sent
                } else {
                    task.file_size
                })
                &&& after.last_progress_at == Some(now)
                &&& after.last_progress_bytes == sent
                &&& after.status == (if sent < total {
                    UploadStatus::Uploading
                } else {
                    UploadStatus::Processing
                })
                &&& sent >= total ==> after.speed.bytes == 0
                &&& sent < total && (task.last_progress_at matches Some(at) && now > at) ==> {
                    &&& after.speed.nanos == now - task.last_progress_at->0
                    &&& after.speed.bytes + task.last_progress_bytes == (if sent
                        > task.last_progress_bytes {
                        sent
                    } else {
                        task.last_progress_bytes
                    })
                }
                &&& sent < total && !(task.last_progress_at matches Some(at) && now > at)
                    ==> after.speed == task.speed
                &&& after.error == task.error
                &&& after.server_file_id == task.server_file_id
                &&& next.current == queue.current
                &&& next.jobs == queue.jobs
                &&& next.next_id == queue.next_id
            }
        }),
{
    lemma_place(queue, i);
}

/// A finished upload is told as it went: with its identifier, and all of its file
/// sent, where it succeeded; with the error, where it failed. The next task may
/// start, nothing else changes, and a failure is logged with the file's name and
/// the error.
pub proof fn finished_uploads_are_told_as_they_went(
    queue: QueueView,
    i: int,
    generation: u64,
    result: Result<Option<Seq<char>>, Seq<char>>,
    now: u128,
)
    requires
        queue.sound(),
        0 <= i < queue.tasks.len(),
        generation == queue.jobs[queue.tasks[i].id].generation,
    ensures
        ({
            let task = queue.tasks[i];
            let event = EventView::Finished { id: task.id, generation, result };
            let next = queue.apply_event(event, now);
            let after = next.tasks[i];
            &&& queue.changed_by(event, now)
            &&& after.speed.bytes == 0
            &&& next.current == (if queue.current == Some(task.id) {
                None
            } else {
                queue.current
            })
            &&& next.jobs == queue.jobs
            &&& next.next_id == queue.next_id
            &&& match result {
                Ok(file_id) => {
                    &&& after.status == UploadStatus::Succeeded
                    &&& after.server_file_id == file_id
                    &&& after.bytes_sent == task.file_size
                    &&& after.error == task.error
                    &&& queue.discarded_by(event) == (if task.temporary {
                        Some(task.id)
                    } else {
                        None
                    })
                    &&& queue.failed_by(event) is None
                },
                Err(error) => {
                    &&& after.status == UploadStatus::Failed
                    &&& after.error == error
                    &&& after.server_file_id == task.server_file_id
                    &&& after.bytes_sent == task.bytes_sent
                    &&& queue.discarded_by(event) is None
                    &&& queue.failed_by(event) == Some(
                        logging::upload_failed_note(task.file_name, error),
                    )
                },
            }
        }),
{
    lemma_place(queue, i);
}

/// Where the worker is gone, the task that it was at has failed, with that reason,
/// which is logged; nothing else changes, and nothing is being worked on.
pub proof fn lost_workers_fail_their_task(queue: QueueView, i: int)
    requires
        queue.sound(),
        0 <= i < queue.tasks.len(),
    ensures
        ({
            let next = queue.worker_gone();
            let task = queue.tasks[i];
            &&& next.current is None
            &&& next.tasks.len() == queue.tasks.len()
            &&& next.jobs == queue.jobs
            &&& next.next_id == queue.next_id
            &&& next.tasks[i] == (if queue.current == Some(task.id) {
                TaskView {
                    status: UploadStatus::Failed,
                    error: "上传工作线程意外结束"@,
                    ..task
                }
            } else {
                task
            })
            &&& queue.current == Some(task.id) ==> queue.failures(seq![], true) == seq![
                logging::worker_lost_note(task.file_name),
            ]
            &&& queue.failures(seq![], false).len() == 0
        }),
{
    lemma_place(queue, i);
    if queue.current is Some {
        queue::lemma_position(queue.tasks, queue.current->0);
        assert(queue.tasks[queue::position(queue.tasks, queue.current->0)].status.in_flight());
    }
    assert(queue.failed_by_all(seq![]) =~= seq![]);
    if queue.current == Some(queue.tasks[i].id) {
        assert(queue.failures(seq![], true) =~= seq![
            logging::worker_lost_note(queue.tasks[i].file_name),
        ]);
    }
}

/// Reports are looked at one after the other: those behind others are looked at in
/// the queue that these have left, and what each changes, discards and logs is
/// told in that order.
pub proof fn reports_are_looked_at_in_order(
    queue: QueueView,
    first: Seq<(EventView, u128)>,
    second: Seq<(EventView, u128)>,
    one: (EventView, u128),
)
    ensures
        queue.apply_all(first + second) == queue.apply_all(first).apply_all(second),
        queue.changed_by_all(first + second) <==> queue.changed_by_all(first) || queue.apply_all(
            first,
        ).changed_by_all(second),
        queue.discarded_by_all(first + second) == queue.discarded_by_all(first) + queue.apply_all(
            first,
        ).discarded_by_all(second),
        queue.failed_by_all(first + second) == queue.failed_by_all(first) + queue.apply_all(
            first,
        ).failed_by_all(second),
        queue.apply_all(seq![]) == queue,
        queue.apply_all(seq![one]) == queue.apply_event(one.0, one.1),
        queue.changed_by_all(seq![one]) <==> queue.changed_by(one.0, one.1),
        queue.discarded_by(one.0) matches Some(id) ==> queue.discarded_by_all(seq![one]) == seq![
            id,
        ],
        queue.discarded_by(one.0) is None ==> queue.discarded_by_all(seq![one]).len() == 0,
        queue.failed_by(one.0) matches Some(note) ==> queue.failed_by_all(seq![one]) == seq![note],
        queue.failed_by(one.0) is None ==> queue.failed_by_all(seq![one]).len() == 0,
        queue.settled(first, false) == queue.apply_all(first),
        queue.settled(first, true) == queue.apply_all(first).worker_gone(),
        queue.failures(first, false) == queue.failed_by_all(first),
        queue.failures(first, true) == queue.failed_by_all(first) + queue.apply_all(first).failures(
            seq![],
            true,
        ),
    decreases second.len(),
{
    let single = seq![one];
    assert(single.drop_last() =~= seq![]);
    assert(single.last() == one);
    reveal_with_fuel(QueueView::apply_all, 2);
    reveal_with_fuel(QueueView::changed_by_all, 2);
    reveal_with_fuel(QueueView::discarded_by_all, 2);
    reveal_with_fuel(QueueView::failed_by_all, 2);
    assert(queue.discarded_by(one.0) matches Some(id) ==> queue.discarded_by_all(single) =~= seq![
        id,
    ]);
    assert(queue.failed_by(one.0) matches Some(note) ==> queue.failed_by_all(single) =~= seq![
        note,
    ]);
    let after = queue.apply_all(first);
    assert(after.failed_by_all(seq![]) =~= seq![]);
    assert(queue.failures(first, true) =~= queue.failed_by_all(first) + after.failures(
        seq![],
        true,
    ));
    if second.len() == 0 {
        assert(first + second =~= first);
        assert(queue.discarded_by_all(first) + after.discarded_by_all(second)
            =~= queue.discarded_by_all(first));
        assert(queue.failed_by_all(first) + after.failed_by_all(second) =~= queue.failed_by_all(
            first,
        ));
    } else {
        let shorter = second.drop_last();
        reports_are_looked_at_in_order(queue, first, shorter, one);
        assert((first + second).drop_last() =~= first + shorter);
        assert((first + second).last() == second.last());
        assert(queue.discarded_by_all(first + second) =~= queue.discarded_by_all(first)
            + after.discarded_by_all(second));
        assert(queue.failed_by_all(first + second) =~= queue.failed_by_all(first)
            + after.failed_by_all(second));
    }
}

/// Cancelling changes of an active task its state and its speed, and ends the work
/// on it, where it is being worked on; everything cancelled at once, only the
/// states of the active tasks change, and nothing is being worked on.
pub proof fn cancelled_tasks_keep_the_rest(queue: QueueView, i: int)
    requires
        queue.sound(),
        0 <= i < queue.tasks.len(),
    ensures
        ({
            let task = queue.tasks[i];
            let next = queue.cancelled(task.id);
            let none = queue.all_cancelled();
            let active = task.status == UploadStatus::Waiting || task.status
                == UploadStatus::Uploading || task.status == UploadStatus::Processing;
            &&& active ==> {
                &&& next.tasks[i].speed.bytes == 0
                &&& next.tasks[i] == (TaskView {
                    status: UploadStatus::Cancelled,
                    speed: next.tasks[i].speed,
                    ..task
                })
                &&& next.current == (if queue.current == Some(task.id) {
                    None
                } else {
                    queue.current
                })
                &&& none.tasks[i] == (TaskView { status: UploadStatus::Cancelled, ..task })
            }
            &&& !active ==> next == queue && none.tasks[i] == task
            &&& next.jobs == queue.jobs
            &&& next.next_id == queue.next_id
            &&& none.current is None
            &&& none.tasks.len() == queue.tasks.len()
            &&& none.jobs == queue.jobs
            &&& none.next_id == queue.next_id
        }),
{
    lemma_place(queue, i);
}

/// Cancelling stops the worker just where it is at that task, and gives up the
/// task's file just where that is temporary and the task was active.
pub proof fn cancelling_stops_its_own_worker(queue: QueueView, i: int)
    requires
        queue.sound(),
        0 <= i < queue.tasks.len(),
    ensures
        ({
            let task = queue.tasks[i];
            &&& queue.stops_for(task.id) <==> task.status == UploadStatus::Uploading || task.status
                == UploadStatus::Processing
            &&& queue.discards_for(task.id) <==> task.temporary && (task.status
                == UploadStatus::Waiting || task.status == UploadStatus::Uploading || task.status
                == UploadStatus::Processing)
        }),
{
    lemma_place(queue, i);
}

/// Something has changed where a report changes it, or where a worker is lost that
/// was at a task; else nothing has.
pub proof fn changes_are_told(
    queue: QueueView,
    first: Seq<(EventView, u128)>,
    one: (EventView, u128),
    worker_gone: bool,
)
    ensures
        queue.changed_in(first, false) <==> queue.changed_by_all(first),
        queue.changed_in(first.push(one), worker_gone) <== queue.changed_in(first, false),
        queue.apply_all(first).changed_by(one.0, one.1) ==> queue.changed_in(
            first.push(one),
            worker_gone,
        ),
        queue.changed_in(seq![], true) <==> queue.current is Some,
        !queue.changed_in(seq![], false),
{
    assert(first.push(one).drop_last() =~= first);
}

/// A removed task leaves a gap that closes: the tasks in front of it stay in their
/// places, those behind it move up by one, and of the others everything is kept.
pub proof fn removal_closes_the_gap(queue: QueueView, i: int)
    requires
        queue.sound(),
        0 <= i < queue.tasks.len(),
    ensures
        ({
            let id = queue.tasks[i].id;
            let next = queue.removed(id);
            let over = queue.tasks[i].status == UploadStatus::Succeeded || queue.tasks[i].status
                == UploadStatus::Failed || queue.tasks[i].status == UploadStatus::Cancelled;
            &&& queue.removable(id) == over
            &&& !over ==> next == queue
            &&& over ==> {
                &&& next.tasks.len() == queue.tasks.len() - 1
                &&& forall|j: int| 0 <= j < i ==> #[trigger] next.tasks[j] == queue.tasks[j]
                &&& forall|j: int|
                    i <= j < next.tasks.len() ==> #[trigger] next.tasks[j] == queue.tasks[j + 1]
                &&& forall|x: u64|
                    #![trigger next.jobs.contains_key(x)]
                    next.jobs.contains_key(x) <==> queue.jobs.contains_key(x) && x != id
                &&& forall|x: u64|
                    queue.jobs.contains_key(x) && x != id ==> #[trigger] next.jobs[x]
                        == queue.jobs[x]
                &&& next.current == queue.current
                &&& next.next_id == queue.next_id
            }
        }),
{
    lemma_place(queue, i);
}

/// What comes of starting a task over is told by the task and its file: one that
/// is not there is unknown; one that is active or has succeeded is left alone; of
/// the others one without a file is refused, and one whose path is no regular file
/// too; the rest is started over.
pub proof fn retries_are_decided_by_task_and_file(
    queue: QueueView,
    id: u64,
    i: int,
    metadata: Option<FileMetadata>,
)
    requires
        queue.sound(),
    ensures
        (forall|j: int| 0 <= j < queue.tasks.len() ==> (#[trigger] queue.tasks[j]).id != id)
            ==> queue.retry_verdict(id, metadata) == Err::<bool, RetryError>(
            RetryError::UnknownTask,
        ),
        0 <= i < queue.tasks.len() && queue.tasks[i].id == id ==> queue.retry_verdict(id, metadata)
            == (match (queue.tasks[i].status, metadata) {
            (UploadStatus::Failed, None) | (UploadStatus::Cancelled, None) => Err::<
                bool,
                RetryError,
            >(RetryError::FileGone),
            (UploadStatus::Failed, Some(found)) | (UploadStatus::Cancelled, Some(found)) => {
                if found.is_file {
                    Ok(true)
                } else {
                    Err(RetryError::NotAFile)
                }
            },
            _ => Ok(false),
        }),
{
    if 0 <= i < queue.tasks.len() && queue.tasks[i].id == id {
        lemma_place(queue, i);
    }
    queue::lemma_position(queue.tasks, id);
    if queue.holds(id) {
        assert(queue.tasks[queue::position(queue.tasks, id)].id == id);
    }
}

/// The temporary files of a list of tasks are those of its tasks, one by one.
pub proof fn temporary_files_are_told_one_by_one(
    first: Seq<TaskView>,
    second: Seq<TaskView>,
    one: TaskView,
)
    ensures
        queue::temporary_ids(first + second) == queue::temporary_ids(first) + queue::temporary_ids(
            second,
        ),
        one.temporary ==> queue::temporary_ids(seq![one]) == seq![one.id],
        !one.temporary ==> queue::temporary_ids(seq![one]).len() == 0,
    decreases second.len(),
{
    let single = seq![one];
    assert(single.drop_last() =~= seq![]);
    assert(single.last() == one);
    assert(queue::temporary_ids(single.drop_last()) =~= seq![]);
    assert(one.temporary ==> queue::temporary_ids(single) =~= seq![one.id]);
    if second.len() == 0 {
        assert(first + second =~= first);
        assert(queue::temporary_ids(first) + queue::temporary_ids(second)
            =~= queue::temporary_ids(first));
    } else {
        temporary_files_are_told_one_by_one(first, second.drop_last(), one);
        assert((first + second).drop_last() =~= first + second.drop_last());
        assert((first + second).last() == second.last());
        assert(queue::temporary_ids(first + second) =~= queue::temporary_ids(first)
            + queue::temporary_ids(second));
    }
}

/// Active tasks are counted one by one.
pub proof fn active_tasks_are_counted_one_by_one(tasks: Seq<TaskView>, one: TaskView)
    ensures
        queue::active_tasks(tasks.push(one)) == queue::active_tasks(tasks) + (if one.status
            == UploadStatus::Waiting || one.status == UploadStatus::Uploading || one.status
            == UploadStatus::Processing {
            1int
        } else {
            0int
        }),
        queue::active_tasks(seq![]) == 0,
{
    let wanted = |task: TaskView| task.status.active();
    assert(tasks.push(one).drop_last() =~= tasks);
    reveal_with_fuel(Seq::filter, 2);
}

/// The views of candidates, reports, tasks and starts hold all of them, in their
/// places.
pub proof fn views_hold_the_whole_queue(
    candidates: Seq<Candidate>,
    events: Seq<(QueueEvent, u128)>,
    tasks: Seq<UploadTask>,
    start: Option<StartUpload>,
)
    ensures
        queue::candidate_views(candidates).len() == candidates.len(),
        forall|i: int|
            0 <= i < candidates.len() ==> #[trigger] queue::candidate_views(candidates)[i]
                == candidates[i]@,
        forall|i: int|
            0 <= i < candidates.len() ==> (#[trigger] candidates[i])@.path == candidates[i].path
                && candidates[i]@.shown == candidates[i].shown@,
        forall|i: int|
            0 <= i < candidates.len() ==> ((#[trigger] candidates[i])@.metadata is Ok
                <==> candidates[i].probe.metadata is Ok) && (candidates[i].probe.metadata is Ok
                ==> candidates[i]@.metadata->Ok_0 == candidates[i].probe.metadata->Ok_0) && (
            candidates[i].probe.metadata is Err ==> candidates[i]@.metadata->Err_0
                == candidates[i].probe.metadata->Err_0@),
        queue::event_views(events).len() == events.len(),
        forall|i: int|
            0 <= i < events.len() ==> #[trigger] queue::event_views(events)[i] == (
                events[i].0@,
                events[i].1,
            ),
        forall|i: int|
            0 <= i < events.len() ==> match (#[trigger] events[i]).0 {
                QueueEvent::Progress { id, generation, sent, total } => events[i].0@ == (
                EventView::Progress { id, generation, sent, total }),
                QueueEvent::Finished { id, generation, result } => {
                    &&& events[i].0@ is Finished
                    &&& events[i].0@.task() == id
                    &&& events[i].0@.generation() == generation
                    &&& match result {
                        Ok(Some(file_id)) => events[i].0@->Finished_result == Ok::<
                            Option<Seq<char>>,
                            Seq<char>,
                        >(Some(file_id@)),
                        Ok(None) => events[i].0@->Finished_result == Ok::<
                            Option<Seq<char>>,
                            Seq<char>,
                        >(None),
                        Err(error) => events[i].0@->Finished_result == Err::<
                            Option<Seq<char>>,
                            Seq<char>,
                        >(error@),
                    }
                },
            },
        queue::task_views(tasks).len() == tasks.len(),
        forall|i: int|
            0 <= i < tasks.len() ==> #[trigger] queue::task_views(tasks)[i] == tasks[i]@,
        queue::start_view(start) is Some <==> start is Some,
        start is Some ==> queue::start_view(start)->0.id == start->0.id && queue::start_view(
            start,
        )->0.generation == start->0.generation && queue::start_view(start)->0.options
            == start->0.options@,
{
}

} // verus!
