//! The upload queue: tasks are worked on one at a time, in the order in which
//! they were added.
use std::collections::HashMap;
use std::path::PathBuf;
use vstd::prelude::*;

use crate::api::{OptionsView, UploadOptions};
use crate::logging;
use crate::logging::{upload_failed, worker_lost, LogNote, NoteView};
use crate::model;
use crate::model::{
    FileMetadata, FileProbe, TaskView, TransferRate, UploadStatus, UploadTask,
};
use crate::text;

verus! {

/// How long, in nanoseconds, a shown progress stands before the next is shown.
pub const PROGRESS_INTERVAL: u128 = 100_000_000;

/// A report of the worker that runs an upload.
#[derive(Debug)]
pub enum QueueEvent {
    Progress { id: u64, generation: u64, sent: u64, total: u64 },
    Finished { id: u64, generation: u64, result: Result<Option<String>, String> },
}

/// A report, with its texts as sequences of characters.
pub enum EventView {
    Progress { id: u64, generation: u64, sent: u64, total: u64 },
    Finished { id: u64, generation: u64, result: Result<Option<Seq<char>>, Seq<char>> },
}

impl View for QueueEvent {
    type V = EventView;

    open spec fn view(&self) -> EventView {
        match self {
            QueueEvent::Progress { id, generation, sent, total } => EventView::Progress {
                id: *id,
                generation: *generation,
                sent: *sent,
                total: *total,
            },
            QueueEvent::Finished { id, generation, result } => EventView::Finished {
                id: *id,
                generation: *generation,
                result: match result {
                    Ok(file_id) => Ok(text::text_option(*file_id)),
                    Err(error) => Err(error@),
                },
            },
        }
    }
}

/// What a task is uploaded with, and how often it was started over.
struct TaskOptions {
    generation: u64,
    options: UploadOptions,
}

/// What a task is uploaded with, and how often it was started over.
pub struct JobView {
    pub generation: u64,
    pub options: OptionsView,
}

/// An upload to be started now.
pub struct StartUpload {
    pub id: u64,
    pub generation: u64,
    pub options: UploadOptions,
}

/// An upload to be started, with its texts as sequences of characters.
pub struct StartView {
    pub id: u64,
    pub generation: u64,
    pub options: OptionsView,
}

/// The view of an upload to be started.
pub open spec fn start_view(start: Option<StartUpload>) -> Option<StartView> {
    match start {
        Some(upload) => Some(
            StartView {
                id: upload.id,
                generation: upload.generation,
                options: upload.options@,
            },
        ),
        None => None,
    }
}

/// A path that is to be made a task: how it is shown and what was found out
/// about it.
#[derive(Debug)]
pub struct Candidate {
    pub path: PathBuf,
    pub shown: String,
    pub probe: FileProbe,
}

/// A candidate, with its texts as sequences of characters.
pub struct CandidateView {
    pub path: PathBuf,
    pub shown: Seq<char>,
    pub metadata: Result<FileMetadata, Seq<char>>,
    pub file_name: Option<Seq<char>>,
}

impl View for Candidate {
    type V = CandidateView;

    open spec fn view(&self) -> CandidateView {
        CandidateView {
            path: self.path,
            shown: self.shown@,
            metadata: match self.probe.metadata {
                Ok(metadata) => Ok(metadata),
                Err(error) => Err(error@),
            },
            file_name: text::text_option(self.probe.file_name),
        }
    }
}

/// The views of a list of candidates.
pub open spec fn candidate_views(list: Seq<Candidate>) -> Seq<CandidateView> {
    Seq::new(list.len(), |i: int| list[i]@)
}

impl CandidateView {
    /// Why the path makes no task, where it makes none.
    pub open spec fn fault(self) -> Option<Seq<char>> {
        match self.metadata {
            Err(error) => Some(error),
            Ok(metadata) => if metadata.is_file {
                None
            } else {
                Some(model::not_a_file())
            },
        }
    }
}

/// What came of adding files.
pub struct AddOutcome {
    pub errors: Vec<String>,
    pub start: Option<StartUpload>,
}

/// What came of looking at the reports.
pub struct PollOutcome {
    /// Whether anything that is shown may have changed.
    pub changed: bool,
    /// The tasks whose temporary file is done with.
    pub discard: Vec<u64>,
    /// What is to be logged of tasks that failed.
    pub failures: Vec<LogNote>,
    pub start: Option<StartUpload>,
}

/// What came of cancelling a task.
pub struct CancelOutcome {
    /// Whether the worker is to be stopped.
    pub abort: bool,
    /// Whether the task's temporary file is done with.
    pub discard: bool,
    pub start: Option<StartUpload>,
}

/// What came of cancelling everything.
pub struct CancelAllOutcome {
    /// Whether the worker is to be stopped.
    pub abort: bool,
    /// The tasks whose temporary file is done with.
    pub discard: Vec<u64>,
}

/// Why a task is not started over.
#[derive(Debug, Clone, Copy, PartialEq, Eq, Structural)]
pub enum RetryError {
    UnknownTask,
    FileGone,
    NotAFile,
}

impl RetryError {
    pub open spec fn wording(self) -> Seq<char> {
        match self {
            RetryError::UnknownTask => "任务不存在"@,
            RetryError::FileGone => "文件不存在或已被移动"@,
            RetryError::NotAFile => model::not_a_file(),
        }
    }

    /// What the user reads.
    pub fn message(self) -> (message: String)
        ensures
            message@ == self.wording(),
    {
        match self {
            RetryError::UnknownTask => "任务不存在".to_owned(),
            RetryError::FileGone => "文件不存在或已被移动".to_owned(),
            RetryError::NotAFile => "所选路径不是普通文件".to_owned(),
        }
    }
}

/// The place of the task `id`, or the number of tasks where there is none.
pub open spec fn position(tasks: Seq<TaskView>, id: u64) -> int
    decreases tasks.len(),
{
    if tasks.len() == 0 || tasks[0].id == id {
        0
    } else {
        1 + position(tasks.drop_first(), id)
    }
}

/// The place of the first task that waits, or the number of tasks where none
/// does.
pub open spec fn first_waiting(tasks: Seq<TaskView>) -> int
    decreases tasks.len(),
{
    if tasks.len() == 0 || tasks[0].status == UploadStatus::Waiting {
        0
    } else {
        1 + first_waiting(tasks.drop_first())
    }
}

/// How many tasks are active.
pub open spec fn active_tasks(tasks: Seq<TaskView>) -> nat {
    tasks.filter(|task: TaskView| task.status.active()).len()
}

/// The queue: its tasks in the order in which they were added, what each is
/// uploaded with, the next number to give out, and the task being worked on.
pub struct QueueView {
    pub tasks: Seq<TaskView>,
    pub jobs: Map<u64, JobView>,
    pub next_id: u64,
    pub current: Option<u64>,
}

impl TaskView {
    /// Whether a report of progress is to be shown: the file is out, or none was
    /// shown for a while.
    pub open spec fn shows_progress(self, sent: u64, total: u64, now: u128) -> bool {
        &&& self.status == UploadStatus::Uploading
        &&& sent >= total || self.last_progress_at is None || now - self.last_progress_at->0
            >= PROGRESS_INTERVAL
    }

    /// The task once a report of progress is shown.
    pub open spec fn after_progress(self, sent: u64, total: u64, now: u128) -> TaskView {
        TaskView {
            bytes_sent: if sent <= self.file_size {
                sent
            } else {
                self.file_size
            },
            last_progress_bytes: sent,
            last_progress_at: Some(now),
            status: if sent >= total {
                UploadStatus::Processing
            } else {
                self.status
            },
            speed: if sent >= total {
                model::no_transfer()
            } else if self.last_progress_at is Some && now > self.last_progress_at->0 {
                TransferRate {
                    bytes: if sent >= self.last_progress_bytes {
                        (sent - self.last_progress_bytes) as u64
                    } else {
                        0
                    },
                    nanos: (now - self.last_progress_at->0) as u128,
                }
            } else {
                self.speed
            },
            ..self
        }
    }

    /// The task once its upload is over.
    pub open spec fn after_finish(self, result: Result<Option<Seq<char>>, Seq<char>>) -> TaskView {
        match result {
            Ok(file_id) => TaskView {
                bytes_sent: self.file_size,
                speed: model::no_transfer(),
                status: UploadStatus::Succeeded,
                server_file_id: file_id,
                ..self
            },
            Err(error) => TaskView {
                speed: model::no_transfer(),
                status: UploadStatus::Failed,
                error,
                ..self
            },
        }
    }
}

impl EventView {
    /// The task that the report is on.
    pub open spec fn task(self) -> u64 {
        match self {
            EventView::Progress { id, .. } => id,
            EventView::Finished { id, .. } => id,
        }
    }

    /// The try that the report is on.
    pub open spec fn generation(self) -> u64 {
        match self {
            EventView::Progress { generation, .. } => generation,
            EventView::Finished { generation, .. } => generation,
        }
    }
}

impl QueueView {
    /// No task, and nothing to do.
    pub open spec fn empty() -> QueueView {
        QueueView { tasks: Seq::empty(), jobs: Map::empty(), next_id: 1, current: None }
    }

    /// Whether there is a task `id`.
    pub open spec fn holds(self, id: u64) -> bool {
        position(self.tasks, id) < self.tasks.len()
    }

    /// The task `id`.
    pub open spec fn task(self, id: u64) -> TaskView {
        self.tasks[position(self.tasks, id)]
    }

    /// The queue with another task in place of the task `id`.
    pub open spec fn with_task(self, id: u64, task: TaskView) -> QueueView {
        QueueView { tasks: self.tasks.update(position(self.tasks, id), task), ..self }
    }

    /// What holds at all times: the numbers of the tasks grow, each task has its
    /// options, and the task being worked on is the one that is in flight.
    pub open spec fn sound(self) -> bool {
        &&& forall|i: int, j: int|
            0 <= i < j < self.tasks.len() ==> (#[trigger] self.tasks[i]).id < (
            #[trigger] self.tasks[j]).id
        &&& forall|i: int|
            0 <= i < self.tasks.len() ==> (#[trigger] self.tasks[i]).id < self.next_id
                && self.tasks[i].wf()
        &&& forall|i: int|
            0 <= i < self.tasks.len() ==> self.jobs.contains_key((#[trigger] self.tasks[i]).id)
        &&& forall|id: u64| #[trigger] self.jobs.contains_key(id) ==> self.holds(id)
        &&& forall|i: int|
            0 <= i < self.tasks.len() ==> ((#[trigger] self.tasks[i]).status.in_flight()
                <==> self.current == Some(self.tasks[i].id))
        &&& self.current is Some ==> self.holds(self.current->0)
    }

    /// What holds between the operations: besides, no task waits while none is
    /// being worked on.
    pub open spec fn wf(self) -> bool {
        &&& self.sound()
        &&& self.current is None ==> forall|i: int|
            0 <= i < self.tasks.len() ==> (#[trigger] self.tasks[i]).status
                != UploadStatus::Waiting
    }

    /// Whether an upload can be started.
    pub open spec fn can_start(self) -> bool {
        &&& self.current is None
        &&& first_waiting(self.tasks) < self.tasks.len()
        &&& self.jobs.contains_key(self.tasks[first_waiting(self.tasks)].id)
    }

    /// The upload to be started next: that of the first task that waits, where
    /// none is being worked on.
    pub open spec fn next_start(self) -> Option<StartView> {
        if self.can_start() {
            let id = self.tasks[first_waiting(self.tasks)].id;
            Some(
                StartView {
                    id,
                    generation: self.jobs[id].generation,
                    options: self.jobs[id].options,
                },
            )
        } else {
            None
        }
    }

    /// The queue once that upload is started.
    pub open spec fn start_next(self, now: u128) -> QueueView {
        if self.can_start() {
            let i = first_waiting(self.tasks);
            let task = self.tasks[i];
            QueueView {
                tasks: self.tasks.update(
                    i,
                    TaskView {
                        status: UploadStatus::Uploading,
                        last_progress_at: Some(now),
                        last_progress_bytes: 0,
                        ..task
                    },
                ),
                current: Some(task.id),
                ..self
            }
        } else {
            self
        }
    }

    /// The queue once a candidate was looked at: it gets a number, and becomes a
    /// task where its path is a regular file.
    pub open spec fn add_one(
        self,
        candidate: CandidateView,
        temporary: bool,
        options: OptionsView,
    ) -> QueueView {
        let id = self.next_id;
        let numbered = QueueView { next_id: (id + 1) as u64, ..self };
        match candidate.metadata {
            Ok(metadata) => if metadata.is_file {
                QueueView {
                    tasks: self.tasks.push(
                        TaskView::fresh(
                            id,
                            candidate.path,
                            match options.upload_file_name {
                                Some(name) => name,
                                None => model::shown_name(candidate.file_name),
                            },
                            metadata.len,
                            temporary,
                        ),
                    ),
                    jobs: self.jobs.insert(id, JobView { generation: 0, options }),
                    ..numbered
                }
            } else {
                numbered
            },
            Err(_) => numbered,
        }
    }

    /// The queue once the candidates were looked at, one after the other.
    pub open spec fn add_all(
        self,
        candidates: Seq<CandidateView>,
        temporary: bool,
        options: OptionsView,
    ) -> QueueView
        decreases candidates.len(),
    {
        if candidates.len() == 0 {
            self
        } else {
            self.add_all(candidates.drop_last(), temporary, options).add_one(
                candidates.last(),
                temporary,
                options,
            )
        }
    }

    /// Whether the report is on a task that is here, in its present try.
    pub open spec fn heeds(self, event: EventView) -> bool {
        &&& self.jobs.contains_key(event.task())
        &&& self.jobs[event.task()].generation == event.generation()
        &&& self.holds(event.task())
    }

    /// Whether the report changes anything.
    pub open spec fn changed_by(self, event: EventView, now: u128) -> bool {
        &&& self.heeds(event)
        &&& match event {
            EventView::Progress { id, sent, total, .. } => self.task(id).shows_progress(
                sent,
                total,
                now,
            ),
            EventView::Finished { .. } => true,
        }
    }

    /// The queue once the report was looked at.
    pub open spec fn apply_event(self, event: EventView, now: u128) -> QueueView {
        if !self.changed_by(event, now) {
            self
        } else {
            match event {
                EventView::Progress { id, sent, total, .. } => self.with_task(
                    id,
                    self.task(id).after_progress(sent, total, now),
                ),
                EventView::Finished { id, result, .. } => QueueView {
                    current: if self.current == Some(id) {
                        None
                    } else {
                        self.current
                    },
                    ..self.with_task(id, self.task(id).after_finish(result))
                },
            }
        }
    }

    /// The task whose temporary file is done with once the report was looked at.
    pub open spec fn discarded_by(self, event: EventView) -> Option<u64> {
        match event {
            EventView::Finished { id, result: Ok(_), .. } => if self.heeds(event) && self.task(
                id,
            ).temporary {
                Some(id)
            } else {
                None
            },
            _ => None,
        }
    }

    /// The queue once the reports were looked at, one after the other.
    pub open spec fn apply_all(self, events: Seq<(EventView, u128)>) -> QueueView
        decreases events.len(),
    {
        if events.len() == 0 {
            self
        } else {
            self.apply_all(events.drop_last()).apply_event(events.last().0, events.last().1)
        }
    }

    /// Whether one of the reports changes anything.
    pub open spec fn changed_by_all(self, events: Seq<(EventView, u128)>) -> bool
        decreases events.len(),
    {
        events.len() > 0 && (self.changed_by_all(events.drop_last()) || self.apply_all(
            events.drop_last(),
        ).changed_by(events.last().0, events.last().1))
    }

    /// The tasks whose temporary file is done with once the reports were looked
    /// at, in that order.
    pub open spec fn discarded_by_all(self, events: Seq<(EventView, u128)>) -> Seq<u64>
        decreases events.len(),
    {
        if events.len() == 0 {
            seq![]
        } else {
            let before = self.discarded_by_all(events.drop_last());
            match self.apply_all(events.drop_last()).discarded_by(events.last().0) {
                Some(id) => before.push(id),
                None => before,
            }
        }
    }

    /// What is logged once the report was looked at.
    pub open spec fn failed_by(self, event: EventView) -> Option<NoteView> {
        match event {
            EventView::Finished { id, result: Err(error), .. } => if self.heeds(event) {
                Some(logging::upload_failed_note(self.task(id).file_name, error))
            } else {
                None
            },
            _ => None,
        }
    }

    /// What is logged once the reports were looked at, in that order.
    pub open spec fn failed_by_all(self, events: Seq<(EventView, u128)>) -> Seq<NoteView>
        decreases events.len(),
    {
        if events.len() == 0 {
            seq![]
        } else {
            let before = self.failed_by_all(events.drop_last());
            match self.apply_all(events.drop_last()).failed_by(events.last().0) {
                Some(note) => before.push(note),
                None => before,
            }
        }
    }

    /// Whether the worker would leave a task behind.
    pub open spec fn worker_leaves(self) -> bool {
        self.current is Some && self.holds(self.current->0) && self.task(
            self.current->0,
        ).status.active()
    }

    /// What is logged once the reports, and whether the worker is gone, were
    /// looked at.
    pub open spec fn failures(self, events: Seq<(EventView, u128)>, worker_gone: bool) -> Seq<
        NoteView,
    > {
        let seen = self.apply_all(events);
        if worker_gone && seen.worker_leaves() {
            self.failed_by_all(events).push(
                logging::worker_lost_note(seen.task(seen.current->0).file_name),
            )
        } else {
            self.failed_by_all(events)
        }
    }

    /// The queue once the worker is found to be gone: a task that it left behind
    /// has failed.
    pub open spec fn worker_gone(self) -> QueueView {
        match self.current {
            None => self,
            Some(id) => {
                let left = QueueView { current: None, ..self };
                if self.holds(id) && self.task(id).status.active() {
                    left.with_task(
                        id,
                        TaskView {
                            status: UploadStatus::Failed,
                            error: "上传工作线程意外结束"@,
                            ..self.task(id)
                        },
                    )
                } else {
                    left
                }
            },
        }
    }

    /// The queue once the reports, and whether the worker is gone, were looked
    /// at.
    pub open spec fn settled(self, events: Seq<(EventView, u128)>, worker_gone: bool) -> QueueView {
        if worker_gone {
            self.apply_all(events).worker_gone()
        } else {
            self.apply_all(events)
        }
    }

    /// The queue once the task `id` was cancelled, where it was active.
    pub open spec fn cancelled(self, id: u64) -> QueueView {
        if self.holds(id) && self.task(id).status.active() {
            QueueView {
                current: if self.current == Some(id) {
                    None
                } else {
                    self.current
                },
                ..self.with_task(
                    id,
                    TaskView {
                        status: UploadStatus::Cancelled,
                        speed: model::no_transfer(),
                        ..self.task(id)
                    },
                )
            }
        } else {
            self
        }
    }

    /// Whether the worker is to be stopped where the task `id` is cancelled.
    pub open spec fn stops_for(self, id: u64) -> bool {
        self.current == Some(id) && self.holds(id) && self.task(id).status.active()
    }

    /// Whether the temporary file of the task `id` is done with where it is
    /// cancelled.
    pub open spec fn discards_for(self, id: u64) -> bool {
        self.holds(id) && self.task(id).status.active() && self.task(id).temporary
    }

    /// Whether the reports, or the loss of the worker, change anything.
    pub open spec fn changed_in(self, events: Seq<(EventView, u128)>, worker_gone: bool) -> bool {
        self.changed_by_all(events) || worker_gone && self.apply_all(events).current is Some
    }

    /// What comes of starting the task `id` over, given what is known of its
    /// file.
    pub open spec fn retry_verdict(self, id: u64, metadata: Option<FileMetadata>) -> Result<
        bool,
        RetryError,
    > {
        if !self.holds(id) {
            Err(RetryError::UnknownTask)
        } else if !self.task(id).status.retryable() {
            Ok(false)
        } else if metadata is None {
            Err(RetryError::FileGone)
        } else if !metadata->0.is_file {
            Err(RetryError::NotAFile)
        } else {
            Ok(true)
        }
    }

    /// The queue once the task `id` waits again, its file being so long.
    pub open spec fn renewed(self, id: u64, file_size: u64) -> QueueView {
        QueueView {
            jobs: self.jobs.insert(
                id,
                JobView {
                    generation: (self.jobs[id].generation + 1) as u64,
                    options: self.jobs[id].options,
                },
            ),
            ..self.with_task(id, TaskView { file_size, ..self.task(id) }.as_new())
        }
    }

    /// Whether the task `id` can be removed.
    pub open spec fn removable(self, id: u64) -> bool {
        self.holds(id) && !self.task(id).status.active()
    }

    /// The queue once the task `id` was removed, where it was not active.
    pub open spec fn removed(self, id: u64) -> QueueView {
        if self.removable(id) {
            QueueView {
                tasks: self.tasks.remove(position(self.tasks, id)),
                jobs: self.jobs.remove(id),
                ..self
            }
        } else {
            self
        }
    }

    /// The queue once everything was cancelled.
    pub open spec fn all_cancelled(self) -> QueueView {
        QueueView {
            tasks: Seq::new(
                self.tasks.len(),
                |i: int|
                    if self.tasks[i].status.active() {
                        TaskView { status: UploadStatus::Cancelled, ..self.tasks[i] }
                    } else {
                        self.tasks[i]
                    },
            ),
            current: None,
            ..self
        }
    }
}

/// The numbers of the tasks with a temporary file, in order.
pub open spec fn temporary_ids(tasks: Seq<TaskView>) -> Seq<u64>
    decreases tasks.len(),
{
    if tasks.len() == 0 {
        seq![]
    } else if tasks.last().temporary {
        temporary_ids(tasks.drop_last()).push(tasks.last().id)
    } else {
        temporary_ids(tasks.drop_last())
    }
}

/// What is said of the candidates that made no task, in order.
pub open spec fn add_errors(candidates: Seq<CandidateView>) -> Seq<Seq<char>>
    decreases candidates.len(),
{
    if candidates.len() == 0 {
        seq![]
    } else {
        match candidates.last().fault() {
            Some(error) => add_errors(candidates.drop_last()).push(
                candidates.last().shown + "："@ + error,
            ),
            None => add_errors(candidates.drop_last()),
        }
    }
}

/// The view of what is to be logged, where there is anything.
pub open spec fn note_option(note: Option<LogNote>) -> Option<NoteView> {
    match note {
        Some(found) => Some(found@),
        None => None,
    }
}

/// The views of a list of tasks.
pub open spec fn task_views(tasks: Seq<UploadTask>) -> Seq<TaskView> {
    Seq::new(tasks.len(), |i: int| tasks[i]@)
}

/// The views of a list of reports, each with its time.
pub open spec fn event_views(events: Seq<(QueueEvent, u128)>) -> Seq<(EventView, u128)> {
    Seq::new(events.len(), |i: int| (events[i].0@, events[i].1))
}

/// The place that `position` gives is that of the task, and of no other.
pub proof fn lemma_position(tasks: Seq<TaskView>, id: u64)
    ensures
        0 <= position(tasks, id) <= tasks.len(),
        position(tasks, id) < tasks.len() ==> tasks[position(tasks, id)].id == id,
        forall|j: int| 0 <= j < position(tasks, id) ==> (#[trigger] tasks[j]).id != id,
    decreases tasks.len(),
{
    if tasks.len() > 0 && tasks[0].id != id {
        let rest = tasks.drop_first();
        lemma_position(rest, id);
        assert forall|j: int| 0 <= j < position(tasks, id) implies (#[trigger] tasks[j]).id != id by {
            if j > 0 {
                assert(rest[j - 1] == tasks[j]);
            }
        }
    }
}

/// The first place that holds the task is the one that `position` gives.
pub proof fn lemma_position_is(tasks: Seq<TaskView>, id: u64, k: int)
    requires
        0 <= k <= tasks.len(),
        forall|j: int| 0 <= j < k ==> (#[trigger] tasks[j]).id != id,
        k < tasks.len() ==> tasks[k].id == id,
    ensures
        position(tasks, id) == k,
{
    lemma_position(tasks, id);
    let p = position(tasks, id);
    if p < k {
        assert(tasks[p].id != id);
    } else if k < p {
        assert(tasks[k].id != id);
    }
}

/// The place that `first_waiting` gives is that of the first task that waits.
pub proof fn lemma_first_waiting(tasks: Seq<TaskView>)
    ensures
        0 <= first_waiting(tasks) <= tasks.len(),
        first_waiting(tasks) < tasks.len() ==> tasks[first_waiting(tasks)].status
            == UploadStatus::Waiting,
        forall|j: int|
            0 <= j < first_waiting(tasks) ==> (#[trigger] tasks[j]).status
                != UploadStatus::Waiting,
    decreases tasks.len(),
{
    if tasks.len() > 0 && tasks[0].status != UploadStatus::Waiting {
        let rest = tasks.drop_first();
        lemma_first_waiting(rest);
        assert forall|j: int| 0 <= j < first_waiting(tasks) implies (#[trigger] tasks[j]).status
            != UploadStatus::Waiting by {
            if j > 0 {
                assert(rest[j - 1] == tasks[j]);
            }
        }
    }
}

pub proof fn lemma_positions_kept(tasks: Seq<TaskView>, p: int, task: TaskView, id: u64)
    requires
        0 <= p < tasks.len(),
        task.id == tasks[p].id,
    ensures
        position(tasks.update(p, task), id) == position(tasks, id),
{
    lemma_position(tasks, id);
    let k = position(tasks, id);
    let updated = tasks.update(p, task);
    assert forall|j: int| 0 <= j < k implies (#[trigger] updated[j]).id != id by {
        assert(tasks[j].id != id);
    }
    lemma_position_is(updated, id, k);
}

/// A sound queue stays sound where one task takes on a state that its place in
/// the queue allows.
proof fn lemma_with_task(queue: QueueView, id: u64, task: TaskView, current: Option<u64>)
    requires
        queue.sound(),
        queue.holds(id),
        task.id == id,
        task.wf(),
        current == queue.current || (queue.current == Some(id) && current is None),
        task.status.in_flight() <==> current == Some(id),
    ensures
        (QueueView { current, ..queue.with_task(id, task) }).sound(),
{
    let p = position(queue.tasks, id);
    lemma_position(queue.tasks, id);
    let next = QueueView { current, ..queue.with_task(id, task) };
    assert forall|x: u64| #[trigger] next.jobs.contains_key(x) implies next.holds(x) by {
        lemma_positions_kept(queue.tasks, p, task, x);
    }
    if current is Some {
        lemma_positions_kept(queue.tasks, p, task, current->0);
    }
    assert forall|i: int| 0 <= i < next.tasks.len() implies ((
    #[trigger] next.tasks[i]).status.in_flight() <==> next.current == Some(next.tasks[i].id)) by {
        if i != p {
            assert(next.tasks[i] == queue.tasks[i]);
            assert(queue.tasks[i].id != queue.tasks[p].id);
        }
    }
}

pub proof fn lemma_start_next(queue: QueueView, now: u128)
    requires
        queue.sound(),
    ensures
        queue.start_next(now).wf(),
{
    lemma_first_waiting(queue.tasks);
    if queue.can_start() {
        let i = first_waiting(queue.tasks);
        let next = queue.start_next(now);
        let task = next.tasks[i];
        assert forall|x: u64| queue.holds(x) implies next.holds(x) by {
            lemma_positions_kept(queue.tasks, i, task, x);
        }
        assert(queue.holds(task.id)) by {
            assert(queue.jobs.contains_key(queue.tasks[i].id));
        }
        assert forall|j: int| 0 <= j < next.tasks.len() implies ((
        #[trigger] next.tasks[j]).status.in_flight() <==> next.current == Some(
            next.tasks[j].id,
        )) by {
            if j != i {
                assert(next.tasks[j] == queue.tasks[j]);
                assert(queue.tasks[j].id != queue.tasks[i].id);
            }
        }
    } else if queue.current is None {
        assert(first_waiting(queue.tasks) >= queue.tasks.len()) by {
            if first_waiting(queue.tasks) < queue.tasks.len() {
                assert(queue.jobs.contains_key(queue.tasks[first_waiting(queue.tasks)].id));
            }
        }
    }
}

/// A queue in order has nothing to start.
pub proof fn lemma_idle(queue: QueueView, now: u128)
    requires
        queue.wf(),
    ensures
        queue.start_next(now) == queue,
        queue.next_start() is None,
{
    lemma_first_waiting(queue.tasks);
}

proof fn lemma_apply_event(queue: QueueView, event: EventView, now: u128)
    requires
        queue.sound(),
    ensures
        queue.apply_event(event, now).sound(),
{
    if queue.changed_by(event, now) {
        let id = event.task();
        lemma_position(queue.tasks, id);
        match event {
            EventView::Progress { sent, total, .. } => {
                let task = queue.task(id).after_progress(sent, total, now);
                lemma_with_task(queue, id, task, queue.current);
                assert(queue.apply_event(event, now) == QueueView {
                    current: queue.current,
                    ..queue.with_task(id, task)
                });
            },
            EventView::Finished { result, .. } => {
                let task = queue.task(id).after_finish(result);
                let current = if queue.current == Some(id) {
                    None
                } else {
                    queue.current
                };
                lemma_with_task(queue, id, task, current);
            },
        }
    }
}

proof fn lemma_worker_gone(queue: QueueView)
    requires
        queue.sound(),
    ensures
        queue.worker_gone().sound(),
{
    if queue.current is Some {
        let id = queue.current->0;
        lemma_position(queue.tasks, id);
        let task = TaskView {
            status: UploadStatus::Failed,
            error: "上传工作线程意外结束"@,
            ..queue.task(id)
        };
        lemma_with_task(queue, id, task, None);
        assert(queue.worker_gone() == QueueView { current: None, ..queue.with_task(id, task) });
    }
}

pub proof fn lemma_cancelled(queue: QueueView, id: u64)
    requires
        queue.sound(),
    ensures
        queue.cancelled(id).sound(),
{
    if queue.holds(id) && queue.task(id).status.active() {
        lemma_position(queue.tasks, id);
        let task = TaskView {
            status: UploadStatus::Cancelled,
            speed: model::no_transfer(),
            ..queue.task(id)
        };
        let current = if queue.current == Some(id) {
            None
        } else {
            queue.current
        };
        lemma_with_task(queue, id, task, current);
    }
}

pub proof fn lemma_renewed(queue: QueueView, id: u64, file_size: u64)
    requires
        queue.sound(),
        queue.holds(id),
        queue.task(id).status.retryable(),
    ensures
        queue.renewed(id, file_size).sound(),
{
    lemma_position(queue.tasks, id);
    let task = TaskView { file_size, ..queue.task(id) }.as_new();
    lemma_with_task(queue, id, task, queue.current);
    let changed = queue.with_task(id, task);
    assert(changed == QueueView { current: queue.current, ..changed });
    let next = queue.renewed(id, file_size);
    assert(next.tasks == changed.tasks);
    assert(queue.jobs.contains_key(queue.tasks[position(queue.tasks, id)].id));
    assert(next.jobs.dom() =~= changed.jobs.dom());
    assert forall|x: u64| #[trigger] next.jobs.contains_key(x) implies next.holds(x) by {
        assert(changed.jobs.contains_key(x));
        assert(changed.holds(x));
    }
    assert forall|i: int| 0 <= i < next.tasks.len() implies next.jobs.contains_key(
        (#[trigger] next.tasks[i]).id,
    ) by {
        assert(changed.jobs.contains_key(changed.tasks[i].id));
    }
}

proof fn lemma_removed(queue: QueueView, id: u64)
    requires
        queue.wf(),
    ensures
        queue.removed(id).wf(),
{
    if queue.removable(id) {
        lemma_position(queue.tasks, id);
        let p = position(queue.tasks, id);
        let next = queue.removed(id);
        assert forall|i: int| 0 <= i < next.tasks.len() implies #[trigger] next.tasks[i]
            == queue.tasks[if i < p {
            i
        } else {
            i + 1
        }] by {}
        assert forall|x: u64| x != id && queue.holds(x) implies next.holds(x) by {
            lemma_position(queue.tasks, x);
            let k = position(queue.tasks, x);
            let q = if k < p {
                k
            } else {
                k - 1
            };
            assert(k != p);
            assert(next.tasks[q] == queue.tasks[k]);
            lemma_position(next.tasks, x);
        }
        assert forall|i: int| 0 <= i < next.tasks.len() implies next.jobs.contains_key(
            (#[trigger] next.tasks[i]).id,
        ) by {
            let k = if i < p {
                i
            } else {
                i + 1
            };
            assert(queue.tasks[k].id != queue.tasks[p].id);
            assert(queue.jobs.contains_key(queue.tasks[k].id));
        }
        assert forall|i: int, j: int| 0 <= i < j < next.tasks.len() implies (
        #[trigger] next.tasks[i]).id < (#[trigger] next.tasks[j]).id by {}
        if queue.current is Some {
            assert(queue.current->0 != id) by {
                if queue.current->0 == id {
                    assert(queue.tasks[p].status.in_flight());
                }
            }
        }
        assert forall|i: int| 0 <= i < next.tasks.len() implies ((
        #[trigger] next.tasks[i]).status.in_flight() <==> next.current == Some(
            next.tasks[i].id,
        )) by {}
    }
}

pub proof fn lemma_all_cancelled(queue: QueueView)
    requires
        queue.sound(),
    ensures
        queue.all_cancelled().wf(),
{
    let next = queue.all_cancelled();
    assert forall|x: u64| #[trigger] next.jobs.contains_key(x) implies next.holds(x) by {
        assert(queue.jobs.contains_key(x));
        lemma_position(queue.tasks, x);
        let k = position(queue.tasks, x);
        assert forall|j: int| 0 <= j < k implies (#[trigger] next.tasks[j]).id != x by {
            assert(queue.tasks[j].id != x);
        }
        lemma_position_is(next.tasks, x, k);
    }
}

pub proof fn lemma_add_one(
    queue: QueueView,
    candidate: CandidateView,
    temporary: bool,
    options: OptionsView,
)
    requires
        queue.sound(),
        queue.next_id < u64::MAX,
    ensures
        queue.add_one(candidate, temporary, options).sound(),
        queue.add_one(candidate, temporary, options).next_id == queue.next_id + 1,
{
    let next = queue.add_one(candidate, temporary, options);
    if next.tasks.len() > queue.tasks.len() {
        let n = queue.tasks.len() as int;
        assert forall|x: u64| #[trigger] next.jobs.contains_key(x) implies next.holds(x) by {
            lemma_position(next.tasks, x);
            if x == queue.next_id {
                assert(next.tasks[n].id == x);
            } else {
                assert(queue.jobs.contains_key(x));
                lemma_position(queue.tasks, x);
                assert(next.tasks[position(queue.tasks, x)].id == x);
            }
        }
        if next.current is Some {
            let x = next.current->0;
            lemma_position(queue.tasks, x);
            lemma_position(next.tasks, x);
            assert(next.tasks[position(queue.tasks, x)].id == x);
            assert(x != queue.next_id);
        }
    }
}

/// The upload queue.
pub struct UploadQueue {
    tasks: Vec<UploadTask>,
    options: HashMap<u64, TaskOptions>,
    next_id: u64,
    current: Option<u64>,
}

impl View for UploadQueue {
    type V = QueueView;

    closed spec fn view(&self) -> QueueView {
        QueueView {
            tasks: task_views(self.tasks@),
            jobs: Map::new(
                |id: u64| self.options@.contains_key(id),
                |id: u64|
                    JobView {
                        generation: self.options@[id].generation,
                        options: self.options@[id].options@,
                    },
            ),
            next_id: self.next_id,
            current: self.current,
        }
    }
}

impl UploadQueue {
    pub fn new() -> (queue: Self)
        ensures
            queue@ == QueueView::empty(),
            queue@.wf(),
    {
        let queue = UploadQueue {
            tasks: Vec::new(),
            options: HashMap::new(),
            next_id: 1,
            current: None,
        };
        assert(queue@.tasks =~= Seq::empty());
        assert(queue@.jobs =~= Map::empty());
        queue
    }

    /// The tasks, in the order in which they were added.
    pub fn tasks(&self) -> (tasks: &[UploadTask])
        ensures
            task_views(tasks@) == self@.tasks,
    {
        self.tasks.as_slice()
    }

    /// The task being worked on.
    pub fn current(&self) -> (current: Option<u64>)
        ensures
            current == self@.current,
    {
        self.current
    }

    /// The number that the next candidate gets.
    pub fn next_id(&self) -> (id: u64)
        ensures
            id == self@.next_id,
    {
        self.next_id
    }

    /// How often the task `id` was started over.
    pub fn generation_of(&self, id: u64) -> (generation: Option<u64>)
        ensures
            generation == (if self@.jobs.contains_key(id) {
                Some(self@.jobs[id].generation)
            } else {
                None
            }),
    {
        match self.options.get(&id) {
            Some(found) => Some(found.generation),
            None => None,
        }
    }

    /// How many tasks are active.
    pub fn active_count(&self) -> (count: usize)
        ensures
            count == active_tasks(self@.tasks),
    {
        let ghost wanted = |task: TaskView| task.status.active();
        let mut count: usize = 0;
        for i in 0..self.tasks.len()
            invariant
                wanted == (|task: TaskView| task.status.active()),
                count <= i,
                count == self@.tasks.take(i as int).filter(wanted).len(),
        {
            proof {
                let longer = self@.tasks.take(i + 1);
                assert(longer.drop_last() =~= self@.tasks.take(i as int));
                assert(longer.last() == self@.tasks[i as int]);
                reveal_with_fuel(Seq::filter, 2);
            }
            if self.tasks[i].status.is_active() {
                count += 1;
            }
        }
        assert(self@.tasks.take(self@.tasks.len() as int) =~= self@.tasks);
        count
    }

    /// The task `id`.
    pub fn task(&self, id: u64) -> (task: Option<&UploadTask>)
        ensures
            match task {
                Some(found) => self@.holds(id) && found@ == self@.task(id),
                None => !self@.holds(id),
            },
    {
        match self.find(id) {
            Some(i) => Some(&self.tasks[i]),
            None => None,
        }
    }

    fn find(&self, id: u64) -> (place: Option<usize>)
        ensures
            match place {
                Some(i) => i == position(self@.tasks, id) && i < self@.tasks.len(),
                None => !self@.holds(id),
            },
            self@.tasks.len() == self.tasks@.len(),
    {
        for i in 0..self.tasks.len()
            invariant
                forall|j: int| 0 <= j < i ==> (#[trigger] self@.tasks[j]).id != id,
        {
            if self.tasks[i].id == id {
                proof {
                    assert(self@.tasks[i as int].id == id);
                    lemma_position_is(self@.tasks, id, i as int);
                }
                return Some(i);
            }
            assert(self@.tasks[i as int].id != id);
        }
        proof {
            lemma_position_is(self@.tasks, id, self@.tasks.len() as int);
        }
        None
    }

    /// Starts the first task that waits, where none is being worked on.
    fn start_next(&mut self, now: u128) -> (start: Option<StartUpload>)
        requires
            old(self)@.sound(),
        ensures
            final(self)@ == old(self)@.start_next(now),
            start_view(start) == old(self)@.next_start(),
            final(self)@.wf(),
    {
        proof {
            lemma_start_next(self@, now);
            lemma_first_waiting(self@.tasks);
        }
        if self.current.is_some() {
            return None;
        }
        let mut i: usize = 0;
        while i < self.tasks.len() && self.tasks[i].status != UploadStatus::Waiting
            invariant
                i <= self.tasks@.len(),
                forall|j: int|
                    0 <= j < i ==> (#[trigger] self@.tasks[j]).status != UploadStatus::Waiting,
            decreases self.tasks@.len() - i,
        {
            assert(self@.tasks[i as int].status == self.tasks@[i as int].status);
            i += 1;
        }
        proof {
            let k = first_waiting(self@.tasks);
            if i < self.tasks@.len() {
                assert(self@.tasks[i as int].status == UploadStatus::Waiting);
            }
            if k < i {
                assert(self@.tasks[k].status != UploadStatus::Waiting);
            } else if i < k {
                assert(self@.tasks[i as int].status != UploadStatus::Waiting);
            }
            assert(i == k);
        }
        if i >= self.tasks.len() {
            return None;
        }
        let id: u64 = self.tasks[i].id;
        let (generation, options) = match self.options.get(&id) {
            Some(found) => (found.generation, found.options.duplicate()),
            None => return None,
        };
        let ghost before = self@;
        let task = &mut self.tasks[i];
        task.status = UploadStatus::Uploading;
        task.last_progress_at = Some(now);
        task.last_progress_bytes = 0;
        self.current = Some(id);
        assert(self@.tasks =~= before.start_next(now).tasks);
        Some(StartUpload { id, generation, options })
    }

    /// Adds files: each candidate gets a number, those that are regular files
    /// become tasks, and of the others it is said why they do not.
    pub fn add_files(
        &mut self,
        candidates: Vec<Candidate>,
        temporary: bool,
        options: UploadOptions,
        now: u128,
    ) -> (outcome: AddOutcome)
        requires
            old(self)@.wf(),
            old(self)@.next_id + candidates@.len() <= u64::MAX,
        ensures
            ({
                let added = old(self)@.add_all(
                    candidate_views(candidates@),
                    temporary,
                    options@,
                );
                &&& final(self)@ == added.start_next(now)
                &&& start_view(outcome.start) == added.next_start()
            }),
            text::texts(outcome.errors@) == add_errors(candidate_views(candidates@)),
            final(self)@.wf(),
    {
        let ghost first = self@;
        let ghost all = candidate_views(candidates@);
        let ghost count = candidates@.len();
        let mut errors: Vec<String> = Vec::new();
        assert(text::texts(errors@) =~= add_errors(all.take(0)));
        for candidate in it: candidates
            invariant
                it.seq() == candidates@,
                all == candidate_views(candidates@),
                count == candidates@.len(),
                self@ == first.add_all(all.take(it.index()), temporary, options@),
                text::texts(errors@) == add_errors(all.take(it.index())),
                self@.sound(),
                self@.next_id == first.next_id + it.index(),
                first.next_id + count <= u64::MAX,
        {
            let ghost i = it.index();
            let ghost before = self@;
            let ghost errors_before = errors@;
            let ghost seen = candidate@;
            proof {
                assert(seen == all[i]);
                assert(all.take(i + 1).drop_last() =~= all.take(i));
                assert(all.take(i + 1).last() == seen);
                lemma_add_one(before, seen, temporary, options@);
            }
            let id: u64 = self.next_id;
            self.next_id = self.next_id + 1;
            match UploadTask::new(id, candidate.path, candidate.probe, temporary) {
                Ok(made) => {
                    let mut task = made;
                    match &options.upload_file_name {
                        Some(name) => {
                            task.file_name = name.clone();
                        },
                        None => {},
                    }
                    let ghost job = JobView { generation: 0, options: options@ };
                    self.tasks.push(task);
                    self.options.insert(
                        id,
                        TaskOptions { generation: 0, options: options.duplicate() },
                    );
                    proof {
                        assert(self@.tasks =~= before.tasks.push(task@));
                        assert(self@.jobs =~= before.jobs.insert(id, job));
                    }
                },
                Err(error) => {
                    errors.push(candidate.shown.concat("：").concat(error.as_str()));
                    assert(self@.tasks =~= before.tasks);
                    assert(self@.jobs =~= before.jobs);
                    assert(text::texts(errors@) =~= text::texts(errors_before).push(
                        seen.shown + "："@ + error@,
                    ));
                },
            }
            assert(self@ == before.add_one(seen, temporary, options@));
        }
        assert(all.take(all.len() as int) =~= all);
        let start = self.start_next(now);
        AddOutcome { errors, start }
    }

    /// Looks at one report. Tells whether it changes anything, whether the
    /// temporary file of its task is done with, and what is to be logged.
    fn apply_event(&mut self, event: QueueEvent, now: u128) -> (effect: (
        bool,
        Option<u64>,
        Option<LogNote>,
    ))
        requires
            old(self)@.sound(),
        ensures
            final(self)@ == old(self)@.apply_event(event@, now),
            effect.0 == old(self)@.changed_by(event@, now),
            effect.1 == old(self)@.discarded_by(event@),
            note_option(effect.2) == old(self)@.failed_by(event@),
            final(self)@.sound(),
    {
        let ghost before = self@;
        proof {
            lemma_apply_event(before, event@, now);
        }
        match event {
            QueueEvent::Progress { id, generation, sent, total } => {
                match self.generation_of(id) {
                    Some(known) => if known != generation {
                        return (false, None, None);
                    },
                    None => return (false, None, None),
                }
                let i = match self.find(id) {
                    Some(i) => i,
                    None => return (false, None, None),
                };
                assert(self@.tasks[i as int] == self.tasks@[i as int]@);
                if self.tasks[i].status != UploadStatus::Uploading {
                    return (false, None, None);
                }
                let last = self.tasks[i].last_progress_at;
                let elapsed: u128 = match last {
                    Some(at) => if now > at {
                        now - at
                    } else {
                        0
                    },
                    None => 0,
                };
                if sent < total && last.is_some() && elapsed < PROGRESS_INTERVAL {
                    return (false, None, None);
                }
                let task = &mut self.tasks[i];
                if elapsed > 0 {
                    let bytes: u64 = if sent >= task.last_progress_bytes {
                        sent - task.last_progress_bytes
                    } else {
                        0
                    };
                    task.speed_bytes_per_second = TransferRate { bytes, nanos: elapsed };
                }
                task.bytes_sent = if sent <= task.file_size {
                    sent
                } else {
                    task.file_size
                };
                task.last_progress_bytes = sent;
                task.last_progress_at = Some(now);
                if sent >= total {
                    task.status = UploadStatus::Processing;
                    task.speed_bytes_per_second = TransferRate::none();
                }
                assert(self@.tasks =~= before.apply_event(event@, now).tasks);
                (true, None, None)
            },
            QueueEvent::Finished { id, generation, result } => {
                match self.generation_of(id) {
                    Some(known) => if known != generation {
                        return (false, None, None);
                    },
                    None => return (false, None, None),
                }
                let i = match self.find(id) {
                    Some(i) => i,
                    None => return (false, None, None),
                };
                assert(self@.tasks[i as int] == self.tasks@[i as int]@);
                match self.current {
                    Some(current) => if current == id {
                        self.current = None;
                    },
                    None => {},
                }
                let task = &mut self.tasks[i];
                let temporary = task.temporary;
                task.speed_bytes_per_second = TransferRate::none();
                let (discard, note) = match result {
                    Ok(file_id) => {
                        task.bytes_sent = task.file_size;
                        task.status = UploadStatus::Succeeded;
                        task.server_file_id = file_id;
                        if temporary {
                            (Some(id), None)
                        } else {
                            (None, None)
                        }
                    },
                    Err(error) => {
                        task.status = UploadStatus::Failed;
                        let note = upload_failed(task.file_name.as_str(), error.as_str());
                        task.error = error;
                        (None, Some(note))
                    },
                };
                assert(self@.tasks =~= before.apply_event(event@, now).tasks);
                assert(self@.jobs =~= before.jobs);
                (true, discard, note)
            },
        }
    }

    /// Looks at the reports that came in, each with its time, and at whether the
    /// worker of the present task is gone, and starts the next task where none
    /// is left being worked on.
    pub fn poll(&mut self, events: Vec<(QueueEvent, u128)>, worker_gone: bool, now: u128) -> (outcome:
        PollOutcome)
        requires
            old(self)@.wf(),
        ensures
            ({
                let seen = event_views(events@);
                let settled = old(self)@.settled(seen, worker_gone);
                &&& final(self)@ == settled.start_next(now)
                &&& start_view(outcome.start) == settled.next_start()
                &&& outcome.changed == (old(self)@.changed_by_all(seen) || (worker_gone && old(
                    self,
                )@.apply_all(seen).current is Some))
                &&& outcome.changed == old(self)@.changed_in(seen, worker_gone)
                &&& outcome.discard@ == old(self)@.discarded_by_all(seen)
                &&& logging::note_views(outcome.failures@) == old(self)@.failures(
                    seen,
                    worker_gone,
                )
            }),
            final(self)@.wf(),
    {
        let ghost first = self@;
        let ghost all = event_views(events@);
        let mut changed = false;
        let mut discard: Vec<u64> = Vec::new();
        let mut failures: Vec<LogNote> = Vec::new();
        assert(discard@ =~= first.discarded_by_all(all.take(0)));
        assert(logging::note_views(failures@) =~= first.failed_by_all(all.take(0)));
        for entry in it: events
            invariant
                it.seq() == events@,
                all == event_views(events@),
                self@.sound(),
                self@ == first.apply_all(all.take(it.index())),
                changed == first.changed_by_all(all.take(it.index())),
                discard@ == first.discarded_by_all(all.take(it.index())),
                logging::note_views(failures@) == first.failed_by_all(all.take(it.index())),
        {
            let ghost i = it.index();
            proof {
                assert(all[i] == (entry.0@, entry.1));
                assert(all.take(i + 1).drop_last() =~= all.take(i));
                assert(all.take(i + 1).last() == all[i]);
            }
            let (event, at) = entry;
            let (applied, done, failure) = self.apply_event(event, at);
            let ghost noted = failures@;
            if applied {
                changed = true;
            }
            match done {
                Some(id) => discard.push(id),
                None => {},
            }
            match failure {
                Some(note) => {
                    failures.push(note);
                    assert(logging::note_views(failures@) =~= logging::note_views(noted).push(
                        note@,
                    ));
                },
                None => {},
            }
        }
        assert(all.take(all.len() as int) =~= all);
        if worker_gone {
            let ghost before = self@;
            proof {
                lemma_worker_gone(before);
            }
            match self.current {
                Some(id) => {
                    self.current = None;
                    match self.find(id) {
                        Some(i) => {
                            assert(before.tasks[i as int] == self.tasks@[i as int]@);
                            if self.tasks[i].status.is_active() {
                                let ghost noted = failures@;
                                let note = worker_lost(self.tasks[i].file_name.as_str());
                                failures.push(note);
                                assert(logging::note_views(failures@) =~= logging::note_views(
                                    noted,
                                ).push(note@));
                                let task = &mut self.tasks[i];
                                task.status = UploadStatus::Failed;
                                task.error = "上传工作线程意外结束".to_owned();
                            }
                        },
                        None => {},
                    }
                    changed = true;
                },
                None => {},
            }
            assert(self@.tasks =~= before.worker_gone().tasks);
            assert(self@.jobs =~= before.jobs);
        }
        let start = self.start_next(now);
        PollOutcome { changed, discard, failures, start }
    }

    /// Cancels the task `id`, where it is active.
    pub fn cancel(&mut self, id: u64, now: u128) -> (outcome: CancelOutcome)
        requires
            old(self)@.wf(),
        ensures
            final(self)@ == old(self)@.cancelled(id).start_next(now),
            start_view(outcome.start) == old(self)@.cancelled(id).next_start(),
            ({
                let hit = old(self)@.holds(id) && old(self)@.task(id).status.active();
                &&& outcome.abort == (hit && old(self)@.current == Some(id))
                &&& outcome.discard == (hit && old(self)@.task(id).temporary)
            }),
            outcome.abort == old(self)@.stops_for(id),
            outcome.discard == old(self)@.discards_for(id),
            final(self)@.wf(),
    {
        let ghost before = self@;
        proof {
            lemma_cancelled(before, id);
            lemma_start_next(before, now);
        }
        let i = match self.find(id) {
            Some(i) => i,
            None => {
                proof {
                    lemma_idle(before, now);
                }
                return CancelOutcome { abort: false, discard: false, start: None };
            },
        };
        assert(before.tasks[i as int] == self.tasks@[i as int]@);
        if !self.tasks[i].status.is_active() {
            proof {
                    lemma_idle(before, now);
                }
            return CancelOutcome { abort: false, discard: false, start: None };
        }
        let mut abort = false;
        match self.current {
            Some(current) => if current == id {
                abort = true;
                self.current = None;
            },
            None => {},
        }
        let task = &mut self.tasks[i];
        task.status = UploadStatus::Cancelled;
        task.speed_bytes_per_second = TransferRate::none();
        let discard = task.temporary;
        assert(self@.tasks =~= before.cancelled(id).tasks);
        assert(self@.jobs =~= before.jobs);
        let start = self.start_next(now);
        CancelOutcome { abort, discard, start }
    }

    /// Starts the task `id` over, given what is known of its file. Tells which
    /// upload is to be started, or why the task is not started over; one that is
    /// active or has succeeded is left as it is.
    pub fn retry(&mut self, id: u64, metadata: Option<FileMetadata>, now: u128) -> (outcome: Result<
        Option<StartUpload>,
        RetryError,
    >)
        requires
            old(self)@.wf(),
            old(self)@.retry_verdict(id, metadata) == Ok::<bool, RetryError>(true) ==> old(
                self,
            )@.jobs[id].generation < u64::MAX,
        ensures
            match old(self)@.retry_verdict(id, metadata) {
                Err(error) => outcome == Err::<Option<StartUpload>, RetryError>(error)
                    && final(self)@ == old(self)@,
                Ok(false) => outcome == Ok::<Option<StartUpload>, RetryError>(None) && final(self)@
                    == old(self)@,
                Ok(true) => {
                    let renewed = old(self)@.renewed(id, metadata->0.len);
                    &&& outcome matches Ok(start) && start_view(start) == renewed.next_start()
                    &&& final(self)@ == renewed.start_next(now)
                },
            },
            final(self)@.wf(),
    {
        let ghost before = self@;
        let i = match self.find(id) {
            Some(i) => i,
            None => return Err(RetryError::UnknownTask),
        };
        assert(before.tasks[i as int] == self.tasks@[i as int]@);
        if !self.tasks[i].status.can_retry() {
            return Ok(None);
        }
        let metadata = match metadata {
            Some(found) => found,
            None => return Err(RetryError::FileGone),
        };
        if !metadata.is_file {
            return Err(RetryError::NotAFile);
        }
        proof {
            lemma_renewed(before, id, metadata.len);
            lemma_position(before.tasks, id);
            assert(before.jobs.contains_key(before.tasks[i as int].id));
        }
        let task = &mut self.tasks[i];
        task.file_size = metadata.len;
        task.reset_for_retry();
        match self.options.remove(&id) {
            Some(found) => {
                let mut job = found;
                job.generation = job.generation + 1;
                self.options.insert(id, job);
            },
            None => {},
        }
        assert(self@.tasks =~= before.renewed(id, metadata.len).tasks);
        assert(self@.jobs =~= before.renewed(id, metadata.len).jobs);
        Ok(self.start_next(now))
    }

    /// Removes the task `id`, where it is not active, and hands it out.
    pub fn remove(&mut self, id: u64) -> (removed: Option<UploadTask>)
        requires
            old(self)@.wf(),
        ensures
            final(self)@ == old(self)@.removed(id),
            match removed {
                Some(task) => old(self)@.removable(id) && task@ == old(self)@.task(id),
                None => !old(self)@.removable(id),
            },
            final(self)@.wf(),
    {
        let ghost before = self@;
        proof {
            lemma_removed(before, id);
        }
        let i = match self.find(id) {
            Some(i) => i,
            None => return None,
        };
        assert(before.tasks[i as int] == self.tasks@[i as int]@);
        if self.tasks[i].status.is_active() {
            return None;
        }
        let task = self.tasks.remove(i);
        self.options.remove(&id);
        assert(self@.tasks =~= before.removed(id).tasks);
        assert(self@.jobs =~= before.removed(id).jobs);
        Some(task)
    }

    /// Cancels every task that is active.
    pub fn cancel_all(&mut self) -> (outcome: CancelAllOutcome)
        requires
            old(self)@.wf(),
        ensures
            final(self)@ == old(self)@.all_cancelled(),
            outcome.abort == (old(self)@.current is Some),
            outcome.discard@ == temporary_ids(old(self)@.tasks),
            final(self)@.wf(),
    {
        let ghost before = self@;
        proof {
            lemma_all_cancelled(before);
        }
        let abort = self.current.is_some();
        self.current = None;
        let ghost goal = before.all_cancelled();
        let mut discard: Vec<u64> = Vec::new();
        assert(discard@ =~= temporary_ids(before.tasks.take(0)));
        let count = self.tasks.len();
        for i in 0..count
            invariant
                count == before.tasks.len(),
                goal == before.all_cancelled(),
                self@.tasks.len() == before.tasks.len(),
                self.tasks@.len() == before.tasks.len(),
                self@.jobs == before.jobs,
                self@.next_id == before.next_id,
                self@.current is None,
                forall|j: int| 0 <= j < i ==> #[trigger] self@.tasks[j] == goal.tasks[j],
                forall|j: int|
                    i <= j < before.tasks.len() ==> #[trigger] self@.tasks[j] == before.tasks[j],
                discard@ == temporary_ids(before.tasks.take(i as int)),
        {
            let ghost here = self@;
            assert(here.tasks[i as int] == self.tasks@[i as int]@);
            assert(before.tasks.take(i + 1).drop_last() =~= before.tasks.take(i as int));
            assert(before.tasks.take(i + 1).last() == before.tasks[i as int]);
            if self.tasks[i].status.is_active() {
                let task = &mut self.tasks[i];
                task.status = UploadStatus::Cancelled;
            }
            if self.tasks[i].temporary {
                discard.push(self.tasks[i].id);
            }
            assert(self@.jobs =~= before.jobs);
            assert(self@.tasks =~= here.tasks.update(i as int, goal.tasks[i as int]));
        }
        assert(before.tasks.take(before.tasks.len() as int) =~= before.tasks);
        assert(self@.tasks =~= goal.tasks);
        CancelAllOutcome { abort, discard }
    }
}

/// The file to be deleted once a task was removed: its own, where that is
/// temporary.
pub fn file_to_discard(removed: Option<UploadTask>) -> (file: Option<PathBuf>)
    ensures
        file is Some <==> removed is Some && removed->0@.temporary,
        file matches Some(path) ==> path == removed->0.path,
{
    match removed {
        Some(task) => if task.temporary {
            Some(task.path)
        } else {
            None
        },
        None => None,
    }
}

} // verus!
