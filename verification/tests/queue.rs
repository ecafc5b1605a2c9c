use std::path::PathBuf;

use giant_file_exchange::api::UploadOptions;
use giant_file_exchange::model::{FileMetadata, FileProbe, TransferRate, UploadStatus};
use giant_file_exchange::queue::{
    file_to_discard, Candidate, QueueEvent, RetryError, UploadQueue, PROGRESS_INTERVAL,
};

fn options(upload_file_name: Option<&str>) -> UploadOptions {
    UploadOptions {
        api_base_url: "https://example.com".to_owned(),
        token: "secret".to_owned(),
        receiver_users: vec!["alice".to_owned()],
        upload_file_name: upload_file_name.map(|name| name.to_owned()),
    }
}

fn file(name: &str, len: u64) -> Candidate {
    Candidate {
        path: PathBuf::from(name),
        shown: name.to_owned(),
        probe: FileProbe {
            metadata: Ok(FileMetadata { is_file: true, len }),
            file_name: Some(name.to_owned()),
        },
    }
}

fn broken(name: &str, error: Option<&str>) -> Candidate {
    Candidate {
        path: PathBuf::from(name),
        shown: name.to_owned(),
        probe: FileProbe {
            metadata: match error {
                Some(message) => Err(message.to_owned()),
                None => Ok(FileMetadata { is_file: false, len: 0 }),
            },
            file_name: Some(name.to_owned()),
        },
    }
}

fn statuses(queue: &UploadQueue) -> Vec<UploadStatus> {
    queue.tasks().iter().map(|task| task.status).collect()
}

fn finished(id: u64, generation: u64, result: Result<Option<&str>, &str>) -> QueueEvent {
    QueueEvent::Finished {
        id,
        generation,
        result: match result {
            Ok(file_id) => Ok(file_id.map(|text| text.to_owned())),
            Err(error) => Err(error.to_owned()),
        },
    }
}

#[test]
fn files_are_uploaded_one_after_the_other() {
    let mut queue = UploadQueue::new();
    let added = queue.add_files(vec![file("a", 10), file("b", 20)], false, options(None), 5);
    assert!(added.errors.is_empty());
    let start = added.start.unwrap();
    assert_eq!((start.id, start.generation), (1, 0));
    assert_eq!(start.options.token, "secret");
    assert_eq!(statuses(&queue), [UploadStatus::Uploading, UploadStatus::Waiting]);
    assert_eq!(queue.current(), Some(1));
    assert_eq!(queue.active_count(), 2);

    let second = queue.add_files(vec![file("c", 30)], false, options(None), 6);
    assert!(second.start.is_none());

    let polled = queue.poll(vec![(finished(1, 0, Ok(Some("id-1"))), 7)], false, 8);
    assert!(polled.changed);
    assert!(polled.discard.is_empty());
    assert_eq!(polled.start.unwrap().id, 2);
    assert_eq!(
        statuses(&queue),
        [UploadStatus::Succeeded, UploadStatus::Uploading, UploadStatus::Waiting]
    );
    let first = queue.task(1).unwrap();
    assert_eq!(first.server_file_id.as_deref(), Some("id-1"));
    assert_eq!(first.bytes_sent, 10);
    assert_eq!(queue.next_id(), 4);
}

#[test]
fn paths_that_are_no_files_are_reported() {
    let mut queue = UploadQueue::new();
    let added = queue.add_files(
        vec![broken("x", Some("gone")), file("a", 1), broken("y", None)],
        false,
        options(None),
        0,
    );
    assert_eq!(added.errors, ["x：gone", "y：所选路径不是普通文件"]);
    assert_eq!(added.start.unwrap().id, 2);
    assert_eq!(queue.tasks().len(), 1);
    assert_eq!(queue.next_id(), 4);
}

#[test]
fn texts_go_by_the_name_they_are_sent_under() {
    let mut queue = UploadQueue::new();
    queue.add_files(vec![file("tmp-1.txt", 1)], true, options(Some("message.txt")), 0);
    assert_eq!(queue.tasks()[0].file_name, "message.txt");
    assert!(queue.tasks()[0].temporary);
}

#[test]
fn progress_is_shown_now_and_then() {
    let mut queue = UploadQueue::new();
    queue.add_files(vec![file("a", 100)], false, options(None), 0);
    let report = |sent: u64| QueueEvent::Progress { id: 1, generation: 0, sent, total: 100 };

    let early = queue.poll(vec![(report(10), PROGRESS_INTERVAL - 1)], false, 0);
    assert!(!early.changed);
    assert_eq!(queue.tasks()[0].bytes_sent, 0);

    let later = queue.poll(vec![(report(30), PROGRESS_INTERVAL)], false, 0);
    assert!(later.changed);
    let task = &queue.tasks()[0];
    assert_eq!(task.bytes_sent, 30);
    assert_eq!(
        task.speed_bytes_per_second,
        TransferRate { bytes: 30, nanos: PROGRESS_INTERVAL }
    );

    let last = queue.poll(vec![(report(100), PROGRESS_INTERVAL + 1)], false, 0);
    assert!(last.changed);
    let task = &queue.tasks()[0];
    assert_eq!(task.status, UploadStatus::Processing);
    assert_eq!(task.speed_bytes_per_second, TransferRate::none());
}

#[test]
fn reports_of_an_earlier_try_change_nothing() {
    let mut queue = UploadQueue::new();
    queue.add_files(vec![file("a", 100)], false, options(None), 0);
    queue.poll(vec![(finished(1, 0, Err("broken")), 1)], false, 2);
    assert_eq!(queue.tasks()[0].status, UploadStatus::Failed);
    assert_eq!(queue.tasks()[0].error, "broken");
    assert_eq!(queue.generation_of(1), Some(0));

    let start = queue
        .retry(1, Some(FileMetadata { is_file: true, len: 120 }), 3)
        .unwrap()
        .unwrap();
    assert_eq!((start.id, start.generation), (1, 1));
    assert_eq!(queue.tasks()[0].file_size, 120);
    assert_eq!(queue.tasks()[0].error, "");

    let late = queue.poll(vec![(finished(1, 0, Ok(None)), 4)], false, 5);
    assert!(!late.changed);
    assert_eq!(queue.tasks()[0].status, UploadStatus::Uploading);
    let unknown = queue.poll(vec![(finished(9, 0, Ok(None)), 4)], false, 5);
    assert!(!unknown.changed);
    assert_eq!(queue.generation_of(9), None);
}

#[test]
fn retries_need_the_file() {
    let mut queue = UploadQueue::new();
    queue.add_files(vec![file("a", 1)], false, options(None), 0);
    let regular = Some(FileMetadata { is_file: true, len: 1 });
    assert_eq!(queue.retry(7, regular, 1).err(), Some(RetryError::UnknownTask));
    assert!(queue.retry(1, regular, 1).unwrap().is_none());
    assert_eq!(queue.tasks()[0].status, UploadStatus::Uploading);
    queue.poll(vec![(finished(1, 0, Err("broken")), 1)], false, 2);
    assert_eq!(queue.retry(1, None, 1).err(), Some(RetryError::FileGone));
    let directory = Some(FileMetadata { is_file: false, len: 0 });
    assert_eq!(queue.retry(1, directory, 1).err(), Some(RetryError::NotAFile));
    assert_eq!(RetryError::UnknownTask.message(), "任务不存在");
    assert_eq!(RetryError::FileGone.message(), "文件不存在或已被移动");
    assert_eq!(RetryError::NotAFile.message(), "所选路径不是普通文件");
}

#[test]
fn temporary_files_of_failed_uploads_are_kept() {
    let mut queue = UploadQueue::new();
    queue.add_files(vec![file("a", 1), file("b", 1)], true, options(None), 0);
    let failed = queue.poll(vec![(finished(1, 0, Err("broken")), 1)], false, 2);
    assert!(failed.discard.is_empty());
    assert_eq!(failed.failures.len(), 1);
    assert_eq!(failed.failures[0].category, "ERROR");
    assert_eq!(failed.failures[0].message, "上传失败：file=a; error=broken");
    let done = queue.poll(vec![(finished(2, 0, Ok(None)), 3)], false, 4);
    assert_eq!(done.discard, [2]);
    assert!(done.failures.is_empty());
}

#[test]
fn a_lost_worker_fails_its_task() {
    let mut queue = UploadQueue::new();
    queue.add_files(vec![file("a", 1), file("b", 1)], false, options(None), 0);
    let polled = queue.poll(vec![], true, 1);
    assert!(polled.changed);
    assert_eq!(polled.start.unwrap().id, 2);
    assert_eq!(queue.tasks()[0].status, UploadStatus::Failed);
    assert_eq!(queue.tasks()[0].error, "上传工作线程意外结束");
    assert_eq!(polled.failures[0].message, "上传工作线程意外结束：file=a");
    let mut idle = UploadQueue::new();
    assert!(!idle.poll(vec![], true, 1).changed);
}

#[test]
fn cancelling_lets_the_next_task_start() {
    let mut queue = UploadQueue::new();
    queue.add_files(vec![file("a", 1), file("b", 1), file("c", 1)], true, options(None), 0);
    let waiting = queue.cancel(2, 1);
    assert!(!waiting.abort && waiting.discard && waiting.start.is_none());
    let current = queue.cancel(1, 2);
    assert!(current.abort && current.discard);
    assert_eq!(current.start.unwrap().id, 3);
    let again = queue.cancel(1, 3);
    assert!(!again.abort && !again.discard && again.start.is_none());
    assert_eq!(
        statuses(&queue),
        [UploadStatus::Cancelled, UploadStatus::Cancelled, UploadStatus::Uploading]
    );
}

#[test]
fn only_tasks_that_are_over_are_removed() {
    let mut queue = UploadQueue::new();
    queue.add_files(vec![file("a", 1), file("b", 1)], false, options(None), 0);
    assert!(queue.remove(1).is_none());
    assert!(queue.remove(2).is_none());
    queue.poll(vec![(finished(1, 0, Ok(None)), 1)], false, 2);
    assert_eq!(queue.remove(1).unwrap().file_name, "a");
    assert_eq!(queue.tasks().len(), 1);
    assert!(queue.task(1).is_none());
    assert!(queue.remove(1).is_none());
}

#[test]
fn files_of_removed_tasks_are_discarded_where_temporary() {
    let mut queue = UploadQueue::new();
    queue.add_files(vec![file("a", 1)], true, options(None), 0);
    queue.add_files(vec![file("b", 1)], false, options(None), 0);
    assert_eq!(file_to_discard(queue.remove(1)), None);
    queue.poll(vec![(finished(1, 0, Err("broken")), 1)], false, 2);
    queue.poll(vec![(finished(2, 0, Ok(None)), 3)], false, 4);
    assert_eq!(file_to_discard(queue.remove(1)), Some(PathBuf::from("a")));
    assert_eq!(file_to_discard(queue.remove(2)), None);
}

#[test]
fn cancelling_everything_leaves_nothing_active() {
    let mut queue = UploadQueue::new();
    queue.add_files(vec![file("a", 1)], true, options(None), 0);
    queue.add_files(vec![file("b", 1)], false, options(None), 0);
    queue.add_files(vec![file("c", 1)], true, options(None), 0);
    queue.poll(vec![(finished(1, 0, Err("broken")), 1)], false, 2);
    let outcome = queue.cancel_all();
    assert!(outcome.abort);
    assert_eq!(outcome.discard, [1, 3]);
    assert_eq!(queue.active_count(), 0);
    assert_eq!(
        statuses(&queue),
        [UploadStatus::Failed, UploadStatus::Cancelled, UploadStatus::Cancelled]
    );
    assert!(!queue.cancel_all().abort);
}

#[test]
fn looking_without_reports_changes_nothing() {
    let mut queue = UploadQueue::new();
    queue.add_files(vec![file("a", 1), file("b", 1)], false, options(None), 0);
    let polled = queue.poll(vec![], false, 9);
    assert!(!polled.changed && polled.discard.is_empty() && polled.start.is_none());
    assert_eq!(statuses(&queue), [UploadStatus::Uploading, UploadStatus::Waiting]);
}
