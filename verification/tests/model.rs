use std::path::PathBuf;

use giant_file_exchange::model::{
    format_bytes, FileMetadata, FileProbe, Share, TransferRate, UploadStatus, UploadTask,
};

fn probe(len: u64, name: Option<&str>) -> FileProbe {
    FileProbe {
        metadata: Ok(FileMetadata { is_file: true, len }),
        file_name: name.map(|name| name.to_owned()),
    }
}

fn reference(value: u64) -> String {
    let units = ["B", "KB", "MB", "GB", "TB"];
    let mut amount = value as f64;
    let mut unit = 0;
    while amount >= 1024.0 && unit < 4 {
        amount /= 1024.0;
        unit += 1;
    }
    if amount >= 10.0 || unit == 0 {
        format!("{amount:.0} {}", units[unit])
    } else {
        format!("{amount:.1} {}", units[unit])
    }
}

#[test]
fn formats_bytes() {
    assert_eq!(format_bytes(0), "0 B");
    assert_eq!(format_bytes(1024), "1.0 KB");
    assert_eq!(format_bytes(10 * 1024), "10 KB");
}

#[test]
fn status_capabilities_are_stable() {
    assert!(UploadStatus::Waiting.is_active());
    assert!(!UploadStatus::Succeeded.is_active());
    assert!(UploadStatus::Failed.can_retry());
    assert!(!UploadStatus::Uploading.can_retry());
}

#[test]
fn sizes_are_rounded_like_floating_point_numbers() {
    assert_eq!(format_bytes(1023), "1023 B");
    assert_eq!(format_bytes(1536), "1.5 KB");
    assert_eq!(format_bytes(1024 * 1024 - 1), "1024 KB");
    assert_eq!(format_bytes(10 * 1024 + 512), "10 KB");
    assert_eq!(format_bytes(11 * 1024 + 512), "12 KB");
    assert_eq!(format_bytes(u64::MAX), "16777216 TB");
    for value in 1..20_000_u64 {
        assert_eq!(format_bytes(value), reference(value));
    }
    let mut seed = 0x9e37_79b9_7f4a_7c15_u64;
    for _ in 0..200_000 {
        seed = seed.wrapping_mul(6364136223846793005).wrapping_add(1442695040888963407);
        let value = seed >> (seed % 64);
        assert_eq!(format_bytes(value), reference(value));
    }
    for power in 0..64_u32 {
        for offset in [0_u64, 1, 2, 511, 512, 513] {
            let value = (1_u64 << power).wrapping_sub(256).wrapping_add(offset);
            assert_eq!(format_bytes(value), reference(value));
        }
    }
}

#[test]
fn tasks_are_made_of_regular_files() {
    let path = PathBuf::from("dir/notes.txt");
    let task = UploadTask::new(7, path.clone(), probe(5, Some("notes.txt")), true).unwrap();
    assert_eq!(task.id, 7);
    assert_eq!(task.path, path);
    assert_eq!(task.file_name, "notes.txt");
    assert_eq!((task.file_size, task.bytes_sent), (5, 0));
    assert_eq!(task.status, UploadStatus::Waiting);
    assert!(task.temporary);
    let unnamed = UploadTask::new(8, path.clone(), probe(5, None), false).unwrap();
    assert_eq!(unnamed.file_name, "未命名文件");
    let directory = FileProbe {
        metadata: Ok(FileMetadata { is_file: false, len: 0 }),
        file_name: None,
    };
    assert_eq!(
        UploadTask::new(9, path.clone(), directory, false).unwrap_err(),
        "所选路径不是普通文件"
    );
    let missing = FileProbe {
        metadata: Err("gone".to_owned()),
        file_name: None,
    };
    assert_eq!(
        UploadTask::new(9, path, missing, false).unwrap_err(),
        "gone"
    );
}

#[test]
fn progress_is_a_share_of_the_file() {
    let path = PathBuf::from("a");
    let mut task = UploadTask::new(1, path.clone(), probe(8, None), false).unwrap();
    task.bytes_sent = 2;
    assert_eq!(task.progress(), Share { part: 2, whole: 8 });
    task.bytes_sent = 9;
    assert_eq!(task.progress(), Share { part: 8, whole: 8 });
    let mut empty = UploadTask::new(2, path, probe(0, None), false).unwrap();
    assert_eq!(empty.progress(), Share { part: 0, whole: 1 });
    empty.status = UploadStatus::Succeeded;
    assert_eq!(empty.progress(), Share { part: 1, whole: 1 });
}

#[test]
fn a_retry_starts_from_nothing() {
    let mut task = UploadTask::new(1, PathBuf::from("a"), probe(8, None), false).unwrap();
    task.bytes_sent = 4;
    task.status = UploadStatus::Failed;
    task.error = "broken".to_owned();
    task.server_file_id = Some("id".to_owned());
    task.speed_bytes_per_second = TransferRate { bytes: 3, nanos: 5 };
    task.last_progress_at = Some(9);
    task.last_progress_bytes = 4;
    task.reset_for_retry();
    assert_eq!(task.bytes_sent, 0);
    assert_eq!(task.status, UploadStatus::Waiting);
    assert_eq!(task.error, "");
    assert_eq!(task.server_file_id, None);
    assert_eq!(task.speed_bytes_per_second, TransferRate::none());
    assert_eq!(task.last_progress_at, None);
    assert_eq!(task.last_progress_bytes, 0);
    assert_eq!(task.file_size, 8);
}

#[test]
fn captions_name_the_states() {
    let captions = [
        (UploadStatus::Waiting, "等待上传"),
        (UploadStatus::Uploading, "上传中"),
        (UploadStatus::Processing, "服务器处理中"),
        (UploadStatus::Succeeded, "上传成功"),
        (UploadStatus::Failed, "上传失败"),
        (UploadStatus::Cancelled, "已取消"),
    ];
    for (status, caption) in captions {
        assert_eq!(status.text(), caption);
        let kinds = [
            status == UploadStatus::Succeeded,
            status.is_active(),
            status.can_retry(),
        ];
        assert_eq!(kinds.iter().filter(|kind| **kind).count(), 1);
    }
}
