use std::hash::{Hash, Hasher};

use giant_file_exchange::logging::{
    application_log, crash_log, notification_failed, upload_answered, upload_failed, upload_started,
    usage_answered, usage_started, worker_lost,
};
use giant_file_exchange::windows::clipboard::{
    copy_shortcut, copy_shortcut_sent, finish_capture, CaptureStep, CaptureWatch,
    ClipboardSnapshot, CopyKey, ModifierStep, ModifierWatch, CAPTURE_ATTEMPTS, MODIFIER_CHECKS,
};
use giant_file_exchange::windows::dpapi::{
    protect_token, read_unsealed, store_sealed, unprotect_token, ProtectStep, StoredTokenError,
    UnprotectStep,
};
use giant_file_exchange::windows::ipc::{
    forward_paths, message_is_out, pipe_name, received_paths, TooManyPaths, MAX_MESSAGE_BYTES,
};
use giant_file_exchange::windows::notification::{
    copy_utf16, next_tray_probe, TrayProbe, LAST_TRAY_ID,
};
use giant_file_exchange::windows::shell::{
    command_for, context_menu_values, is_context_menu_registered,
};

#[test]
fn notification_text_is_null_terminated_and_truncated() {
    let mut target = [1_u16; 8];
    copy_utf16("123456789", &mut target);
    assert_eq!(target, [49, 50, 51, 52, 53, 54, 55, 0]);
}

#[test]
fn quotes_shell_command_paths() {
    let command = command_for(r"C:\Program Files\GiantFileExchange.exe");
    assert_eq!(command, r#""C:\Program Files\GiantFileExchange.exe" "%1""#);
}

#[test]
fn notification_text_is_utf_16() {
    let mut target = [1_u16; 64];
    let text = "令牌 😀 x";
    copy_utf16(text, &mut target);
    let units: Vec<u16> = text.encode_utf16().collect();
    assert_eq!(&target[..units.len()], units.as_slice());
    assert!(target[units.len()..].iter().all(|unit| *unit == 0));
    let mut nothing: [u16; 0] = [];
    copy_utf16(text, &mut nothing);
}

#[test]
fn tray_numbers_are_tried_in_turn() {
    assert_eq!(next_tray_probe(3, true), TrayProbe::Found(3));
    assert_eq!(next_tray_probe(3, false), TrayProbe::Try(4));
    assert_eq!(next_tray_probe(LAST_TRAY_ID, false), TrayProbe::NotReady);
}

#[test]
fn the_menu_entry_is_recognised_up_to_case() {
    let values = context_menu_values(r"C:\App\x.exe");
    let command = values.into_iter().find(|value| value.of_command).unwrap();
    assert_eq!(command.value, r#""C:\App\x.exe" "%1""#);
    let found = Some(command.value);
    assert!(is_context_menu_registered(&found, r"C:\App\x.exe"));
    assert!(is_context_menu_registered(&found, r"c:\APP\X.EXE"));
    assert!(!is_context_menu_registered(&found, r"D:\App\x.exe"));
    assert!(!is_context_menu_registered(&None, r"C:\App\x.exe"));
}

#[test]
fn the_clipboard_is_restored_only_where_all_of_it_is() {
    let snapshot = ClipboardSnapshot::of(vec![(1, Some(vec![1, 2])), (13, Some(vec![]))]);
    assert!(snapshot.complete);
    assert_eq!(snapshot.formats, [(1, vec![1, 2]), (13, vec![])]);
    assert!(snapshot.restored(true, &vec![true, true]));
    assert!(!snapshot.restored(true, &vec![true, false]));
    assert!(!snapshot.restored(false, &vec![]));
    let partial = ClipboardSnapshot::of(vec![(1, None), (2, Some(vec![7]))]);
    assert!(!partial.complete);
    assert_eq!(partial.formats, [(2, vec![7])]);
    assert!(!partial.restored(true, &vec![true]));
}

#[test]
fn the_copy_shortcut_lets_go_of_its_keys() {
    let strokes: Vec<(CopyKey, bool)> = copy_shortcut()
        .into_iter()
        .map(|stroke| (stroke.key, stroke.up))
        .collect();
    assert_eq!(
        strokes,
        [
            (CopyKey::Control, false),
            (CopyKey::C, false),
            (CopyKey::C, true),
            (CopyKey::Control, true),
        ]
    );
    assert_eq!(copy_shortcut_sent(4), Ok(()));
    assert_eq!(
        copy_shortcut_sent(3),
        Err("无法向当前程序发送复制快捷键".to_owned())
    );
}

#[test]
fn copied_text_counts_once_the_clipboard_has_changed() {
    let mut watch = CaptureWatch::new(5);
    assert!(matches!(watch.look(5, Some("old".to_owned())), CaptureStep::Wait));
    assert!(matches!(watch.look(6, None), CaptureStep::Wait));
    match watch.look(6, Some("new".to_owned())) {
        CaptureStep::Captured(text) => assert_eq!(text, "new"),
        step => panic!("{step:?}"),
    }
    let mut idle = CaptureWatch::new(5);
    for _ in 1..CAPTURE_ATTEMPTS {
        assert!(matches!(idle.look(5, None), CaptureStep::Wait));
    }
    assert!(matches!(idle.look(5, None), CaptureStep::GiveUp));
}

#[test]
fn the_text_is_copied_once_no_modifier_is_down() {
    let mut watch = ModifierWatch::new();
    assert_eq!(watch.look(true), ModifierStep::Wait);
    assert_eq!(watch.look(false), ModifierStep::Copy);
    let mut held = ModifierWatch::new();
    for _ in 1..MODIFIER_CHECKS {
        assert_eq!(held.look(true), ModifierStep::Wait);
    }
    assert_eq!(held.look(true), ModifierStep::WaitAndCopy);
}

#[test]
fn blank_selections_are_no_text() {
    let capture = finish_capture(Some(" x ".to_owned()), true).unwrap();
    assert_eq!(capture.text, " x ");
    assert!(capture.clipboard_restored);
    for selected in [None, Some("".to_owned()), Some(" \r\n".to_owned())] {
        assert_eq!(
            finish_capture(selected, true).unwrap_err(),
            "未获取到选中文本，请先选择一段可复制的文本"
        );
    }
}

#[test]
fn stored_tokens_come_back_once_unsealed() {
    let plain = match protect_token("test-secret-令牌") {
        ProtectStep::Seal(bytes) => bytes,
        step => panic!("{step:?}"),
    };
    assert_eq!(plain, "test-secret-令牌".as_bytes());
    let sealed: Vec<u8> = plain.iter().map(|byte| byte ^ 0x5a).collect();
    let stored = store_sealed(&sealed);
    assert_eq!(stored.len(), (sealed.len() + 2) / 3 * 4);
    assert_ne!(stored, "test-secret-令牌");
    let found = match unprotect_token(&stored).unwrap() {
        UnprotectStep::Unseal(bytes) => bytes,
        step => panic!("{step:?}"),
    };
    assert_eq!(found, sealed);
    let opened: Vec<u8> = found.iter().map(|byte| byte ^ 0x5a).collect();
    assert_eq!(read_unsealed(opened).unwrap(), "test-secret-令牌");
}

#[test]
fn tokens_are_stored_in_padded_base64() {
    assert_eq!(store_sealed(&b"light work.".to_vec()), "bGlnaHQgd29yay4=");
    assert_eq!(store_sealed(&vec![]), "");
    assert_eq!(store_sealed(&vec![0xfb, 0xff]), "+/8=");
    assert!(matches!(protect_token(""), ProtectStep::Store(stored) if stored.is_empty()));
    assert!(matches!(unprotect_token(""), Ok(UnprotectStep::Token(token)) if token.is_empty()));
    for stored in ["令牌", "a", "bGlnaHQgd29yay4", "+_8="] {
        assert!(matches!(unprotect_token(stored), Err(StoredTokenError::Format)));
    }
    assert_eq!(StoredTokenError::Format.message(), "加密令牌格式无效");
    assert_eq!(
        read_unsealed(vec![0xff, 0xfe]).unwrap_err().message(),
        "解密后的令牌不是有效文本"
    );
}

#[test]
fn pipes_are_named_after_the_user() {
    let mut hasher = std::collections::hash_map::DefaultHasher::new();
    "CORP\\张三".to_owned().hash(&mut hasher);
    assert_eq!(
        pipe_name("CORP", "张三"),
        format!(r"\\.\pipe\GiantFileExchange.Commands.{:016x}", hasher.finish())
    );
    assert_ne!(pipe_name("CORP", "a"), pipe_name("CORP", "b"));
}

#[test]
fn forwarded_paths_arrive() {
    let paths = vec![r"C:\a b\令牌.txt".to_owned(), "\"quoted\"\n".to_owned(), String::new()];
    let message = forward_paths(&paths).unwrap();
    assert_eq!(
        message,
        r#"["C:\\a b\\令牌.txt","\"quoted\"\n",""]"#.as_bytes()
    );
    let length = message.len();
    let mut buffer = message.clone();
    buffer.resize(length + 100, 0);
    assert_eq!(received_paths(buffer, length), Some(paths.clone()));
    assert_eq!(received_paths(message, length + 1), Some(paths));
    assert_eq!(received_paths(vec![0; 8], 8), None);
    assert_eq!(received_paths(b"[1]".to_vec(), 3), None);
    assert_eq!(forward_paths(&vec![]).unwrap(), b"[]");
}

#[test]
fn long_messages_are_not_sent() {
    let fitting = "x".repeat(MAX_MESSAGE_BYTES - 4);
    assert_eq!(forward_paths(&vec![fitting]).unwrap().len(), MAX_MESSAGE_BYTES);
    let long = "x".repeat(MAX_MESSAGE_BYTES - 3);
    assert_eq!(forward_paths(&vec![long]), Err(TooManyPaths));
    assert_eq!(TooManyPaths.message(), "文件参数过多，无法发送给已运行的应用");
    assert!(message_is_out(true, 7, 7));
    assert!(!message_is_out(true, 6, 7));
    assert!(!message_is_out(false, 7, 7));
}

#[test]
fn log_entries_stand_on_one_line() {
    let entry = application_log("2026-01-01T00:00:00+08:00", "ERROR", "a\r\nb");
    assert_eq!(entry.file_name, "application.log");
    assert_eq!(entry.line, "[2026-01-01T00:00:00+08:00] [ERROR] a  b\n");
    let crash = crash_log("now", "boom");
    assert_eq!(crash.file_name, "crash.log");
    assert_eq!(crash.line, "[now] [PANIC] boom\n");
}

#[test]
fn log_notes_say_what_happened() {
    let notes = [
        (upload_started("C:\\a.txt", 12), "UPLOAD", "开始上传：file=C:\\a.txt; size=12; exchangeType=2"),
        (upload_answered(200, true), "HTTP", "上传响应：status=200; success=true"),
        (upload_failed("a.txt", "broken"), "ERROR", "上传失败：file=a.txt; error=broken"),
        (worker_lost("a.txt"), "ERROR", "上传工作线程意外结束：file=a.txt"),
        (usage_started("http://h/key/info"), "USAGE", "开始查询用量：endpoint=http://h/key/info"),
        (usage_answered(401, false), "HTTP", "用量查询响应：status=401; success=false"),
        (notification_failed("no tray"), "NOTIFY", "系统通知发送失败：no tray"),
    ];
    for (note, category, message) in notes {
        assert_eq!((note.category, note.message.as_str()), (category, message));
    }
}
