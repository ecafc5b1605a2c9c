use std::path::PathBuf;

use giant_file_exchange::api::SpendInfo;
use giant_file_exchange::app::fonts::{family_with, system_fonts};
use giant_file_exchange::app::leaving::{paths_arrived, TrayChoice, WindowAction};
use giant_file_exchange::app::pages::{
    banner_colors, status_colors, task_row, usage_amount, Colors, Rgb, UsageState,
};
use giant_file_exchange::app::startup::{starts_hidden, HotkeyOutcome};
use giant_file_exchange::app::texts::{text_file_name, TextFile};
use giant_file_exchange::app::usage_query::UsageReply;
use giant_file_exchange::app::{make_options, FileExchangeApp, Offer, Page, SettingsForm};
use giant_file_exchange::config::{AppSettings, SettingsError, SettingsStore};
use giant_file_exchange::model::{FileMetadata, FileProbe, UploadStatus};
use giant_file_exchange::queue::{Candidate, QueueEvent};
use giant_file_exchange::windows::clipboard::TextCaptureResult;
use giant_file_exchange::windows::notification::SystemNotificationKind;
use global_hotkey::hotkey::{Code, HotKey, Modifiers};

const SUCCESS: Rgb = Rgb { r: 22, g: 130, b: 70 };

const DANGER: Rgb = Rgb { r: 185, g: 28, b: 28 };

const MUTED: Rgb = Rgb { r: 102, g: 116, b: 139 };

fn usable() -> AppSettings {
    AppSettings {
        encrypted_token: "encrypted".to_owned(),
        receiver_users: vec!["alice".to_owned(), "bob".to_owned()],
        ..Default::default()
    }
}

fn app_with(settings: AppSettings) -> FileExchangeApp {
    FileExchangeApp::new(
        SettingsStore::new(PathBuf::from("settings.json")),
        settings,
        true,
    )
}

fn token() -> Result<String, String> {
    Ok("secret".to_owned())
}

fn candidate(name: &str, len: u64) -> Candidate {
    Candidate {
        path: PathBuf::from(name),
        shown: name.to_owned(),
        probe: FileProbe {
            metadata: Ok(FileMetadata { is_file: true, len }),
            file_name: Some(name.to_owned()),
        },
    }
}

fn offer(name: &str) -> Offer {
    Offer {
        is_file: true,
        candidate: candidate(name, 4),
    }
}

fn directory(name: &str) -> Offer {
    Offer {
        is_file: false,
        candidate: candidate(name, 0),
    }
}

fn banner(app: &FileExchangeApp) -> (&str, bool) {
    let line = app.banner.as_ref().unwrap();
    (line.message.as_str(), line.is_error)
}

fn finish(app: &mut FileExchangeApp, id: u64, result: Result<Option<String>, String>) {
    let generation = app.queue.generation_of(id).unwrap();
    let event = QueueEvent::Finished { id, generation, result };
    app.queue.poll(vec![(event, 1)], false, 2);
}

fn report() -> SpendInfo {
    SpendInfo {
        spend: "12.5".to_owned(),
        max_budget: None,
        budget_duration: Some("monthly".to_owned()),
        budget_reset_at: Some("soon".to_owned()),
        last_active: None,
    }
}

#[test]
fn the_form_shows_the_settings_but_no_secret() {
    let settings = AppSettings {
        usage_api_base_url: "http://host/v1".to_owned(),
        encrypted_usage_api_key: "sealed".to_owned(),
        ..usable()
    };
    let form = SettingsForm::from(&settings);
    assert_eq!(form.receivers, "alice\nbob");
    assert_eq!(form.hotkey, "Ctrl+Alt+U");
    assert_eq!(form.usage_api_base_url, "http://host/v1");
    assert_eq!(form.token, "");
    assert_eq!(form.usage_api_key, "");
}

#[test]
fn uploads_need_settings_in_order_and_a_token() {
    let app = app_with(usable());
    let options = app.upload_options(token()).unwrap();
    assert_eq!(options.token, "secret");
    assert_eq!(options.receiver_users, ["alice", "bob"]);
    assert_eq!(options.upload_file_name, None);
    assert_eq!(app.upload_options(Ok(String::new())).err().unwrap(), "请填写个人令牌");
    assert_eq!(app.upload_options(Err("sealed".to_owned())).err().unwrap(), "sealed");
    let fresh = app_with(AppSettings::default());
    assert_eq!(
        fresh.upload_options(token()).err().unwrap(),
        "请至少填写一个接收人的域账号"
    );
    let refused = make_options(&usable(), Err(SettingsError::NotHttps), token());
    assert_eq!(refused.err().unwrap(), "API 地址必须是有效的 HTTPS 地址");
}

#[test]
fn files_join_the_queue_and_directories_do_not() {
    let mut app = app_with(usable());
    let outcome = app.accept_files(vec![offer("a"), directory("d"), offer("b")], token(), 0);
    assert_eq!(outcome.start.unwrap().id, 1);
    let notice = outcome.notice.unwrap();
    assert_eq!(notice.title, "文件已加入队列");
    assert_eq!(notice.message, "已加入 2 个文件，将按顺序上传");
    assert_eq!(notice.kind, SystemNotificationKind::Info);
    assert_eq!(banner(&app), ("已加入 2 个文件，将按顺序上传", false));
    assert_eq!(app.queue.tasks().len(), 2);

    let mut idle = app_with(usable());
    let nothing = idle.accept_files(vec![directory("d")], token(), 0);
    assert!(nothing.start.is_none() && nothing.notice.is_none());
    assert!(idle.banner.is_none());

    let mut racing = app_with(usable());
    let mut gone = offer("x");
    gone.candidate.probe.metadata = Err("gone".to_owned());
    let mut also = offer("y");
    also.candidate.probe.metadata = Err("gone too".to_owned());
    racing.accept_files(vec![gone, also], token(), 0);
    assert_eq!(banner(&racing), ("x：gone\ny：gone too", true));
}

#[test]
fn files_wait_for_settings() {
    let mut app = app_with(AppSettings::default());
    app.accept_files(vec![offer("a"), offer("b")], token(), 0);
    assert_eq!(app.page, Page::Settings);
    assert_eq!(
        banner(&app),
        ("请先配置个人令牌和默认接收人，文件将在保存后自动加入队列", true)
    );
    assert_eq!(app.pending_files, [PathBuf::from("a"), PathBuf::from("b")]);
    assert!(app.queue.tasks().is_empty());

    app.form.receivers = " alice \nALICE\n\nbob".to_owned();
    app.form.token = "Bearer new-token".to_owned();
    assert_eq!(app.token_to_seal().as_deref(), Some("new-token"));
    assert_eq!(app.key_to_seal(), None);
    let request = app.save_settings(Some(Ok("sealed".to_owned())), None).unwrap();
    assert_eq!(request.settings.receiver_users, ["alice", "bob"]);
    assert_eq!(request.settings.encrypted_token, "sealed");
    assert!(app.settings_written(request, Ok(())));
    assert_eq!(app.form.token, "");
    let files = app.settings_saved();
    assert_eq!(files, [PathBuf::from("a"), PathBuf::from("b")]);
    assert_eq!(banner(&app), ("设置已保存", false));
    assert!(app.pending_files.is_empty());
    let resumed = app.resume_pending(vec![offer("a"), offer("b")], token(), 0);
    assert_eq!(resumed.start.unwrap().id, 1);
    assert_eq!(app.page, Page::Transfers);
    assert_eq!(app.queue.tasks().len(), 2);
}

#[test]
fn blank_secrets_keep_what_is_stored() {
    let mut app = app_with(AppSettings {
        usage_api_base_url: "http://host".to_owned(),
        encrypted_usage_api_key: "old-key".to_owned(),
        exchange_type: 1,
        ..usable()
    });
    app.form.hotkey = " Ctrl+U ".to_owned();
    app.form.api_base_url = " https://example.com// ".to_owned();
    let request = app.save_settings(None, None).unwrap();
    assert_eq!(request.settings.encrypted_token, "encrypted");
    assert_eq!(request.settings.encrypted_usage_api_key, "old-key");
    assert_eq!(request.settings.hotkey, "Ctrl+U");
    assert_eq!(request.settings.api_base_url, "https://example.com");
    assert_eq!(request.settings.exchange_type, 1);
    assert!(!request.usage_config_changed);

    app.form.usage_api_base_url = " / ".to_owned();
    let dropped = app.save_settings(None, None).unwrap();
    assert_eq!(dropped.settings.usage_api_base_url, "");
    assert_eq!(dropped.settings.encrypted_usage_api_key, "");
    assert!(dropped.usage_config_changed);
}

#[test]
fn settings_with_a_fault_are_not_saved() {
    let mut app = app_with(usable());
    app.form.token = "new".to_owned();
    assert!(app.save_settings(Some(Err("no seal".to_owned())), None).is_none());
    assert_eq!(banner(&app), ("no seal", true));
    app.form.token.clear();
    app.form.usage_api_base_url = "http://host".to_owned();
    app.form.usage_api_key = "sk-1".to_owned();
    assert_eq!(app.key_to_seal().as_deref(), Some("sk-1"));
    assert!(app.save_settings(None, Some(Err("no key".to_owned()))).is_none());
    assert_eq!(banner(&app), ("no key", true));
    app.form.usage_api_key.clear();
    app.form.receivers.clear();
    assert!(app.save_settings(None, None).is_none());
    assert_eq!(banner(&app), ("请至少填写一个接收人的域账号", true));

    let mut fresh = app_with(AppSettings::default());
    fresh.form.receivers = "alice".to_owned();
    assert!(fresh.save_settings(None, None).is_none());
    assert_eq!(banner(&fresh), ("请填写个人令牌", true));

    let mut unwritten = app_with(usable());
    unwritten.form.receivers = "carol".to_owned();
    let request = unwritten.save_settings(None, None).unwrap();
    assert!(!unwritten.settings_written(request, Err("disk full".to_owned())));
    assert_eq!(banner(&unwritten), ("disk full", true));
    assert_eq!(unwritten.settings.receiver_users, ["alice", "bob"]);
}

#[test]
fn an_untouched_form_changes_nothing() {
    let mut app = app_with(usable());
    let before = app.settings.clone();
    let request = app.save_settings(None, None).unwrap();
    assert_eq!(request.settings.receiver_users, before.receiver_users);
    assert_eq!(request.settings.api_base_url, before.api_base_url);
    assert_eq!(request.settings.hotkey, before.hotkey);
}

#[test]
fn new_usage_settings_outdate_the_results() {
    let mut app = app_with(AppSettings {
        usage_api_base_url: "http://host".to_owned(),
        encrypted_usage_api_key: "key".to_owned(),
        ..usable()
    });
    app.begin_usage_query(Ok("sk".to_owned())).unwrap();
    app.poll_usage_query(UsageReply::Finished(Ok(report())), "now".to_owned());
    let same = app.save_settings(None, None).unwrap();
    app.settings_written(same, Ok(()));
    assert!(app.usage_info.is_some());
    app.form.usage_api_base_url = "http://other".to_owned();
    let other = app.save_settings(None, None).unwrap();
    app.settings_written(other, Ok(()));
    assert!(app.usage_info.is_none());
    assert!(app.usage_last_fetched_at.is_none());
}

#[test]
fn the_hotkey_is_read_and_registered() {
    let mut app = app_with(usable());
    let read = app.hotkey_to_register().unwrap();
    let number = read.id;
    let expected: HotKey = "ctrl+alt+KeyU".parse().unwrap();
    assert_eq!(
        (read.modifiers, read.key.as_str(), read.id),
        (expected.mods.bits(), "KeyU", expected.id())
    );
    app.hotkey_registered(HotkeyOutcome::Registered(number));
    assert_eq!(app.hotkey, Some(number));
    assert!(app.banner.is_none());
    app.hotkey_registered(HotkeyOutcome::Taken("busy".to_owned()));
    assert_eq!(app.hotkey, None);
    assert_eq!(banner(&app), ("快捷键 Ctrl+Alt+U 已被占用：busy", true));
    app.hotkey_registered(HotkeyOutcome::NoManager("none".to_owned()));
    assert_eq!(banner(&app), ("无法初始化全局快捷键：none", true));
    app.settings.hotkey = "Ctrl+Nothing".to_owned();
    let error = app.hotkey_to_register().unwrap_err();
    app.hotkey_registered(HotkeyOutcome::Malformed(error.clone()));
    assert_eq!(banner(&app), (format!("快捷键格式无效：{error}").as_str(), true));
}

#[test]
fn every_hotkey_in_the_settings_is_read() {
    let mut app = app_with(usable());
    for value in ["F9", "shift + Space", "Super+F24", "CmdOrCtrl+K", "ctrl+,", "Alt+ArrowUp", "5"] {
        app.settings.hotkey = value.to_owned();
        let read = app.hotkey_to_register().unwrap();
        let expected: HotKey = value.parse().unwrap();
        let key: Code = read.key.parse().unwrap();
        let rebuilt = HotKey::new(Some(Modifiers::from_bits_truncate(read.modifiers)), key);
        assert_eq!(rebuilt, expected);
        assert_eq!(read.id, expected.id());
    }
    for value in ["", "Ctrl", "Ctrl++U", "U+Ctrl", "Hyper+U", " F9"] {
        app.settings.hotkey = value.to_owned();
        let error = value.parse::<HotKey>().unwrap_err().to_string();
        assert_eq!(app.hotkey_to_register(), Err(error));
    }
}

#[test]
fn only_the_registered_hotkey_fetches_text() {
    let mut app = app_with(usable());
    assert!(!app.hotkey_event(7, true, token()));
    app.hotkey_registered(HotkeyOutcome::Registered(7));
    assert!(!app.hotkey_event(8, true, token()));
    assert!(!app.hotkey_event(7, false, token()));
    assert!(app.hotkey_event(7, true, token()));
    assert!(app.capturing);
    assert!(!app.begin_text_capture(token()));
    let captured = app.capture_finished(Ok(TextCaptureResult {
        text: "hello".to_owned(),
        clipboard_restored: true,
    }));
    assert_eq!(captured.unwrap().text, "hello");
    assert!(!app.capturing);
    assert!(app.begin_text_capture(token()));
    assert!(app.capture_finished(Err("nothing selected".to_owned())).is_none());
    assert_eq!(banner(&app), ("nothing selected", true));

    let mut fresh = app_with(AppSettings::default());
    assert!(!fresh.begin_text_capture(token()));
    assert_eq!(fresh.page, Page::Settings);
    assert_eq!(banner(&fresh), ("请至少填写一个接收人的域账号", true));
}

#[test]
fn texts_are_sent_as_a_file() {
    let mut app = app_with(usable());
    assert_eq!(text_file_name("20260721-100000-123"), "selected-text-20260721-100000-123.txt");
    let options = app.text_options(token()).unwrap();
    assert_eq!(options.upload_file_name.as_deref(), Some("message.txt"));
    let written = TextFile::Written(candidate("selected-text-1.txt", 5));
    let outcome = app.enqueue_text_upload(options, written, 0);
    assert_eq!(outcome.result, Ok(()));
    assert_eq!(outcome.start.unwrap().id, 1);
    assert_eq!(app.queue.tasks()[0].file_name, "message.txt");
    assert!(app.queue.tasks()[0].temporary);

    let mut fail = |file: TextFile| {
        let options = app.text_options(token()).unwrap();
        app.enqueue_text_upload(options, file, 0).result.unwrap_err()
    };
    assert_eq!(
        fail(TextFile::NoDirectory("denied".to_owned())),
        "无法创建文本临时目录：denied"
    );
    assert_eq!(
        fail(TextFile::NotWritten("full".to_owned())),
        "无法创建文本临时文件：full"
    );
    let mut lost = candidate("t.txt", 5);
    lost.probe.metadata = Err("gone".to_owned());
    assert_eq!(fail(TextFile::Written(lost)), "t.txt：gone");
}

#[test]
fn typed_text_leaves_the_page_once_it_is_queued() {
    let mut app = app_with(usable());
    app.manual_text = " \n".to_owned();
    assert!(app.manual_text_to_send().is_none());
    assert_eq!(banner(&app), ("请输入要发送的文本内容", true));
    app.manual_text = " hello ".to_owned();
    assert_eq!(app.manual_text_to_send().as_deref(), Some(" hello "));
    assert!(app.manual_text_queued(Err("broken".to_owned())).is_none());
    assert_eq!(app.manual_text, " hello ");
    let notice = app.manual_text_queued(Ok(())).unwrap();
    assert_eq!(notice.title, "文本已加入队列");
    assert_eq!(notice.message, "message.txt 将按顺序上传");
    assert_eq!(app.manual_text, "");
    assert_eq!(banner(&app), ("手动输入的文本已加入上传队列", false));
}

#[test]
fn a_clipboard_that_is_not_restored_is_told() {
    let mut app = app_with(usable());
    let good = app.captured_text_queued(Ok(()), true).unwrap();
    assert_eq!(good.kind, SystemNotificationKind::Info);
    assert_eq!(banner(&app), ("选中文本已加入上传队列", false));
    let warning = app.captured_text_queued(Ok(()), false).unwrap();
    assert_eq!(warning.kind, SystemNotificationKind::Warning);
    assert_eq!(warning.message, "message.txt 已加入，但未能完整恢复原剪贴板");
    assert_eq!(banner(&app), ("文本已加入队列，但未能完整恢复原剪贴板", true));
    assert!(app.captured_text_queued(Err("broken".to_owned()), true).is_none());
    assert_eq!(banner(&app), ("broken", true));
}

#[test]
fn usage_is_queried_once_at_a_time() {
    let mut app = app_with(AppSettings {
        usage_api_base_url: " http://host/v1 ".to_owned(),
        encrypted_usage_api_key: "key".to_owned(),
        ..usable()
    });
    let query = app.begin_usage_query(Ok("sk-1".to_owned())).unwrap();
    assert_eq!(query.api_base_url, "http://host/v1");
    assert_eq!(query.api_key, "sk-1");
    assert!(app.querying_usage);
    assert!(app.begin_usage_query(Ok("sk-1".to_owned())).is_none());
    app.poll_usage_query(UsageReply::Pending, "t0".to_owned());
    assert!(app.querying_usage);
    app.poll_usage_query(UsageReply::Finished(Ok(report())), "t1".to_owned());
    assert!(!app.querying_usage);
    assert_eq!(app.usage_last_fetched_at.as_deref(), Some("t1"));
    assert_eq!(banner(&app), ("用量信息已更新", false));
    app.poll_usage_query(UsageReply::Disconnected, "t2".to_owned());
    assert_eq!(app.usage_error, None);

    app.begin_usage_query(Ok("sk-1".to_owned())).unwrap();
    app.poll_usage_query(UsageReply::Finished(Err("HTTP 401: bad".to_owned())), "t3".to_owned());
    assert_eq!(app.usage_error.as_deref(), Some("HTTP 401: bad"));
    assert_eq!(banner(&app), ("用量查询失败：HTTP 401: bad", true));
    assert!(app.usage_info.is_some());
    app.begin_usage_query(Ok("sk-1".to_owned())).unwrap();
    assert_eq!(app.usage_error, None);
    app.poll_usage_query(UsageReply::Disconnected, "t4".to_owned());
    assert_eq!(app.usage_error.as_deref(), Some("后台查询线程已断开"));
    app.clear_usage();
    assert!(app.usage_info.is_none() && app.usage_error.is_none());
}

#[test]
fn usage_queries_without_settings_lead_to_the_settings() {
    let mut app = app_with(usable());
    assert!(app.begin_usage_query(Ok("sk".to_owned())).is_none());
    assert_eq!(app.page, Page::Settings);
    assert_eq!(banner(&app), ("请先在设置中填写用量查询地址", true));
    app.settings.usage_api_base_url = "http://host".to_owned();
    assert_eq!(
        app.usage_query_options(Ok(" ".to_owned())).unwrap_err(),
        "请先在设置中填写用量 API Key"
    );
    assert_eq!(app.usage_query_options(Err("sealed".to_owned())).unwrap_err(), "sealed");
}

#[test]
fn tasks_are_reported_once() {
    let mut app = app_with(usable());
    app.accept_files(vec![offer("a"), offer("b"), offer("c")], token(), 0);
    assert!(app.poll_task_notifications().is_empty());
    finish(&mut app, 1, Ok(None));
    finish(&mut app, 2, Err("broken".to_owned()));
    finish(&mut app, 3, Err(String::new()));
    let shown: Vec<(String, String, SystemNotificationKind)> = app
        .poll_task_notifications()
        .into_iter()
        .map(|notice| (notice.title, notice.message, notice.kind))
        .collect();
    assert_eq!(
        shown,
        [
            (
                "上传成功".to_owned(),
                "a 已上传完成".to_owned(),
                SystemNotificationKind::Info
            ),
            (
                "上传失败".to_owned(),
                "b：broken".to_owned(),
                SystemNotificationKind::Error
            ),
            (
                "上传失败".to_owned(),
                "c 上传失败".to_owned(),
                SystemNotificationKind::Error
            ),
        ]
    );
    assert!(app.poll_task_notifications().is_empty());
    app.queue.remove(1);
    assert!(app.poll_task_notifications().is_empty());
    assert_eq!(app.task_statuses.len(), 2);
}

#[test]
fn failed_retries_are_told() {
    let mut app = app_with(usable());
    app.accept_files(vec![offer("a")], token(), 0);
    finish(&mut app, 1, Err("broken".to_owned()));
    assert!(app.retry(1, None, 3).is_none());
    assert_eq!(banner(&app), ("文件不存在或已被移动", true));
    let start = app.retry(1, Some(FileMetadata { is_file: true, len: 4 }), 3).unwrap();
    assert_eq!((start.id, start.generation), (1, 1));
}

#[test]
fn leaving_asks_while_tasks_are_active() {
    let mut app = app_with(usable());
    assert_eq!(app.tooltip(), "文件交换助手");
    assert_eq!(app.close_requested(), WindowAction::Hide);
    assert_eq!(app.tray_chosen(TrayChoice::Open), WindowAction::Show);
    app.accept_files(vec![offer("a"), offer("b")], token(), 0);
    assert_eq!(app.tooltip(), "文件交换助手 - 2 个活动任务");
    assert_eq!(app.tray_chosen(TrayChoice::Quit), WindowAction::Nothing);
    assert!(app.confirm_exit && !app.exiting);
    app.stay();
    assert!(!app.confirm_exit);
    app.request_exit();
    let outcome = app.leave();
    assert!(outcome.abort);
    assert!(app.exiting && !app.confirm_exit);
    assert_eq!(app.queue.active_count(), 0);
    assert_eq!(app.close_requested(), WindowAction::Nothing);

    let mut idle = app_with(usable());
    assert_eq!(idle.request_exit(), WindowAction::Close);
    assert!(idle.exiting);
}

#[test]
fn the_window_stays_hidden_while_files_are_uploaded() {
    assert!(starts_hidden(true, &usable()));
    assert!(!starts_hidden(false, &usable()));
    assert!(!starts_hidden(true, &AppSettings::default()));
    let mut app = app_with(usable());
    let outcome = app.start_up(vec![offer("a")], token(), 0);
    assert!(outcome.hide);
    assert_eq!(outcome.accepted.start.unwrap().id, 1);
    let mut idle = app_with(usable());
    assert!(!idle.start_up(vec![], token(), 0).hide);
    assert_eq!(idle.page, Page::Transfers);
    let mut fresh = app_with(AppSettings::default());
    assert!(!fresh.start_up(vec![], token(), 0).hide);
    assert_eq!(fresh.page, Page::Settings);
}

#[test]
fn the_context_menu_is_reported_on() {
    let mut app = app_with(usable());
    app.menu_repaired(Err("denied".to_owned()), false);
    assert_eq!(banner(&app), ("右键菜单注册失败：denied", true));
    assert_eq!(app.shell_note().1, DANGER);
    app.menu_registered(Ok(()), true);
    assert_eq!(banner(&app), ("右键菜单已注册", false));
    assert_eq!(app.shell_note(), ("右键菜单已注册，可将文件快速送入上传队列", SUCCESS));
    app.menu_registered(Err("denied".to_owned()), true);
    assert_eq!(banner(&app), ("denied", true));
    app.menu_removed(Ok(()), false);
    assert_eq!(banner(&app), ("右键菜单已移除", false));
    assert!(!app.shell_registered);
    app.menu_removed(Err("denied".to_owned()), true);
    assert_eq!(banner(&app), ("denied", true));
    app.tray_failed("no tray");
    assert_eq!(banner(&app), ("无法创建系统托盘：no tray", true));
}

#[test]
fn rows_say_where_a_task_stands() {
    let mut app = app_with(usable());
    app.accept_files(vec![offer("a"), offer("b")], token(), 0);
    let row = task_row(&app.queue.tasks()[0], "C:\\a", 2048);
    assert_eq!(row.source, "来源：C:\\a");
    assert_eq!(row.progress, "0 B / 4 B");
    assert_eq!(row.speed.as_deref(), Some("2.0 KB/s"));
    assert_eq!(row.file_id, None);
    assert!(row.animated && row.can_cancel && !row.can_remove && !row.can_retry);
    finish(&mut app, 1, Ok(Some("id-1".to_owned())));
    let row = task_row(&app.queue.tasks()[0], "C:\\a", 0);
    assert_eq!(row.speed, None);
    assert_eq!(row.file_id.as_deref(), Some("文件 ID：id-1"));
    assert!(!row.can_cancel && row.can_remove && !row.can_retry);
    assert_eq!(row.colors, status_colors(UploadStatus::Succeeded));
    finish(&mut app, 2, Err("broken".to_owned()));
    assert!(task_row(&app.queue.tasks()[1], "b", 0).can_retry);
    let counts = app.transfer_counts();
    assert_eq!(
        (counts.total, counts.active, counts.succeeded, counts.failed),
        (2, 0, 1, 1)
    );
    assert_eq!(counts.active_note().as_deref(), Some("0 个活动任务"));
    assert_eq!(app_with(usable()).transfer_counts().active_note(), None);
    let options = app.text_options(token()).unwrap();
    app.enqueue_text_upload(options, TextFile::Written(candidate("t", 1)), 0);
    assert_eq!(task_row(&app.queue.tasks()[2], "t", 0).source, "来源：手动文本 / 临时内容");
}

#[test]
fn colours_follow_the_state() {
    assert_eq!(
        status_colors(UploadStatus::Processing),
        Colors {
            foreground: Rgb { r: 126, g: 34, b: 206 },
            background: Rgb { r: 250, g: 245, b: 255 },
        }
    );
    assert_eq!(
        status_colors(UploadStatus::Waiting),
        status_colors(UploadStatus::Uploading)
    );
    assert_eq!(status_colors(UploadStatus::Failed).foreground, DANGER);
    assert_eq!(status_colors(UploadStatus::Cancelled).foreground, MUTED);
    assert_eq!(banner_colors(true).foreground, DANGER);
    assert_eq!(banner_colors(false).foreground, SUCCESS);
}

#[test]
fn typed_text_is_measured() {
    let mut app = app_with(usable());
    let facts = app.manual_text_facts();
    assert_eq!(facts.summary, "0 行 / 0 字");
    assert_eq!(facts.size, "0 B");
    assert_eq!(facts.state, "待输入");
    assert!(!facts.can_send);
    app.manual_text = "你好\r\nworld\n".to_owned();
    let facts = app.manual_text_facts();
    assert_eq!(facts.summary, "2 行 / 10 字");
    assert_eq!(facts.characters, "10");
    assert_eq!(facts.size, "14 B");
    assert_eq!(facts.state, "可发送");
    assert!(facts.can_send);
}

#[test]
fn the_usage_page_says_where_the_query_stands() {
    let mut app = app_with(usable());
    assert_eq!(app.usage_state(), UsageState::Unconfigured);
    assert!(app.usage_toolbar().offers_settings);
    assert_eq!(app.usage_settings_note(), ("当前尚未完成用量查询配置", MUTED));
    app.settings.usage_api_base_url = "http://host".to_owned();
    app.settings.encrypted_usage_api_key = "key".to_owned();
    assert_eq!(app.usage_state(), UsageState::Idle);
    assert_eq!(app.usage_settings_note(), ("已存在可用的用量查询配置", SUCCESS));
    assert_eq!(app.last_refresh(), "尚无记录");
    assert_eq!(app.last_active(), "尚未执行查询");
    assert_eq!(app.budget_cycle(), "未返回");
    assert!(app.usage_toolbar().can_query && !app.usage_toolbar().can_clear);
    assert_eq!(app.usage_toolbar().query_caption(), "立即查询");
    app.begin_usage_query(Ok("sk".to_owned())).unwrap();
    assert_eq!(app.usage_state(), UsageState::Querying);
    assert!(!app.usage_toolbar().can_query);
    assert_eq!(app.usage_toolbar().query_caption(), "查询中");
    app.poll_usage_query(UsageReply::Finished(Ok(report())), "t1".to_owned());
    assert_eq!(app.usage_state(), UsageState::Updated);
    assert_eq!(app.usage_detail(), ("接口状态", "最近一次查询已成功完成".to_owned()));
    assert_eq!(app.last_refresh(), "t1");
    assert_eq!(app.last_active(), "未返回");
    assert_eq!(app.budget_reset(), "soon");
    assert_eq!(app.budget_cycle(), "monthly");
    app.begin_usage_query(Ok("sk".to_owned())).unwrap();
    app.poll_usage_query(UsageReply::Finished(Err("bad".to_owned())), "t2".to_owned());
    assert_eq!(app.usage_state(), UsageState::Failed);
    assert_eq!(app.usage_detail(), ("错误信息", "bad".to_owned()));
    assert!(app.usage_toolbar().can_clear);
    assert_eq!(UsageState::Idle.text(), "待查询");
    assert_eq!(UsageState::Failed.caption(), "接口返回异常，请检查地址或凭证");
    assert_eq!(UsageState::Unconfigured.colors().foreground, Rgb { r: 146, g: 64, b: 14 });
}

#[test]
fn amounts_are_shown_in_dollars() {
    assert_eq!(usage_amount(false, None), "--");
    assert_eq!(usage_amount(true, None), "未返回");
    assert_eq!(usage_amount(true, Some("12.50".to_owned())), "$12.50");
}

#[test]
fn system_fonts_stand_in_front() {
    let fonts = system_fonts();
    assert_eq!((fonts[0].name, fonts[0].file), ("windows-yahei", "msyh.ttc"));
    assert_eq!(fonts.len(), 4);
    let loaded = vec!["a".to_owned(), "b".to_owned()];
    assert_eq!(family_with(&loaded, vec!["x".to_owned()]), ["a", "b", "x"]);
}

#[test]
fn an_instance_without_files_asks_for_the_window() {
    assert_eq!(paths_arrived(0), WindowAction::Show);
    assert_eq!(paths_arrived(2), WindowAction::Nothing);
}

#[test]
fn saved_settings_can_be_used() {
    let mut app = app_with(usable());
    app.form.token = "next".to_owned();
    app.form.usage_api_key = "unused".to_owned();
    let request = app.save_settings(Some(Ok("sealed".to_owned())), None).unwrap();
    app.settings_written(request, Ok(()));
    assert!(app.settings.is_configured());
    assert_eq!(app.settings.encrypted_token, "sealed");
    assert_eq!((app.form.token.as_str(), app.form.usage_api_key.as_str()), ("", ""));
}
