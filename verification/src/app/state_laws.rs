//! What each event makes of the application's state, and what it leaves alone.
use std::path::PathBuf;
use vstd::prelude::*;

use crate::api::{OptionsView, UploadOptions};
use crate::app;
use crate::app::leaving;
use crate::app::leaving::WindowAction;
use crate::app::saving;
use crate::app::startup;
use crate::app::startup::{HotkeyOutcome, ReadHotkey};
use crate::app::texts;
use crate::app::texts::TextFile;
use crate::app::usage_query;
use crate::app::usage_query::{UsageQuery, UsageReply};
use crate::app::watch;
use crate::app::{
    AppView, BannerView, FileExchangeApp, FormView, Notice, NoticeView, Offer, OfferView, Page,
    SettingsForm,
};
use crate::config;
use crate::config::{SettingsError, SettingsView};
use crate::model::{TaskView, UploadStatus};
use crate::number;
use crate::queue;
use crate::queue::{Candidate, CandidateView, QueueView};
use crate::queue_laws;
use crate::text;
use crate::text_laws;
use crate::windows::clipboard;
use crate::windows::clipboard::TextCaptureResult;
use crate::windows::notification::SystemNotificationKind;

verus! {

/// A message changes the line above the page and nothing else: it is shown word
/// for word, as a failure or as none.
pub proof fn messages_change_one_line(app: AppView, message: Seq<char>)
    ensures
        app.with_error(message).banner == Some(BannerView { message, is_error: true }),
        app.with_info(message).banner == Some(BannerView { message, is_error: false }),
        app == (AppView { banner: app.banner, ..app.with_error(message) }),
        app == (AppView { banner: app.banner, ..app.with_info(message) }),
{
}

/// Uploads are made with the address and the receivers of the settings, and with
/// the token, each as it is; where the settings are not in order, or there is no
/// token, that is told.
pub proof fn uploads_are_made_with_the_settings(
    app: AppView,
    token: Seq<char>,
    error: Seq<char>,
    fault: SettingsError,
)
    ensures
        app.settings.own_verdict() is Ok && token.len() > 0 ==> {
            let options = app.options(Ok(token));
            &&& options is Ok
            &&& options->Ok_0.api_base_url == app.settings.api_base_url
            &&& options->Ok_0.token == token
            &&& options->Ok_0.receiver_users == app.settings.receiver_users
            &&& options->Ok_0.upload_file_name is None
        },
        app.settings.own_verdict() is Ok && token.len() == 0 ==> app.options(Ok(token)) == Err::<
            OptionsView,
            Seq<char>,
        >("请填写个人令牌"@),
        app.settings.own_verdict() is Ok ==> app.options(Err(error)) == Err::<
            OptionsView,
            Seq<char>,
        >(error),
        app.settings.own_verdict() == Err::<(), SettingsError>(fault) ==> app.options(Ok(token))
            == Err::<OptionsView, Seq<char>>(fault.wording()) && app.options(Err(error)) == Err::<
            OptionsView,
            Seq<char>,
        >(fault.wording()),
{
}

/// The files among offers are kept one by one, in their order.
pub proof fn offered_files_are_kept_one_by_one(
    first: Seq<OfferView>,
    second: Seq<OfferView>,
    one: OfferView,
)
    ensures
        app::files_in(first + second) == app::files_in(first) + app::files_in(second),
        one.is_file ==> app::files_in(seq![one]) == seq![one.candidate],
        !one.is_file ==> app::files_in(seq![one]).len() == 0,
    decreases second.len(),
{
    let single = seq![one];
    assert(single.drop_last() =~= seq![]);
    assert(single.last() == one);
    assert(app::files_in(single.drop_last()) =~= seq![]);
    assert(one.is_file ==> app::files_in(single) =~= seq![one.candidate]);
    if second.len() == 0 {
        assert(first + second =~= first);
        assert(app::files_in(first) + app::files_in(second) =~= app::files_in(first));
    } else {
        offered_files_are_kept_one_by_one(first, second.drop_last(), one);
        assert((first + second).drop_last() =~= first + second.drop_last());
        assert((first + second).last() == second.last());
        assert(app::files_in(first + second) =~= app::files_in(first) + app::files_in(second));
    }
}

/// Where files are taken in and the settings allow uploads, each regular file is in
/// the queue: with its path and its length, as no temporary file, and to be
/// uploaded with the address, the token and all the receivers of the settings. Of
/// the rest of the state only the line above the page changes.
pub proof fn accepted_files_are_queued_with_the_settings(
    app: AppView,
    files: Seq<CandidateView>,
    token: Seq<char>,
    now: u128,
    k: int,
)
    requires
        app.wf(),
        app.queue.next_id + files.len() <= u64::MAX,
        app.settings.own_verdict() is Ok,
        token.len() > 0,
        0 <= k < files.len(),
    ensures
        ({
            let after = app.accepted(files, Ok(token), now);
            let id = (app.queue.next_id + k) as u64;
            &&& files[k].metadata is Ok && files[k].metadata->Ok_0.is_file ==> {
                &&& after.queue.jobs.contains_key(id)
                &&& after.queue.jobs[id].options.api_base_url == app.settings.api_base_url
                &&& after.queue.jobs[id].options.token == token
                &&& after.queue.jobs[id].options.receiver_users == app.settings.receiver_users
                &&& after.queue.jobs[id].options.upload_file_name is None
                &&& exists|i: int|
                    app.queue.tasks.len() <= i < after.queue.tasks.len() && {
                        let task = #[trigger] after.queue.tasks[i];
                        &&& task.id == id
                        &&& task.path == files[k].path
                        &&& task.file_size == files[k].metadata->Ok_0.len
                        &&& !task.temporary
                    }
            }
            &&& app == (AppView { queue: app.queue, banner: app.banner, ..after })
            &&& queue::add_errors(files).len() == 0 ==> after.banner == Some(
                BannerView { message: app::added_text(files.len()), is_error: false },
            )
            &&& queue::add_errors(files).len() > 0 ==> after.banner == Some(
                BannerView {
                    message: text::join(queue::add_errors(files), "\n"@),
                    is_error: true,
                },
            )
            &&& app.accept_notice(files, Ok(token)) is Some <==> queue::add_errors(files).len() == 0
        }),
{
    let options = app.options(Ok(token))->Ok_0;
    let added = app.queue.add_all(files, false, options);
    let after = app.accepted(files, Ok(token), now);
    let id = (app.queue.next_id + k) as u64;
    queue_laws::added_files_come_last(app.queue, files, false, options);
    queue_laws::added_files_are_as_they_were_found(app.queue, files, false, options, k);
    queue_laws::uploads_start_with_what_is_kept(added, now);
    queue_laws::uploads_start_in_order(added, now);
    assert(after.queue == added.start_next(now));
    if files[k].metadata is Ok && files[k].metadata->Ok_0.is_file {
        let i = choose|i: int|
            app.queue.tasks.len() <= i < added.tasks.len() && (#[trigger] added.tasks[i]).id == id
                && added.tasks[i].path == files[k].path && added.tasks[i].file_size
                == files[k].metadata->Ok_0.len && added.tasks[i].temporary == false;
        assert(after.queue.tasks[i].id == id);
    }
}

/// Where the settings do not allow uploads, files that are taken in wait with
/// their paths, in their order, behind those that wait already; the settings are
/// shown, with a message, and nothing is started or notified. Without files nothing
/// changes.
pub proof fn files_wait_for_settings(
    app: AppView,
    files: Seq<CandidateView>,
    token: Result<Seq<char>, Seq<char>>,
    now: u128,
)
    requires
        app.options(token) is Err,
    ensures
        ({
            let after = app.accepted(files, token, now);
            let n = app.pending_files.len() as int;
            &&& after.pending_files.len() == n + files.len()
            &&& forall|i: int|
                0 <= i < n ==> #[trigger] after.pending_files[i] == app.pending_files[i]
            &&& forall|i: int|
                0 <= i < files.len() ==> after.pending_files[n + i] == (#[trigger] files[i]).path
            &&& files.len() > 0 ==> after.page == Page::Settings && (after.banner matches Some(line)
                && line.is_error)
            &&& files.len() == 0 ==> after == app
            &&& after.queue == app.queue
            &&& after.settings == app.settings
            &&& after.form == app.form
            &&& app.accept_start(files, token) is None
            &&& app.accept_notice(files, token) is None
        }),
{
    assert(files.len() == 0 ==> app.pending_files + app::paths_of(files) =~= app.pending_files);
}

/// The fields of the settings page show the settings, with one receiver on each
/// line, and no secret.
pub proof fn forms_show_settings_without_secrets(settings: SettingsView)
    ensures
        ({
            let form = FormView::showing(settings);
            &&& form.api_base_url == settings.api_base_url
            &&& form.hotkey == settings.hotkey
            &&& form.usage_api_base_url == settings.usage_api_base_url
            &&& form.receivers == text::join(settings.receiver_users, seq!['\n'])
            &&& form.token.len() == 0
            &&& form.usage_api_key.len() == 0
        }),
{
    reveal_strlit("\n");
    assert("\n"@ =~= seq!['\n']);
}

/// The draft of the settings takes each field of the form for itself: the addresses
/// without white space at their ends and slashes behind, the receivers from their
/// lines, the hotkey without white space at its ends; the secrets and the direction
/// are those that are stored, but for a key without an address.
pub proof fn drafts_take_each_field_for_itself(app: AppView)
    ensures
        ({
            let draft = app.drafted();
            &&& draft.api_base_url == text::trim_end_char(text::trim(app.form.api_base_url), '/')
            &&& draft.usage_api_base_url == text::trim_end_char(
                text::trim(app.form.usage_api_base_url),
                '/',
            )
            &&& draft.receiver_users == config::receivers_of(text::lines(app.form.receivers))
            &&& draft.hotkey == text::trim(app.form.hotkey)
            &&& draft.exchange_type == app.settings.exchange_type
            &&& draft.encrypted_token == app.settings.encrypted_token
            &&& draft.encrypted_usage_api_key == (if draft.usage_api_base_url.len() > 0 {
                app.settings.encrypted_usage_api_key
            } else {
                Seq::empty()
            })
        }),
{
}

/// A new token or key that was sealed is what is saved; where it could not be
/// sealed, that is told, the token's fault before the key's; the rest is as it was
/// drafted.
pub proof fn sealed_secrets_are_saved(
    app: AppView,
    token: Result<Seq<char>, Seq<char>>,
    key: Result<Seq<char>, Seq<char>>,
)
    requires
        !text::is_blank(app.form.token),
        !text::is_blank(app.form.usage_api_key),
        app.drafted().usage_api_base_url.len() > 0,
    ensures
        app.new_token() == Some(config::token_of(app.form.token)),
        app.new_key() == Some(config::token_of(app.form.usage_api_key)),
        match (token, key) {
            (Err(error), _) => app.to_be_saved(Some(token), Some(key)) == Err::<
                SettingsView,
                Seq<char>,
            >(error),
            (Ok(_), Err(error)) => app.to_be_saved(Some(token), Some(key)) == Err::<
                SettingsView,
                Seq<char>,
            >(error),
            (Ok(sealed_token), Ok(sealed_key)) => {
                let draft = SettingsView {
                    encrypted_token: sealed_token,
                    encrypted_usage_api_key: sealed_key,
                    ..app.drafted()
                };
                match (draft.own_verdict(), sealed_token.len() > 0) {
                    (Ok(_), true) => app.to_be_saved(Some(token), Some(key)) == Ok::<
                        SettingsView,
                        Seq<char>,
                    >(draft),
                    (Ok(_), false) => app.to_be_saved(Some(token), Some(key)) == Err::<
                        SettingsView,
                        Seq<char>,
                    >("请填写个人令牌"@),
                    (Err(fault), _) => app.to_be_saved(Some(token), Some(key)) == Err::<
                        SettingsView,
                        Seq<char>,
                    >(fault.wording()),
                }
            },
        },
{
    crate::app::laws::new_secrets_are_sealed(app);
}

/// Without new secrets the draft is what is saved, where it is in order and a token
/// is stored.
pub proof fn drafts_are_saved_as_they_are(
    app: AppView,
    token: Option<Result<Seq<char>, Seq<char>>>,
    key: Option<Result<Seq<char>, Seq<char>>>,
)
    requires
        text::is_blank(app.form.token),
        text::is_blank(app.form.usage_api_key),
    ensures
        app.new_token() is None,
        app.new_key() is None,
        app.drafted().configured() ==> app.to_be_saved(token, key) == Ok::<SettingsView, Seq<char>>(
            app.drafted(),
        ),
        app.to_be_saved(token, key) is Ok ==> app.drafted().configured(),
{
}

/// Results of usage queries are out of date just where another address, or a new
/// key, is given; saved settings are in use from then on, and of the rest of the
/// state only the secrets in the form and results that are out of date go.
pub proof fn saving_forgets_outdated_results(app: AppView, settings: SettingsView, changed: bool)
    ensures
        app.changes_usage() <==> app.drafted().usage_api_base_url != app.settings.usage_api_base_url
            || !text::is_blank(app.form.usage_api_key),
        ({
            let after = app.saved(settings, changed);
            let outdated = changed || settings.usage_api_base_url.len() == 0;
            &&& after.settings == settings
            &&& after.form.token.len() == 0 && after.form.usage_api_key.len() == 0
            &&& after.form.api_base_url == app.form.api_base_url
            &&& after.form.receivers == app.form.receivers
            &&& after.form.hotkey == app.form.hotkey
            &&& after.form.usage_api_base_url == app.form.usage_api_base_url
            &&& outdated ==> after.usage_info is None && after.usage_error is None
                && after.usage_last_fetched_at is None
            &&& !outdated ==> after.usage_info == app.usage_info && after.usage_error
                == app.usage_error && after.usage_last_fetched_at == app.usage_last_fetched_at
            &&& app == (AppView {
                settings: app.settings,
                form: app.form,
                usage_info: app.usage_info,
                usage_error: app.usage_error,
                usage_last_fetched_at: app.usage_last_fetched_at,
                ..after
            })
        }),
{
}

/// Selected text is fetched once at a time, and only where uploads are possible; of
/// the rest of the state nothing changes, unless the settings are shown with the
/// reason.
pub proof fn captures_begin_where_uploads_are_possible(
    app: AppView,
    token: Result<Seq<char>, Seq<char>>,
)
    ensures
        app.begins_capture(token) <==> !app.capturing && app.options(token) is Ok,
        app.capturing ==> app.capture_begun(token) == app,
        app.begins_capture(token) ==> app.capture_begun(token) == (AppView {
            capturing: true,
            ..app
        }),
        !app.capturing && app.options(token) is Err ==> app.capture_begun(token) == (AppView {
            page: Page::Settings,
            banner: Some(BannerView { message: app.options(token)->Err_0, is_error: true }),
            ..app
        }),
{
}

/// A text is uploaded as `message.txt`, with everything else as files are; it is
/// one temporary file behind the others, where it could be written, and none where
/// not.
pub proof fn texts_are_queued_as_one_temporary_file(
    queue: QueueView,
    options: OptionsView,
    candidate: Candidate,
    error: String,
)
    ensures
        texts::as_text(options).upload_file_name == Some("message.txt"@),
        options == (OptionsView {
            upload_file_name: options.upload_file_name,
            ..texts::as_text(options)
        }),
        texts::queue_with_text(queue, options, TextFile::Written(candidate)) == queue.add_all(
            seq![candidate@],
            true,
            options,
        ),
        texts::queue_with_text(queue, options, TextFile::NoDirectory(error)) == queue,
        texts::queue_with_text(queue, options, TextFile::NotWritten(error)) == queue,
{
    let all = seq![candidate@];
    assert(all.drop_last() =~= seq![]);
    assert(all.last() == candidate@);
    reveal_with_fuel(QueueView::add_all, 2);
}

/// Where a text is not queued, it is told why, with what the system says; where it
/// is, nothing is told.
pub proof fn texts_that_fail_are_told(candidate: Candidate, error: String)
    ensures
        texts::text_fault(TextFile::NoDirectory(error)) == Some(
            text_laws::run(seq!["无法创建文本临时目录："@, error@]),
        ),
        texts::text_fault(TextFile::NotWritten(error)) == Some(
            text_laws::run(seq!["无法创建文本临时文件："@, error@]),
        ),
        texts::text_fault(TextFile::Written(candidate)) is None <==> candidate.probe.metadata is Ok
            && candidate.probe.metadata->Ok_0.is_file,
        candidate.probe.metadata matches Err(reason) ==> texts::text_fault(
            TextFile::Written(candidate),
        ) == Some(text_laws::run(seq![candidate.shown@, "："@, reason@])),
        candidate.probe.metadata matches Ok(found) && !found.is_file ==> texts::text_fault(
            TextFile::Written(candidate),
        ) == Some(text_laws::run(seq![candidate.shown@, "："@, "所选路径不是普通文件"@])),
{
    text_laws::lemma_run_two("无法创建文本临时目录："@, error@);
    text_laws::lemma_run_two("无法创建文本临时文件："@, error@);
    if let Err(reason) = candidate.probe.metadata {
        text_laws::lemma_run_three(candidate.shown@, "："@, reason@);
    }
    text_laws::lemma_run_three(candidate.shown@, "："@, "所选路径不是普通文件"@);
}

/// Fetching begins where the registered hotkey goes down, and not by another, nor
/// where one comes up.
pub proof fn only_the_registered_hotkey_counts(
    app: AppView,
    id: u32,
    pressed: bool,
    token: Result<Seq<char>, Seq<char>>,
)
    ensures
        app.hotkey == Some(id) ==> app.hotkey_moved(id, true, token) == app.capture_begun(token),
        app.hotkey != Some(id) ==> app.hotkey_moved(id, pressed, token) == app,
        app.hotkey_moved(id, false, token) == app,
{
}

/// A typed text is sent word for word, unless it is blank.
pub proof fn typed_texts_are_sent_word_for_word(app: AppView)
    ensures
        !text::is_blank(app.manual_text) ==> app.typed_text() == Some(app.manual_text),
        text::is_blank(app.manual_text) ==> app.typed_text() is None,
{
}

/// Once the settings are saved no file waits for them any more; those that waited
/// are taken in, and the transfers are shown.
pub proof fn waiting_files_are_released(
    app: AppView,
    files: Seq<CandidateView>,
    token: Result<Seq<char>, Seq<char>>,
    now: u128,
)
    ensures
        app.released().pending_files.len() == 0,
        app.released().banner matches Some(line) && !line.is_error,
        app == (AppView {
            pending_files: app.pending_files,
            banner: app.banner,
            ..app.released()
        }),
        app.resumed(files, token, now).page == Page::Transfers,
        app.accepted(files, token, now) == (AppView {
            page: app.accepted(files, token, now).page,
            ..app.resumed(files, token, now)
        }),
{
}

/// Once fetching is over another may begin; a failure is shown, and nothing else
/// changes.
pub proof fn captures_end(app: AppView, fault: Option<Seq<char>>)
    ensures
        !app.capture_ended(fault).capturing,
        app.capture_ended(fault).banner == (match fault {
            Some(error) => Some(BannerView { message: error, is_error: true }),
            None => app.banner,
        }),
        app == (AppView {
            capturing: app.capturing,
            banner: app.banner,
            ..app.capture_ended(fault)
        }),
{
}

/// A typed text is gone from the page once it is in the queue, and stays there where
/// it is not; a text that was selected is told to be in the queue, and as a failure
/// where the clipboard is not again as it was. The reason of a failure is shown, and
/// nothing else changes.
pub proof fn texts_are_told_to_be_queued(app: AppView, error: Seq<char>, restored: bool)
    ensures
        app.typed_text_noted(None).manual_text.len() == 0,
        app.typed_text_noted(Some(error)) == app.with_error(error),
        app.selected_text_noted(Some(error), restored) == app.with_error(error),
        app.typed_text_noted(None).banner matches Some(line) && !line.is_error,
        app.selected_text_noted(None, restored).banner matches Some(line) && line.is_error
            == !restored,
        app == (AppView {
            manual_text: app.manual_text,
            banner: app.banner,
            ..app.typed_text_noted(None)
        }),
        app == (AppView { banner: app.banner, ..app.selected_text_noted(None, restored) }),
{
}

/// A text that was queued is notified as information, and as a warning where the
/// clipboard is not again as it was; one that was not is not notified.
pub proof fn queued_texts_are_notified(error: Seq<char>, restored: bool)
    ensures
        texts::text_notice_due(Some(error), restored) is None,
        texts::text_notice_due(None, restored) matches Some(notice) && (notice.kind
            == SystemNotificationKind::Info <==> restored) && (notice.kind
            == SystemNotificationKind::Warning <==> !restored),
{
}

/// A start without paths shows the settings where uploads are not possible; one with
/// paths takes in the files among them, and stays out of sight where uploads are
/// possible.
pub proof fn starts_take_in_the_files(
    app: AppView,
    given: nat,
    files: Seq<CandidateView>,
    token: Result<Seq<char>, Seq<char>>,
    now: u128,
)
    ensures
        given > 0 ==> app.started_with(given, files, token, now) == app.accepted(files, token, now),
        given == 0 && app.settings.configured() ==> app.started_with(given, files, token, now)
            == app,
        given == 0 && !app.settings.configured() ==> app.started_with(given, files, token, now) == (
        AppView { page: Page::Settings, ..app }),
        app.stays_hidden(given) <==> given > 0 && app.settings.configured(),
{
}

/// The window is closed only where the application is being left, and else hidden;
/// leaving at once is possible only where no task is active; and once the user has
/// left, everything is cancelled.
pub proof fn windows_are_hidden_until_the_end(app: AppView)
    ensures
        app.on_close() == WindowAction::Hide <==> !app.exiting,
        app.exiting ==> app.on_close() == WindowAction::Nothing,
        app.on_exit() == WindowAction::Close <==> queue::active_tasks(app.queue.tasks) == 0,
        app.on_exit() == WindowAction::Nothing <==> queue::active_tasks(app.queue.tasks) > 0,
        app.left().exiting && !app.left().confirm_exit,
        app.left().queue == app.queue.all_cancelled(),
        app == (AppView {
            queue: app.queue,
            exiting: app.exiting,
            confirm_exit: app.confirm_exit,
            ..app.left()
        }),
{
}

/// Files that are taken in are notified as information, with their number; and the
/// upload that is then started is the one being worked on, made with what is kept
/// for it.
pub proof fn accepted_files_are_notified_and_started(
    app: AppView,
    files: Seq<CandidateView>,
    token: Seq<char>,
    now: u128,
)
    requires
        app.wf(),
        app.queue.next_id + files.len() <= u64::MAX,
        app.settings.own_verdict() is Ok,
        token.len() > 0,
        files.len() > 0,
    ensures
        app.accept_notice(files, Ok(token)) matches Some(notice) ==> notice.title == "文件已加入队列"@
            && notice.message == app::added_text(files.len()) && notice.kind
            == SystemNotificationKind::Info,
        ({
            let after = app.accepted(files, Ok(token), now);
            &&& app.accept_start(files, Ok(token)) matches Some(start) ==> {
                &&& after.queue.current == Some(start.id)
                &&& app.queue.current is None
                &&& after.queue.jobs.contains_key(start.id)
                &&& start.options == after.queue.jobs[start.id].options
                &&& start.generation == after.queue.jobs[start.id].generation
            }
            &&& app.accept_start(files, Ok(token)) is None ==> after.queue.current
                == app.queue.current
            &&& after.queue.wf()
        }),
{
    let options = app.options(Ok(token))->Ok_0;
    let added = app.queue.add_all(files, false, options);
    queue_laws::added_files_come_last(app.queue, files, false, options);
    queue_laws::uploads_start_with_what_is_kept(added, now);
    queue_laws::uploads_start_in_order(added, now);
    queue_laws::starting_leaves_nothing_waiting(added, now);
}

/// The views of results hold what these hold.
pub proof fn views_hold_the_whole_result(
    text: Result<String, String>,
    options: Result<UploadOptions, String>,
    sealed: Option<Result<String, String>>,
    query: Result<UsageQuery, String>,
    notice: Option<Notice>,
    read: Result<ReadHotkey, String>,
    capture: Result<TextCaptureResult, String>,
)
    ensures
        app::text_result(text) == (match text {
            Ok(found) => Ok::<Seq<char>, Seq<char>>(found@),
            Err(error) => Err(error@),
        }),
        options matches Ok(found) ==> app::options_result(options) == Ok::<OptionsView, Seq<char>>(
            found@,
        ),
        options matches Err(error) ==> app::options_result(options) == Err::<
            OptionsView,
            Seq<char>,
        >(error@),
        saving::sealed_view(None) is None,
        sealed matches Some(Ok(found)) ==> saving::sealed_view(sealed) == Some(
            Ok::<Seq<char>, Seq<char>>(found@),
        ),
        sealed matches Some(Err(error)) ==> saving::sealed_view(sealed) == Some(
            Err::<Seq<char>, Seq<char>>(error@),
        ),
        query matches Ok(found) ==> (usage_query::query_result(query) matches Ok(view)
            && view.api_base_url == found.api_base_url@ && view.api_key == found.api_key@),
        query matches Err(error) ==> usage_query::query_result(query) == Err::<
            usage_query::QueryView,
            Seq<char>,
        >(error@),
        app::notice_option(notice) is Some <==> notice is Some,
        notice matches Some(found) ==> app::notice_option(notice) == Some(
            NoticeView { title: found.title@, message: found.message@, kind: found.kind },
        ),
        read matches Ok(found) ==> (startup::hotkey_view(read) matches Ok(view) && view.modifiers
            == found.modifiers && view.key == found.key@ && view.id == found.id),
        read matches Err(error) ==> startup::hotkey_view(read) == Err::<
            startup::HotkeyView,
            Seq<char>,
        >(error@),
        capture matches Ok(found) ==> clipboard::capture_view(capture) == Ok::<
            (Seq<char>, bool),
            Seq<char>,
        >((found.text@, found.clipboard_restored)) && texts::fault_of(capture) is None,
        capture matches Err(error) ==> clipboard::capture_view(capture) == Err::<
            (Seq<char>, bool),
            Seq<char>,
        >(error@) && texts::fault_of(capture) == Some(error@),
{
}

/// The file of a text is named by the time, and ends as text files do.
pub proof fn text_files_are_named_by_the_time(stamp: Seq<char>)
    ensures
        texts::text_file_of(stamp) == text_laws::run(seq!["selected-text-"@, stamp, ".txt"@]),
{
    text_laws::lemma_run_three("selected-text-"@, stamp, ".txt"@);
}

/// Notifications are due task by task, in their order: of one task there is one
/// just where it has succeeded or failed and did not stand there when it was last
/// looked at. A success is told with the name, as information; a failure with the
/// name and the error, where there is one, as an error.
pub proof fn tasks_are_reported_one_by_one(
    first: Seq<TaskView>,
    second: Seq<TaskView>,
    task: TaskView,
    seen: Map<u64, UploadStatus>,
)
    ensures
        watch::notices_due(first + second, seen) == watch::notices_due(first, seen)
            + watch::notices_due(second, seen),
        ({
            let due = watch::notices_due(seq![task], seen);
            let known = seen.contains_key(task.id) && seen[task.id] == task.status;
            &&& known ==> due.len() == 0
            &&& task.status != UploadStatus::Succeeded && task.status != UploadStatus::Failed
                ==> due.len() == 0
            &&& !known && task.status == UploadStatus::Succeeded ==> due == seq![
                NoticeView {
                    title: "上传成功"@,
                    message: text_laws::run(seq![task.file_name, " 已上传完成"@]),
                    kind: SystemNotificationKind::Info,
                },
            ]
            &&& !known && task.status == UploadStatus::Failed ==> due == seq![
                NoticeView {
                    title: "上传失败"@,
                    message: if task.error.len() > 0 {
                        text_laws::run(seq![task.file_name, "："@, task.error])
                    } else {
                        text_laws::run(seq![task.file_name, " 上传失败"@])
                    },
                    kind: SystemNotificationKind::Error,
                },
            ]
        }),
    decreases second.len(),
{
    text_laws::lemma_run_two(task.file_name, " 已上传完成"@);
    text_laws::lemma_run_two(task.file_name, " 上传失败"@);
    text_laws::lemma_run_three(task.file_name, "："@, task.error);
    let single = seq![task];
    assert(single.drop_last() =~= seq![]);
    assert(single.last() == task);
    assert(watch::notices_due(single.drop_last(), seen) =~= seq![]);
    if !watch::unmoved(task, seen) && watch::task_notice(task) is Some {
        assert(watch::notices_due(single, seen) =~= seq![watch::task_notice(task)->0]);
    }
    if second.len() == 0 {
        assert(first + second =~= first);
        assert(watch::notices_due(first, seen) + watch::notices_due(second, seen)
            =~= watch::notices_due(first, seen));
    } else {
        tasks_are_reported_one_by_one(first, second.drop_last(), task, seen);
        assert((first + second).drop_last() =~= first + second.drop_last());
        assert((first + second).last() == second.last());
        assert(watch::notices_due(first + second, seen) =~= watch::notices_due(first, seen)
            + watch::notices_due(second, seen));
    }
}

/// What is remembered of each task is where it stands.
pub proof fn states_are_remembered(queue: QueueView, i: int)
    requires
        queue.sound(),
        0 <= i < queue.tasks.len(),
    ensures
        watch::statuses_of(queue.tasks).contains_key(queue.tasks[i].id),
        watch::statuses_of(queue.tasks)[queue.tasks[i].id] == queue.tasks[i].status,
{
    lemma_remembered(queue.tasks, i);
}

proof fn lemma_remembered(tasks: Seq<TaskView>, i: int)
    requires
        0 <= i < tasks.len(),
        forall|a: int, b: int| 0 <= a < b < tasks.len() ==> (#[trigger] tasks[a]).id < (
        #[trigger] tasks[b]).id,
    ensures
        watch::statuses_of(tasks).contains_key(tasks[i].id),
        watch::statuses_of(tasks)[tasks[i].id] == tasks[i].status,
    decreases tasks.len(),
{
    let rest = tasks.drop_last();
    if i < rest.len() {
        assert forall|a: int, b: int| 0 <= a < b < rest.len() implies (#[trigger] rest[a]).id < (
        #[trigger] rest[b]).id by {
            assert(rest[a] == tasks[a] && rest[b] == tasks[b]);
        }
        lemma_remembered(rest, i);
        assert(rest[i] == tasks[i]);
        assert(tasks[i].id < tasks[tasks.len() - 1].id);
    }
}

/// The usage is asked for at the address of the settings, without white space at
/// its ends, and with the key as it is; where either is blank, or the key cannot be
/// had, that is told, the address first.
pub proof fn usage_is_asked_for_with_the_settings(
    settings: SettingsView,
    key: Seq<char>,
    error: Seq<char>,
)
    ensures
        text::is_blank(settings.usage_api_base_url) ==> usage_query::query_of(settings, Ok(key))
            == Err::<usage_query::QueryView, Seq<char>>("请先在设置中填写用量查询地址"@)
            && usage_query::query_of(settings, Err(error)) == Err::<
            usage_query::QueryView,
            Seq<char>,
        >("请先在设置中填写用量查询地址"@),
        !text::is_blank(settings.usage_api_base_url) ==> {
            &&& usage_query::query_of(settings, Err(error)) == Err::<
                usage_query::QueryView,
                Seq<char>,
            >(error)
            &&& text::is_blank(key) ==> usage_query::query_of(settings, Ok(key)) == Err::<
                usage_query::QueryView,
                Seq<char>,
            >("请先在设置中填写用量 API Key"@)
            &&& !text::is_blank(key) ==> (usage_query::query_of(settings, Ok(key)) matches Ok(query)
                && query.api_base_url == text::trim(settings.usage_api_base_url) && query.api_key
                == key)
        },
{
}

/// A query begins where the settings allow it and none is under way; an earlier
/// error is forgotten then, and an earlier result kept. Where they do not allow it,
/// they are shown with the reason.
pub proof fn queries_begin_where_they_can(app: AppView, key: Result<Seq<char>, Seq<char>>)
    ensures
        app.querying_usage ==> app.query_begun(key) == app,
        !app.querying_usage && usage_query::query_of(app.settings, key) is Ok ==> app.query_begun(
            key,
        ) == (AppView { querying_usage: true, usage_error: None, ..app }),
        !app.querying_usage && usage_query::query_of(app.settings, key) is Err ==> app.query_begun(
            key,
        ) == (AppView {
            page: Page::Settings,
            banner: Some(
                BannerView {
                    message: usage_query::query_of(app.settings, key)->Err_0,
                    is_error: true,
                },
            ),
            ..app
        }),
{
}

/// The answer to a query is what is shown: the report that came, at the time it
/// came; or the error, with the last report kept. Nothing else changes but the line
/// above the page.
pub proof fn answers_are_shown_as_they_came(app: AppView, reply: UsageReply, now: Seq<char>)
    requires
        app.querying_usage,
    ensures
        ({
            let after = app.query_polled(reply, now);
            &&& match reply {
                UsageReply::Pending => after == app,
                UsageReply::Finished(Ok(info)) => {
                    &&& after.usage_info == Some(info@)
                    &&& after.usage_error is None
                    &&& after.usage_last_fetched_at == Some(now)
                    &&& after.banner matches Some(line) && !line.is_error
                },
                UsageReply::Finished(Err(error)) => {
                    &&& after.usage_info == app.usage_info
                    &&& after.usage_error == Some(error@)
                    &&& after.usage_last_fetched_at == app.usage_last_fetched_at
                    &&& after.banner == Some(
                        BannerView {
                            message: text_laws::run(seq!["用量查询失败："@, error@]),
                            is_error: true,
                        },
                    )
                },
                UsageReply::Disconnected => {
                    &&& after.usage_info == app.usage_info
                    &&& after.usage_error is Some
                    &&& after.usage_last_fetched_at == app.usage_last_fetched_at
                    &&& after.banner matches Some(line) && line.is_error
                },
            }
            &&& app == (AppView {
                usage_info: app.usage_info,
                usage_error: app.usage_error,
                usage_last_fetched_at: app.usage_last_fetched_at,
                banner: app.banner,
                querying_usage: true,
                ..after
            })
        }),
{
    if let UsageReply::Finished(Err(error)) = reply {
        text_laws::lemma_run_two("用量查询失败："@, error@);
    }
}

/// Clearing forgets the report, the error and the time, and nothing else.
pub proof fn clearing_forgets_the_report(app: AppView)
    ensures
        ({
            let after = app.usage_cleared();
            &&& after.usage_info is None && after.usage_error is None
            &&& after.usage_last_fetched_at is None
            &&& app == (AppView {
                usage_info: app.usage_info,
                usage_error: app.usage_error,
                usage_last_fetched_at: app.usage_last_fetched_at,
                ..after
            })
        }),
{
}

/// Wanting to leave changes nothing but whether a question is asked or the
/// application is being left; the icon in the tray tells how many tasks are active,
/// where some are.
pub proof fn leaving_touches_nothing_else(app: AppView, active: nat)
    ensures
        app.active() == queue::active_tasks(app.queue.tasks),
        app.active() > 0 ==> app.exit_requested() == (AppView { confirm_exit: true, ..app }),
        app.active() == 0 ==> app.exit_requested() == (AppView { exiting: true, ..app }),
        active == 0 ==> leaving::tooltip_of(active) == "文件交换助手"@,
        active > 0 ==> leaving::tooltip_of(active) == text_laws::run(
            seq!["文件交换助手 - "@, number::decimal(active), " 个活动任务"@],
        ),
{
    text_laws::lemma_run_three("文件交换助手 - "@, number::decimal(active), " 个活动任务"@);
}

/// What is said of added files tells how many they are.
pub proof fn added_files_are_counted(count: nat)
    ensures
        app::added_text(count) == text_laws::run(
            seq!["已加入 "@, number::decimal(count), " 个文件，将按顺序上传"@],
        ),
{
    text_laws::lemma_run_three("已加入 "@, number::decimal(count), " 个文件，将按顺序上传"@);
}

/// A hotkey is the registered one just where it was registered; where not, the
/// reason is shown, and with a hotkey that is taken its text. Nothing else changes.
pub proof fn hotkeys_are_registered_or_told(app: AppView, outcome: HotkeyOutcome)
    ensures
        ({
            let after = app.with_hotkey(outcome);
            &&& match outcome {
                HotkeyOutcome::Registered(id) => after.hotkey == Some(id) && after.banner
                    == app.banner,
                HotkeyOutcome::NoManager(error) => after.hotkey is None && after.banner == Some(
                    BannerView {
                        message: text_laws::run(seq!["无法初始化全局快捷键："@, error@]),
                        is_error: true,
                    },
                ),
                HotkeyOutcome::Malformed(error) => after.hotkey is None && after.banner == Some(
                    BannerView {
                        message: text_laws::run(seq!["快捷键格式无效："@, error@]),
                        is_error: true,
                    },
                ),
                HotkeyOutcome::Taken(error) => after.hotkey is None && after.banner == Some(
                    BannerView {
                        message: text_laws::run(
                            seq![
                                text_laws::run(seq!["快捷键 "@, app.settings.hotkey, " 已被占用："@]),
                                error@,
                            ],
                        ),
                        is_error: true,
                    },
                ),
            }
            &&& app == (AppView { hotkey: app.hotkey, banner: app.banner, ..after })
        }),
{
    match outcome {
        HotkeyOutcome::NoManager(error) => {
            text_laws::lemma_run_two("无法初始化全局快捷键："@, error@);
        },
        HotkeyOutcome::Malformed(error) => {
            text_laws::lemma_run_two("快捷键格式无效："@, error@);
        },
        HotkeyOutcome::Taken(error) => {
            text_laws::lemma_run_three("快捷键 "@, app.settings.hotkey, " 已被占用："@);
            text_laws::lemma_run_two(text_laws::run(seq!["快捷键 "@, app.settings.hotkey, " 已被占用："@]), error@);
        },
        HotkeyOutcome::Registered(_) => {},
    }
}

/// A start has no tasks, shows the transfers, and has the settings in use and in
/// the form.
pub proof fn starts_are_empty(file: PathBuf, settings: SettingsView, registered: bool)
    ensures
        ({
            let app = AppView::started(file, settings, registered);
            &&& app.queue.tasks.len() == 0 && app.queue.current is None && app.queue.next_id == 1
            &&& app.queue.jobs.dom().is_empty()
            &&& app.settings == settings && app.settings_file == file
            &&& app.form == FormView::showing(settings)
            &&& app.shell_registered == registered
            &&& app.page == Page::Transfers && app.pending_files.len() == 0
            &&& app.hotkey is None && !app.capturing && app.banner is None
            &&& app.manual_text.len() == 0 && !app.querying_usage
            &&& app.usage_info is None && app.usage_error is None
            &&& app.usage_last_fetched_at is None && !app.confirm_exit && !app.exiting
        }),
{
    assert(Map::<u64, queue::JobView>::empty().dom() =~= Set::empty());
}

/// The view of the state holds all of it, and the views of its parts all of these.
pub proof fn views_hold_the_whole_state(
    app: FileExchangeApp,
    form: SettingsForm,
    notices: Seq<Notice>,
    offers: Seq<Offer>,
)
    ensures
        app@.queue == app.queue@,
        app@.settings_file == app.settings_store.file(),
        app@.settings == app.settings@,
        app@.form == app.form@,
        app@.page == app.page,
        app@.pending_files == app.pending_files@,
        app@.hotkey == app.hotkey,
        app@.capturing == app.capturing,
        app@.task_statuses == app.task_statuses@,
        app@.manual_text == app.manual_text@,
        app@.querying_usage == app.querying_usage,
        app@.shell_registered == app.shell_registered,
        app@.confirm_exit == app.confirm_exit,
        app@.exiting == app.exiting,
        app@.banner is Some <==> app.banner is Some,
        app.banner matches Some(line) ==> app@.banner == Some(
            BannerView { message: line.message@, is_error: line.is_error },
        ),
        app@.usage_info is Some <==> app.usage_info is Some,
        app.usage_info matches Some(info) ==> app@.usage_info == Some(info@),
        app@.usage_error is Some <==> app.usage_error is Some,
        app.usage_error matches Some(error) ==> app@.usage_error == Some(error@),
        app@.usage_last_fetched_at is Some <==> app.usage_last_fetched_at is Some,
        app.usage_last_fetched_at matches Some(time) ==> app@.usage_last_fetched_at == Some(time@),
        form@.api_base_url == form.api_base_url@,
        form@.token == form.token@,
        form@.receivers == form.receivers@,
        form@.hotkey == form.hotkey@,
        form@.usage_api_base_url == form.usage_api_base_url@,
        form@.usage_api_key == form.usage_api_key@,
        app::notice_views(notices).len() == notices.len(),
        forall|i: int|
            0 <= i < notices.len() ==> (#[trigger] app::notice_views(notices)[i]).title
                == notices[i].title@ && app::notice_views(notices)[i].message
                == notices[i].message@ && app::notice_views(notices)[i].kind == notices[i].kind,
        app::offer_views(offers).len() == offers.len(),
        forall|i: int|
            0 <= i < offers.len() ==> (#[trigger] app::offer_views(offers)[i]).is_file
                == offers[i].is_file && app::offer_views(offers)[i].candidate
                == offers[i].candidate@,
{
}

} // verus!
