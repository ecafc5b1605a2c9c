//! The application's state, and what each event makes of it. Whatever touches the
//! outside world is done by the caller, who hands in what came of it.
use std::collections::HashMap;
use std::path::PathBuf;
use vstd::prelude::*;

use crate::api::{copy_texts, OptionsView, SpendInfo, SpendView, UploadOptions};
use crate::config::{AppSettings, SettingsError, SettingsStore, SettingsView};
use crate::model::UploadStatus;
use crate::number;
use crate::number::decimal_text;
use crate::queue;
use crate::queue::{Candidate, CandidateView, QueueView, StartUpload, StartView, UploadQueue};
use crate::text;
use crate::text::join_texts;
use crate::windows::notification::SystemNotificationKind;

pub mod fonts;
pub mod laws;
pub mod leaving;
pub mod page_laws;
pub mod pages;
pub mod saving;
pub mod startup;
pub mod state_laws;
pub mod texts;
pub mod usage_query;
pub mod watch;

verus! {

/// The name that a text is sent under.
pub const TEXT_FILE_NAME: &'static str = "message.txt";

/// What the window shows.
#[derive(Debug, Clone, Copy, PartialEq, Eq, Structural)]
pub enum Page {
    Transfers,
    Usage,
    Settings,
}

/// The line above the page.
#[derive(Debug)]
pub struct Banner {
    pub message: String,
    pub is_error: bool,
}

/// The line above the page, with its text as a sequence of characters.
pub struct BannerView {
    pub message: Seq<char>,
    pub is_error: bool,
}

/// The view of the line above the page.
pub open spec fn banner_view(banner: Option<Banner>) -> Option<BannerView> {
    match banner {
        Some(line) => Some(BannerView { message: line.message@, is_error: line.is_error }),
        None => None,
    }
}

/// A notification for the system tray.
#[derive(Debug)]
pub struct Notice {
    pub title: String,
    pub message: String,
    pub kind: SystemNotificationKind,
}

/// A notification, with its texts as sequences of characters.
pub struct NoticeView {
    pub title: Seq<char>,
    pub message: Seq<char>,
    pub kind: SystemNotificationKind,
}

impl View for Notice {
    type V = NoticeView;

    open spec fn view(&self) -> NoticeView {
        NoticeView { title: self.title@, message: self.message@, kind: self.kind }
    }
}

/// The view of a notification that may be there.
pub open spec fn notice_option(notice: Option<Notice>) -> Option<NoticeView> {
    match notice {
        Some(found) => Some(found@),
        None => None,
    }
}

/// The views of a list of notifications.
pub open spec fn notice_views(notices: Seq<Notice>) -> Seq<NoticeView> {
    Seq::new(notices.len(), |i: int| notices[i]@)
}

/// What stands in the fields of the settings page.
#[derive(Debug)]
pub struct SettingsForm {
    pub api_base_url: String,
    pub token: String,
    pub receivers: String,
    pub hotkey: String,
    pub usage_api_base_url: String,
    pub usage_api_key: String,
}

/// The fields, with their texts as sequences of characters.
pub struct FormView {
    pub api_base_url: Seq<char>,
    pub token: Seq<char>,
    pub receivers: Seq<char>,
    pub hotkey: Seq<char>,
    pub usage_api_base_url: Seq<char>,
    pub usage_api_key: Seq<char>,
}

impl View for SettingsForm {
    type V = FormView;

    open spec fn view(&self) -> FormView {
        FormView {
            api_base_url: self.api_base_url@,
            token: self.token@,
            receivers: self.receivers@,
            hotkey: self.hotkey@,
            usage_api_base_url: self.usage_api_base_url@,
            usage_api_key: self.usage_api_key@,
        }
    }
}

impl FormView {
    /// The fields that go with settings: the secrets stay out of sight.
    pub open spec fn showing(settings: SettingsView) -> FormView {
        FormView {
            api_base_url: settings.api_base_url,
            token: Seq::empty(),
            receivers: text::join(settings.receiver_users, "\n"@),
            hotkey: settings.hotkey,
            usage_api_base_url: settings.usage_api_base_url,
            usage_api_key: Seq::empty(),
        }
    }
}

impl SettingsForm {
    /// The fields that go with settings.
    pub fn from(settings: &AppSettings) -> (form: SettingsForm)
        ensures
            form@ == FormView::showing(settings@),
    {
        SettingsForm {
            api_base_url: settings.api_base_url.clone(),
            token: String::new(),
            receivers: join_texts(settings.receiver_users.as_slice(), "\n"),
            hotkey: settings.hotkey.clone(),
            usage_api_base_url: settings.usage_api_base_url.clone(),
            usage_api_key: String::new(),
        }
    }
}

/// The view of a text, or of what is said where there is none.
pub open spec fn text_result(result: Result<String, String>) -> Result<Seq<char>, Seq<char>> {
    match result {
        Ok(found) => Ok(found@),
        Err(error) => Err(error@),
    }
}

/// The view of upload options, or of what is said where there are none.
pub open spec fn options_result(result: Result<UploadOptions, String>) -> Result<
    OptionsView,
    Seq<char>,
> {
    match result {
        Ok(options) => Ok(options@),
        Err(error) => Err(error@),
    }
}

/// What uploads are made with, given whether the settings are in order and what
/// the stored token is.
pub open spec fn options_given(
    settings: SettingsView,
    verdict: Result<(), SettingsError>,
    token: Result<Seq<char>, Seq<char>>,
) -> Result<OptionsView, Seq<char>> {
    match verdict {
        Err(error) => Err(error.wording()),
        Ok(_) => match token {
            Err(error) => Err(error),
            Ok(found) => if found.len() == 0 {
                Err("请填写个人令牌"@)
            } else {
                Ok(
                    OptionsView {
                        api_base_url: settings.api_base_url,
                        token: found,
                        receiver_users: settings.receiver_users,
                        upload_file_name: None,
                    },
                )
            },
        },
    }
}

/// What uploads are made with, given whether the settings are in order and what
/// the stored token is.
pub fn make_options(
    settings: &AppSettings,
    verdict: Result<(), SettingsError>,
    token: Result<String, String>,
) -> (options: Result<UploadOptions, String>)
    ensures
        options_result(options) == options_given(settings@, verdict, text_result(token)),
{
    match verdict {
        Err(error) => return Err(error.message()),
        Ok(()) => {},
    }
    match token {
        Err(error) => Err(error),
        Ok(found) => {
            if found.as_str().is_empty() {
                return Err("请填写个人令牌".to_owned());
            }
            Ok(
                UploadOptions {
                    api_base_url: settings.api_base_url.clone(),
                    token: found,
                    receiver_users: copy_texts(&settings.receiver_users),
                    upload_file_name: None,
                },
            )
        },
    }
}

/// A path that is offered for upload: whether it is a file, and what it would
/// become.
#[derive(Debug)]
pub struct Offer {
    pub is_file: bool,
    pub candidate: Candidate,
}

/// An offer, with its texts as sequences of characters.
pub struct OfferView {
    pub is_file: bool,
    pub candidate: CandidateView,
}

/// The views of a list of offers.
pub open spec fn offer_views(offers: Seq<Offer>) -> Seq<OfferView> {
    Seq::new(
        offers.len(),
        |i: int| OfferView { is_file: offers[i].is_file, candidate: offers[i].candidate@ },
    )
}

/// The files among the offers, in order.
pub open spec fn files_in(offers: Seq<OfferView>) -> Seq<CandidateView>
    decreases offers.len(),
{
    if offers.len() == 0 {
        seq![]
    } else if offers.last().is_file {
        files_in(offers.drop_last()).push(offers.last().candidate)
    } else {
        files_in(offers.drop_last())
    }
}

/// The paths of candidates, in order.
pub open spec fn paths_of(candidates: Seq<CandidateView>) -> Seq<PathBuf> {
    Seq::new(candidates.len(), |i: int| candidates[i].path)
}

/// The files among the offers, in order.
fn keep_files(offers: Vec<Offer>) -> (files: Vec<Candidate>)
    ensures
        queue::candidate_views(files@) == files_in(offer_views(offers@)),
        files@.len() <= offers@.len(),
{
    let ghost all = offer_views(offers@);
    let mut files: Vec<Candidate> = Vec::new();
    assert(queue::candidate_views(files@) =~= files_in(all.take(0)));
    for offer in it: offers
        invariant
            offer_views(it.seq()) == all,
            queue::candidate_views(files@) == files_in(all.take(it.index())),
            files@.len() <= it.index(),
    {
        let ghost before = files@;
        proof {
            let k = it.index();
            assert(it.seq()[k] == offer);
            assert(all[k] == offer_views(it.seq())[k]);
            assert(all.take(k + 1).drop_last() =~= all.take(k));
            assert(all.take(k + 1).last() == all[k]);
        }
        if offer.is_file {
            files.push(offer.candidate);
            assert(queue::candidate_views(files@) =~= queue::candidate_views(before).push(
                offer.candidate@,
            ));
        }
    }
    assert(all.take(all.len() as int) =~= all);
    files
}

/// What is said of files that were added.
pub open spec fn added_text(count: nat) -> Seq<char> {
    "已加入 "@ + number::decimal(count) + " 个文件，将按顺序上传"@
}

fn added_message(count: usize) -> (message: String)
    ensures
        message@ == added_text(count as nat),
{
    "已加入 ".to_owned().concat(decimal_text(count as u64).as_str()).concat(
        " 个文件，将按顺序上传",
    )
}

/// What is to be done once files were offered.
pub struct AcceptOutcome {
    pub notice: Option<Notice>,
    pub start: Option<StartUpload>,
}

/// The state of the application.
pub struct FileExchangeApp {
    pub queue: UploadQueue,
    pub settings_store: SettingsStore,
    pub settings: AppSettings,
    pub form: SettingsForm,
    pub page: Page,
    /// Files that wait for settings to be uploaded with.
    pub pending_files: Vec<PathBuf>,
    /// The number of the hotkey that is registered.
    pub hotkey: Option<u32>,
    /// Whether selected text is being fetched.
    pub capturing: bool,
    /// Where each task stood when it was last looked at.
    pub task_statuses: HashMap<u64, UploadStatus>,
    pub banner: Option<Banner>,
    pub manual_text: String,
    pub querying_usage: bool,
    pub usage_info: Option<SpendInfo>,
    pub usage_error: Option<String>,
    /// When the usage was last fetched, as it is shown.
    pub usage_last_fetched_at: Option<String>,
    pub shell_registered: bool,
    pub confirm_exit: bool,
    pub exiting: bool,
}

/// The state, with its texts as sequences of characters.
#[verifier::ext_equal]
pub struct AppView {
    pub queue: QueueView,
    pub settings_file: PathBuf,
    pub settings: SettingsView,
    pub form: FormView,
    pub page: Page,
    pub pending_files: Seq<PathBuf>,
    pub hotkey: Option<u32>,
    pub capturing: bool,
    pub task_statuses: Map<u64, UploadStatus>,
    pub banner: Option<BannerView>,
    pub manual_text: Seq<char>,
    pub querying_usage: bool,
    pub usage_info: Option<SpendView>,
    pub usage_error: Option<Seq<char>>,
    pub usage_last_fetched_at: Option<Seq<char>>,
    pub shell_registered: bool,
    pub confirm_exit: bool,
    pub exiting: bool,
}

/// The view of what was spent, where that is known.
pub open spec fn spend_option(info: Option<SpendInfo>) -> Option<SpendView> {
    match info {
        Some(found) => Some(found@),
        None => None,
    }
}

impl View for FileExchangeApp {
    type V = AppView;

    open spec fn view(&self) -> AppView {
        AppView {
            queue: self.queue@,
            settings_file: self.settings_store.file(),
            settings: self.settings@,
            form: self.form@,
            page: self.page,
            pending_files: self.pending_files@,
            hotkey: self.hotkey,
            capturing: self.capturing,
            task_statuses: self.task_statuses@,
            banner: banner_view(self.banner),
            manual_text: self.manual_text@,
            querying_usage: self.querying_usage,
            usage_info: spend_option(self.usage_info),
            usage_error: text::text_option(self.usage_error),
            usage_last_fetched_at: text::text_option(self.usage_last_fetched_at),
            shell_registered: self.shell_registered,
            confirm_exit: self.confirm_exit,
            exiting: self.exiting,
        }
    }
}

impl AppView {
    /// What holds at all times.
    pub open spec fn wf(self) -> bool {
        self.queue.wf()
    }

    /// The state of a start with these settings.
    pub open spec fn started(file: PathBuf, settings: SettingsView, shell_registered: bool) -> AppView {
        AppView {
            queue: QueueView::empty(),
            settings_file: file,
            settings,
            form: FormView::showing(settings),
            page: Page::Transfers,
            pending_files: Seq::empty(),
            hotkey: None,
            capturing: false,
            task_statuses: Map::empty(),
            banner: None,
            manual_text: Seq::empty(),
            querying_usage: false,
            usage_info: None,
            usage_error: None,
            usage_last_fetched_at: None,
            shell_registered,
            confirm_exit: false,
            exiting: false,
        }
    }

    /// The state with a message of failure above the page.
    pub open spec fn with_error(self, message: Seq<char>) -> AppView {
        AppView { banner: Some(BannerView { message, is_error: true }), ..self }
    }

    /// The state with a message of success above the page.
    pub open spec fn with_info(self, message: Seq<char>) -> AppView {
        AppView { banner: Some(BannerView { message, is_error: false }), ..self }
    }

    /// What uploads are made with, given what the stored token is.
    pub open spec fn options(self, token: Result<Seq<char>, Seq<char>>) -> Result<
        OptionsView,
        Seq<char>,
    > {
        options_given(self.settings, self.settings.own_verdict(), token)
    }

    /// The queue once `files` were added to it, the upload that may follow not yet
    /// started.
    pub open spec fn queue_with(
        self,
        files: Seq<CandidateView>,
        token: Result<Seq<char>, Seq<char>>,
    ) -> QueueView {
        match self.options(token) {
            Ok(options) => self.queue.add_all(files, false, options),
            Err(_) => self.queue,
        }
    }

    /// The state once files were offered.
    pub open spec fn accepted(
        self,
        files: Seq<CandidateView>,
        token: Result<Seq<char>, Seq<char>>,
        now: u128,
    ) -> AppView {
        if files.len() == 0 {
            self
        } else if self.options(token) is Err {
            AppView {
                pending_files: self.pending_files + paths_of(files),
                page: Page::Settings,
                ..self
            }.with_error("请先配置个人令牌和默认接收人，文件将在保存后自动加入队列"@)
        } else {
            let next = AppView {
                queue: self.queue_with(files, token).start_next(now),
                ..self
            };
            if queue::add_errors(files).len() == 0 {
                next.with_info(added_text(files.len()))
            } else {
                next.with_error(text::join(queue::add_errors(files), "\n"@))
            }
        }
    }

    /// The upload to be started then.
    pub open spec fn accept_start(
        self,
        files: Seq<CandidateView>,
        token: Result<Seq<char>, Seq<char>>,
    ) -> Option<StartView> {
        if files.len() == 0 || self.options(token) is Err {
            None
        } else {
            self.queue_with(files, token).next_start()
        }
    }

    /// The notification that goes with it.
    pub open spec fn accept_notice(
        self,
        files: Seq<CandidateView>,
        token: Result<Seq<char>, Seq<char>>,
    ) -> Option<NoticeView> {
        if files.len() > 0 && self.options(token) is Ok && queue::add_errors(files).len() == 0 {
            Some(
                NoticeView {
                    title: "文件已加入队列"@,
                    message: added_text(files.len()),
                    kind: SystemNotificationKind::Info,
                },
            )
        } else {
            None
        }
    }
}

impl FileExchangeApp {
    /// The state of a start with these settings.
    pub fn new(settings_store: SettingsStore, settings: AppSettings, shell_registered: bool) -> (app:
        FileExchangeApp)
        ensures
            app@ == AppView::started(settings_store.file(), settings@, shell_registered),
            app@.wf(),
    {
        let form = SettingsForm::from(&settings);
        let app = FileExchangeApp {
            queue: UploadQueue::new(),
            settings_store,
            settings,
            form,
            page: Page::Transfers,
            pending_files: Vec::new(),
            hotkey: None,
            capturing: false,
            task_statuses: HashMap::new(),
            banner: None,
            manual_text: String::new(),
            querying_usage: false,
            usage_info: None,
            usage_error: None,
            usage_last_fetched_at: None,
            shell_registered,
            confirm_exit: false,
            exiting: false,
        };
        assert(app@ =~= AppView::started(settings_store.file(), settings@, shell_registered));
        app
    }

    /// Shows a message of failure above the page.
    pub fn set_error(&mut self, message: String)
        ensures
            final(self)@ == old(self)@.with_error(message@),
    {
        self.banner = Some(Banner { message, is_error: true });
    }

    /// Shows a message of success above the page.
    pub fn set_info(&mut self, message: String)
        ensures
            final(self)@ == old(self)@.with_info(message@),
    {
        self.banner = Some(Banner { message, is_error: false });
    }

    /// What uploads are made with, given what the stored token is.
    pub fn upload_options(&self, token: Result<String, String>) -> (options: Result<
        UploadOptions,
        String,
    >)
        ensures
            options_result(options) == self@.options(text_result(token)),
    {
        make_options(&self.settings, self.settings.validate_without_token(), token)
    }

    /// Takes in the files among the offers. They join the queue where the
    /// settings allow it, and wait for better settings where not.
    pub fn accept_files(
        &mut self,
        offers: Vec<Offer>,
        token: Result<String, String>,
        now: u128,
    ) -> (outcome: AcceptOutcome)
        requires
            old(self)@.wf(),
            old(self)@.queue.next_id + offers@.len() <= u64::MAX,
        ensures
            ({
                let files = files_in(offer_views(offers@));
                let before = old(self)@;
                &&& final(self)@ == before.accepted(files, text_result(token), now)
                &&& notice_option(outcome.notice) == before.accept_notice(
                    files,
                    text_result(token),
                )
                &&& queue::start_view(outcome.start) == before.accept_start(
                    files,
                    text_result(token),
                )
            }),
            final(self)@.wf(),
    {
        let files = keep_files(offers);
        let ghost given = queue::candidate_views(files@);
        if files.len() == 0 {
            return AcceptOutcome { notice: None, start: None };
        }
        let options = match self.upload_options(token) {
            Ok(options) => options,
            Err(_) => {
                let ghost waiting = self.pending_files@;
                for file in it: files
                    invariant
                        queue::candidate_views(it.seq()) == given,
                        self@ == (AppView {
                            pending_files: waiting + paths_of(given).take(it.index()),
                            ..old(self)@
                        }),
                {
                    proof {
                        let k = it.index();
                        assert(it.seq()[k] == file);
                        assert(given[k] == queue::candidate_views(it.seq())[k]);
                        assert(paths_of(given).take(k + 1) =~= paths_of(given).take(k).push(
                            file.path,
                        ));
                    }
                    self.pending_files.push(file.path);
                    assert(self@.pending_files =~= waiting + paths_of(given).take(it.index() + 1));
                }
                assert(paths_of(given).take(given.len() as int) =~= paths_of(given));
                self.page = Page::Settings;
                self.set_error(
                    "请先配置个人令牌和默认接收人，文件将在保存后自动加入队列".to_owned(),
                );
                return AcceptOutcome { notice: None, start: None };
            },
        };
        let count = files.len();
        let added = self.queue.add_files(files, false, options, now);
        if added.errors.len() == 0 {
            assert(text::texts(added.errors@).len() == 0);
            self.set_info(added_message(count));
            return AcceptOutcome {
                notice: Some(
                    Notice {
                        title: "文件已加入队列".to_owned(),
                        message: added_message(count),
                        kind: SystemNotificationKind::Info,
                    },
                ),
                start: added.start,
            };
        }
        assert(text::texts(added.errors@).len() > 0);
        let message = join_texts(added.errors.as_slice(), "\n");
        self.set_error(message);
        AcceptOutcome { notice: None, start: added.start }
    }
}

} // verus!
