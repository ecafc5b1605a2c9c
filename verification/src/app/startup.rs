//! Starting up: the tray, the context menu, the hotkey and the files given at
//! the start.
use vstd::prelude::*;

use crate::app;
use crate::app::{AcceptOutcome, AppView, FileExchangeApp, Offer, Page};
use crate::config::AppSettings;
use crate::queue;
use crate::queue::CandidateView;
use crate::text;

verus! {

/// A hotkey that was read: its modifiers as bits, the name of its key, and the
/// number that its events carry.
#[derive(Debug, Clone, PartialEq, Eq)]
pub struct ReadHotkey {
    pub modifiers: u32,
    pub key: String,
    pub id: u32,
}

/// A hotkey that was read, with its text as a sequence of characters.
pub struct HotkeyView {
    pub modifiers: u32,
    pub key: Seq<char>,
    pub id: u32,
}

impl View for ReadHotkey {
    type V = HotkeyView;

    open spec fn view(&self) -> HotkeyView {
        HotkeyView { modifiers: self.modifiers, key: self.key@, id: self.id }
    }
}

/// The hotkey that `value` names, or what is said where it names none: what the
/// parse of a `HotKey` of the crate `global-hotkey` makes of it. The modifier
/// that is the one of commands on each system is the meta key where `meta` holds,
/// and the control key where not.
pub uninterp spec fn hotkey_reading(value: Seq<char>, meta: bool) -> Result<HotkeyView, Seq<char>>;

/// The view of a hotkey that was read, or of what is said where there is none.
pub open spec fn hotkey_view(read: Result<ReadHotkey, String>) -> Result<HotkeyView, Seq<char>> {
    match read {
        Ok(found) => Ok(found@),
        Err(error) => Err(error@),
    }
}

/// Whether `part` names the modifier of commands, which differs from system to
/// system.
pub open spec fn is_command_modifier(part: Seq<char>) -> bool {
    ||| text::same_ignoring_case(part, "CommandOrControl"@)
    ||| text::same_ignoring_case(part, "CommandOrCtrl"@)
    ||| text::same_ignoring_case(part, "CmdOrCtrl"@)
    ||| text::same_ignoring_case(part, "CmdOrControl"@)
}

/// Whether `value` holds the modifier of commands beside other keys.
pub open spec fn holds_command_modifier(value: Seq<char>) -> bool {
    let pieces = text::split_on(value, '+');
    pieces.len() > 1 && exists|i: int|
        0 <= i < pieces.len() && is_command_modifier(text::trim(#[trigger] pieces[i]))
}

/// `HotKey::from_str` of the crate `global-hotkey`, with the bits of the
/// modifiers, the name of the key and the number of the result. Claims that
/// these, or the error, are settled by the text and by what the modifier of
/// commands is on the system; and by the text alone where that modifier is not
/// in it.
#[verifier::external_body]
fn read_hotkey(value: &str) -> (read: Result<ReadHotkey, String>)
    ensures
        exists|meta: bool| hotkey_view(read) == #[trigger] hotkey_reading(value@, meta),
        !holds_command_modifier(value@) ==> hotkey_view(read) == hotkey_reading(value@, false),
{
    match value.parse::<global_hotkey::hotkey::HotKey>() {
        Ok(hotkey) => Ok(
            ReadHotkey {
                modifiers: hotkey.mods.bits(),
                key: hotkey.key.to_string(),
                id: hotkey.id(),
            },
        ),
        Err(error) => Err(error.to_string()),
    }
}

/// What came of registering the hotkey.
#[derive(Debug)]
pub enum HotkeyOutcome {
    /// The system lets no hotkey be registered.
    NoManager(String),
    /// The text in the settings names no hotkey.
    Malformed(String),
    /// The hotkey is taken.
    Taken(String),
    /// The hotkey with this number is registered.
    Registered(u32),
}

/// What is to be done at the start.
pub struct StartupOutcome {
    pub accepted: AcceptOutcome,
    /// Whether the window stays out of sight.
    pub hide: bool,
}

impl AppView {
    /// The state once the hotkey of the settings was to be registered.
    pub open spec fn with_hotkey(self, outcome: HotkeyOutcome) -> AppView {
        let bare = AppView { hotkey: None, ..self };
        match outcome {
            HotkeyOutcome::NoManager(error) => bare.with_error("无法初始化全局快捷键："@ + error@),
            HotkeyOutcome::Malformed(error) => bare.with_error("快捷键格式无效："@ + error@),
            HotkeyOutcome::Taken(error) => bare.with_error(
                "快捷键 "@ + self.settings.hotkey + " 已被占用："@ + error@,
            ),
            HotkeyOutcome::Registered(id) => AppView { hotkey: Some(id), ..self },
        }
    }
}

impl AppView {
    /// The state once the paths given at the start were taken in: so many of them,
    /// and the files among them.
    pub open spec fn started_with(
        self,
        given: nat,
        files: Seq<CandidateView>,
        token: Result<Seq<char>, Seq<char>>,
        now: u128,
    ) -> AppView {
        if given > 0 {
            self.accepted(files, token, now)
        } else if self.settings.configured() {
            self
        } else {
            AppView { page: Page::Settings, ..self }
        }
    }

    /// Whether the window stays out of sight at a start with so many paths.
    pub open spec fn stays_hidden(self, given: nat) -> bool {
        self.settings.configured() && given > 0
    }
}

/// Tells whether the window stays out of sight at the start: where there are
/// files to upload, and settings to upload them with.
pub fn starts_hidden(has_files: bool, settings: &AppSettings) -> (hidden: bool)
    ensures
        hidden == (has_files && settings@.configured()),
{
    has_files && settings.is_configured()
}

impl FileExchangeApp {
    /// The hotkey of the settings, or what is said where they name none.
    pub fn hotkey_to_register(&self) -> (read: Result<ReadHotkey, String>)
        ensures
            exists|meta: bool|
                hotkey_view(read) == #[trigger] hotkey_reading(self@.settings.hotkey, meta),
            !holds_command_modifier(self@.settings.hotkey) ==> hotkey_view(read) == hotkey_reading(
                self@.settings.hotkey,
                false,
            ),
    {
        read_hotkey(self.settings.hotkey.as_str())
    }

    /// Takes note of what came of registering the hotkey.
    pub fn hotkey_registered(&mut self, outcome: HotkeyOutcome)
        ensures
            final(self)@ == old(self)@.with_hotkey(outcome),
    {
        self.hotkey = None;
        match outcome {
            HotkeyOutcome::NoManager(error) => self.set_error(
                "无法初始化全局快捷键：".to_owned().concat(error.as_str()),
            ),
            HotkeyOutcome::Malformed(error) => self.set_error(
                "快捷键格式无效：".to_owned().concat(error.as_str()),
            ),
            HotkeyOutcome::Taken(error) => {
                let message = "快捷键 ".to_owned().concat(self.settings.hotkey.as_str()).concat(
                    " 已被占用：",
                ).concat(error.as_str());
                self.set_error(message);
            },
            HotkeyOutcome::Registered(id) => {
                self.hotkey = Some(id);
            },
        }
    }

    /// Takes note that there is no icon in the tray.
    pub fn tray_failed(&mut self, error: &str)
        ensures
            final(self)@ == old(self)@.with_error("无法创建系统托盘："@ + error@),
    {
        self.set_error("无法创建系统托盘：".to_owned().concat(error));
    }

    /// Takes note of what came of registering the context menu at the start, and
    /// of whether it is registered now.
    pub fn menu_repaired(&mut self, result: Result<(), String>, registered: bool)
        ensures
            final(self)@ == (AppView {
                shell_registered: registered,
                ..match result {
                    Ok(_) => old(self)@,
                    Err(error) => old(self)@.with_error("右键菜单注册失败："@ + error@),
                }
            }),
    {
        match result {
            Ok(()) => {},
            Err(error) => self.set_error("右键菜单注册失败：".to_owned().concat(error.as_str())),
        }
        self.shell_registered = registered;
    }

    /// Takes note of what came of registering the context menu on demand, and of
    /// whether it is registered now.
    pub fn menu_registered(&mut self, result: Result<(), String>, registered: bool)
        ensures
            final(self)@ == (AppView {
                shell_registered: registered,
                ..match result {
                    Ok(_) => old(self)@.with_info("右键菜单已注册"@),
                    Err(error) => old(self)@.with_error(error@),
                }
            }),
    {
        match result {
            Ok(()) => self.set_info("右键菜单已注册".to_owned()),
            Err(error) => self.set_error(error),
        }
        self.shell_registered = registered;
    }

    /// Takes note of what came of removing the context menu, and of whether it is
    /// registered now.
    pub fn menu_removed(&mut self, result: Result<(), String>, registered: bool)
        ensures
            final(self)@ == (AppView {
                shell_registered: registered,
                ..match result {
                    Ok(_) => old(self)@.with_info("右键菜单已移除"@),
                    Err(error) => old(self)@.with_error(error@),
                }
            }),
    {
        match result {
            Ok(()) => self.set_info("右键菜单已移除".to_owned()),
            Err(error) => self.set_error(error),
        }
        self.shell_registered = registered;
    }

    /// Takes in the files given at the start. Without any, and without settings
    /// to upload with, the settings are shown.
    pub fn start_up(&mut self, offers: Vec<Offer>, token: Result<String, String>, now: u128) -> (
    outcome: StartupOutcome)
        requires
            old(self)@.wf(),
            old(self)@.queue.next_id + offers@.len() <= u64::MAX,
        ensures
            ({
                let files = app::files_in(app::offer_views(offers@));
                let before = old(self)@;
                &&& final(self)@ == (if offers@.len() > 0 {
                    before.accepted(files, app::text_result(token), now)
                } else if before.settings.configured() {
                    before
                } else {
                    AppView { page: Page::Settings, ..before }
                })
                &&& final(self)@ == before.started_with(
                    offers@.len(),
                    files,
                    app::text_result(token),
                    now,
                )
                &&& outcome.hide == (offers@.len() > 0 && before.settings.configured())
                &&& outcome.hide == before.stays_hidden(offers@.len())
                &&& app::notice_option(outcome.accepted.notice) == before.accept_notice(
                    files,
                    app::text_result(token),
                )
                &&& queue::start_view(outcome.accepted.start) == before.accept_start(
                    files,
                    app::text_result(token),
                )
            }),
            final(self)@.wf(),
    {
        if offers.len() > 0 {
            let accepted = self.accept_files(offers, token, now);
            return StartupOutcome { accepted, hide: self.settings.is_configured() };
        }
        if !self.settings.is_configured() {
            self.page = Page::Settings;
        }
        StartupOutcome { accepted: AcceptOutcome { notice: None, start: None }, hide: false }
    }
}

} // verus!
