//! Saving the settings page, and what follows from it.
use std::path::PathBuf;
use vstd::prelude::*;

use crate::api;
use crate::app;
use crate::app::{AcceptOutcome, AppView, FileExchangeApp, Offer, Page};
use crate::config;
use crate::config::{normalize_token, AppSettings, SettingsError, SettingsView};
use crate::queue;
use crate::text;
use crate::text::{
    chars_of, lines_of, same_text, string_of, text_is_blank, trim_chars, trim_end_char_of, trimmed,
};

verus! {

/// An address without white space at its ends and slashes behind.
fn clean_address(value: &str) -> (address: String)
    ensures
        address@ == api::bare_address(value@),
{
    let chars = chars_of(value);
    string_of(trim_end_char_of(trim_chars(chars.as_slice()), '/'))
}

/// Settings that are to be written.
#[derive(Debug)]
pub struct SaveRequest {
    pub settings: AppSettings,
    /// Whether earlier results of usage queries are out of date.
    pub usage_config_changed: bool,
}

/// The view of a secret that was sealed, of what is said where that failed, or
/// of none.
pub open spec fn sealed_view(sealed: Option<Result<String, String>>) -> Option<
    Result<Seq<char>, Seq<char>>,
> {
    match sealed {
        Some(result) => Some(app::text_result(result)),
        None => None,
    }
}

impl AppView {
    /// The address of usage queries in the form.
    pub open spec fn form_usage_address(self) -> Seq<char> {
        api::bare_address(self.form.usage_api_base_url)
    }

    /// Whether the form holds a new token.
    pub open spec fn has_new_token(self) -> bool {
        !text::is_blank(self.form.token)
    }

    /// Whether the form holds a new key for usage queries, and an address to use
    /// it with.
    pub open spec fn has_new_key(self) -> bool {
        self.form_usage_address().len() > 0 && !text::is_blank(self.form.usage_api_key)
    }

    /// The new token, where it is to be sealed.
    pub open spec fn new_token(self) -> Option<Seq<char>> {
        let token = config::token_of(self.form.token);
        if self.has_new_token() && token.len() > 0 {
            Some(token)
        } else {
            None
        }
    }

    /// The new key, where it is to be sealed.
    pub open spec fn new_key(self) -> Option<Seq<char>> {
        let key = config::token_of(self.form.usage_api_key);
        if self.has_new_key() && key.len() > 0 {
            Some(key)
        } else {
            None
        }
    }

    /// The settings in the form, with the secrets that are stored already.
    pub open spec fn drafted(self) -> SettingsView {
        SettingsView {
            api_base_url: api::bare_address(self.form.api_base_url),
            encrypted_token: self.settings.encrypted_token,
            receiver_users: config::receivers_of(text::lines(self.form.receivers)),
            exchange_type: self.settings.exchange_type,
            hotkey: text::trim(self.form.hotkey),
            usage_api_base_url: self.form_usage_address(),
            encrypted_usage_api_key: if self.form_usage_address().len() == 0 {
                Seq::empty()
            } else {
                self.settings.encrypted_usage_api_key
            },
        }
    }

    /// The settings in the form with the new token, where there is one.
    pub open spec fn drafted_with_token(self, token: Option<Result<Seq<char>, Seq<char>>>) -> Result<
        SettingsView,
        Seq<char>,
    > {
        if !self.has_new_token() {
            Ok(self.drafted())
        } else if self.new_token() is None {
            Err("个人令牌无效"@)
        } else {
            match token->0 {
                Err(error) => Err(error),
                Ok(sealed) => Ok(SettingsView { encrypted_token: sealed, ..self.drafted() }),
            }
        }
    }

    /// The settings in the form with the new secrets, where there are any.
    pub open spec fn drafted_with_secrets(
        self,
        token: Option<Result<Seq<char>, Seq<char>>>,
        key: Option<Result<Seq<char>, Seq<char>>>,
    ) -> Result<SettingsView, Seq<char>> {
        match self.drafted_with_token(token) {
            Err(error) => Err(error),
            Ok(settings) => if !self.has_new_key() {
                Ok(settings)
            } else if self.new_key() is None {
                Err("用量 API Key 无效"@)
            } else {
                match key->0 {
                    Err(error) => Err(error),
                    Ok(sealed) => Ok(SettingsView { encrypted_usage_api_key: sealed, ..settings }),
                }
            },
        }
    }

    /// The settings to be written, or what is said where there are none. The
    /// first fault found is the one reported.
    pub open spec fn to_be_saved(
        self,
        token: Option<Result<Seq<char>, Seq<char>>>,
        key: Option<Result<Seq<char>, Seq<char>>>,
    ) -> Result<SettingsView, Seq<char>> {
        match self.drafted_with_secrets(token, key) {
            Err(error) => Err(error),
            Ok(settings) => match settings.own_verdict() {
                Err(error) => Err(error.wording()),
                Ok(_) => if settings.encrypted_token.len() == 0 {
                    Err(SettingsError::MissingToken.wording())
                } else {
                    Ok(settings)
                },
            },
        }
    }

    /// The state once the settings are said to be saved, and the files that waited
    /// for them are handed out.
    pub open spec fn released(self) -> AppView {
        AppView { pending_files: Seq::empty(), ..self }.with_info("设置已保存"@)
    }

    /// The state once the files that waited for settings were taken in.
    pub open spec fn resumed(
        self,
        files: Seq<queue::CandidateView>,
        token: Result<Seq<char>, Seq<char>>,
        now: u128,
    ) -> AppView {
        AppView { page: Page::Transfers, ..self.accepted(files, token, now) }
    }

    /// Whether the form makes earlier results of usage queries out of date.
    pub open spec fn changes_usage(self) -> bool {
        self.settings.usage_api_base_url != self.form_usage_address() || !text::is_blank(
            self.form.usage_api_key,
        )
    }

    /// The state once settings were written: they are in use, the secrets are
    /// gone from the form, and so are results that are out of date.
    pub open spec fn saved(self, settings: SettingsView, usage_config_changed: bool) -> AppView {
        let outdated = usage_config_changed || settings.usage_api_base_url.len() == 0;
        AppView {
            settings,
            form: app::FormView {
                token: Seq::empty(),
                usage_api_key: Seq::empty(),
                ..self.form
            },
            usage_info: if outdated {
                None
            } else {
                self.usage_info
            },
            usage_error: if outdated {
                None
            } else {
                self.usage_error
            },
            usage_last_fetched_at: if outdated {
                None
            } else {
                self.usage_last_fetched_at
            },
            ..self
        }
    }
}

impl FileExchangeApp {
    /// The new token in the form, where it is to be sealed.
    pub fn token_to_seal(&self) -> (token: Option<String>)
        ensures
            text::text_option(token) == self@.new_token(),
    {
        if text_is_blank(self.form.token.as_str()) {
            return None;
        }
        let token = normalize_token(self.form.token.as_str());
        if token.as_str().is_empty() {
            return None;
        }
        Some(token)
    }

    /// The new key in the form, where it is to be sealed.
    pub fn key_to_seal(&self) -> (key: Option<String>)
        ensures
            text::text_option(key) == self@.new_key(),
    {
        let address = clean_address(self.form.usage_api_base_url.as_str());
        if address.as_str().is_empty() || text_is_blank(self.form.usage_api_key.as_str()) {
            return None;
        }
        let key = normalize_token(self.form.usage_api_key.as_str());
        if key.as_str().is_empty() {
            return None;
        }
        Some(key)
    }

    /// The settings in the form, with the secrets that are stored already.
    fn draft(&self) -> (settings: AppSettings)
        ensures
            settings@ == self@.drafted(),
    {
        let usage_api_base_url = clean_address(self.form.usage_api_base_url.as_str());
        let encrypted_usage_api_key = if usage_api_base_url.as_str().is_empty() {
            String::new()
        } else {
            self.settings.encrypted_usage_api_key.clone()
        };
        AppSettings {
            api_base_url: clean_address(self.form.api_base_url.as_str()),
            encrypted_token: self.settings.encrypted_token.clone(),
            receiver_users: AppSettings::normalize_receivers(lines_of(self.form.receivers.as_str())),
            exchange_type: self.settings.exchange_type,
            hotkey: trimmed(self.form.hotkey.as_str()),
            usage_api_base_url,
            encrypted_usage_api_key,
        }
    }

    /// The settings in the form with the secrets that were sealed.
    fn draft_with(
        &self,
        token: Option<Result<String, String>>,
        key: Option<Result<String, String>>,
    ) -> (settings: Result<AppSettings, String>)
        requires
            self@.new_token() is Some ==> token is Some,
            self@.new_key() is Some ==> key is Some,
        ensures
            match self@.drafted_with_secrets(sealed_view(token), sealed_view(key)) {
                Ok(expected) => settings matches Ok(made) && made@ == expected,
                Err(error) => settings matches Err(message) && message@ == error,
            },
    {
        let mut settings = self.draft();
        if !text_is_blank(self.form.token.as_str()) {
            if self.token_to_seal().is_none() {
                return Err("个人令牌无效".to_owned());
            }
            match token {
                Some(Ok(sealed)) => settings.encrypted_token = sealed,
                Some(Err(error)) => return Err(error),
                None => {},
            }
        }
        if !settings.usage_api_base_url.as_str().is_empty() && !text_is_blank(
            self.form.usage_api_key.as_str(),
        ) {
            if self.key_to_seal().is_none() {
                return Err("用量 API Key 无效".to_owned());
            }
            match key {
                Some(Ok(sealed)) => settings.encrypted_usage_api_key = sealed,
                Some(Err(error)) => return Err(error),
                None => {},
            }
        }
        Ok(settings)
    }

    /// The settings to be written, given the secrets that were sealed. Where
    /// there are none to write, the reason is shown.
    pub fn save_settings(
        &mut self,
        token: Option<Result<String, String>>,
        key: Option<Result<String, String>>,
    ) -> (request: Option<SaveRequest>)
        requires
            old(self)@.new_token() is Some ==> token is Some,
            old(self)@.new_key() is Some ==> key is Some,
        ensures
            match old(self)@.to_be_saved(sealed_view(token), sealed_view(key)) {
                Ok(settings) => {
                    &&& request matches Some(made) && made.settings@ == settings
                        && made.usage_config_changed == old(self)@.changes_usage()
                    &&& settings.configured()
                    &&& final(self)@ == old(self)@
                },
                Err(error) => request is None && final(self)@ == old(self)@.with_error(error),
            },
    {
        let address = clean_address(self.form.usage_api_base_url.as_str());
        let usage_config_changed = !same_text(
            self.settings.usage_api_base_url.as_str(),
            address.as_str(),
        ) || !text_is_blank(self.form.usage_api_key.as_str());
        let settings = match self.draft_with(token, key) {
            Ok(settings) => settings,
            Err(error) => {
                self.set_error(error);
                return None;
            },
        };
        match self.settings_store.save(&settings) {
            Ok(_) => {},
            Err(error) => {
                self.set_error(error.message());
                return None;
            },
        }
        Some(SaveRequest { settings, usage_config_changed })
    }

    /// Takes note of whether the settings could be written. Where they could,
    /// they are in use from now on.
    pub fn settings_written(&mut self, request: SaveRequest, written: Result<(), String>) -> (done:
        bool)
        ensures
            done == written is Ok,
            final(self)@ == (match written {
                Ok(_) => old(self)@.saved(request.settings@, request.usage_config_changed),
                Err(error) => old(self)@.with_error(error@),
            }),
    {
        match written {
            Err(error) => {
                self.set_error(error);
                return false;
            },
            Ok(()) => {},
        }
        let outdated = request.usage_config_changed
            || request.settings.usage_api_base_url.as_str().is_empty();
        self.settings = request.settings;
        self.form.token = String::new();
        self.form.usage_api_key = String::new();
        if outdated {
            self.usage_info = None;
            self.usage_error = None;
            self.usage_last_fetched_at = None;
        }
        true
    }

    /// Says that the settings are saved, and hands out the files that waited for
    /// them.
    pub fn settings_saved(&mut self) -> (files: Vec<PathBuf>)
        ensures
            files@ == old(self)@.pending_files,
            final(self)@ == (AppView { pending_files: Seq::empty(), ..old(self)@ }.with_info(
                "设置已保存"@,
            )),
            final(self)@ == old(self)@.released(),
    {
        self.set_info("设置已保存".to_owned());
        let mut files: Vec<PathBuf> = Vec::new();
        std::mem::swap(&mut files, &mut self.pending_files);
        assert(self@.pending_files =~= Seq::empty());
        files
    }

    /// Takes in the files that waited for settings, and shows the transfers.
    pub fn resume_pending(
        &mut self,
        offers: Vec<Offer>,
        token: Result<String, String>,
        now: u128,
    ) -> (outcome: AcceptOutcome)
        requires
            old(self)@.wf(),
            old(self)@.queue.next_id + offers@.len() <= u64::MAX,
        ensures
            ({
                let files = app::files_in(app::offer_views(offers@));
                let before = old(self)@;
                &&& final(self)@ == (AppView {
                    page: Page::Transfers,
                    ..before.accepted(files, app::text_result(token), now)
                })
                &&& final(self)@ == before.resumed(files, app::text_result(token), now)
                &&& app::notice_option(outcome.notice) == before.accept_notice(
                    files,
                    app::text_result(token),
                )
                &&& queue::start_view(outcome.start) == before.accept_start(
                    files,
                    app::text_result(token),
                )
            }),
            final(self)@.wf(),
    {
        let outcome = self.accept_files(offers, token, now);
        self.page = Page::Transfers;
        outcome
    }
}

} // verus!
