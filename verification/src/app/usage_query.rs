//! Asking for the usage of the interface.
use vstd::prelude::*;

use crate::api::SpendInfo;
use crate::app;
use crate::app::{AppView, FileExchangeApp, Page};
use crate::config::SettingsView;
use crate::text;
use crate::text::{text_is_blank, trimmed};

verus! {

/// An address to ask at, and the key to ask with.
#[derive(Debug)]
pub struct UsageQuery {
    pub api_base_url: String,
    pub api_key: String,
}

/// A query, with its texts as sequences of characters.
pub struct QueryView {
    pub api_base_url: Seq<char>,
    pub api_key: Seq<char>,
}

/// The view of a query, or of what is said where there is none.
pub open spec fn query_result(result: Result<UsageQuery, String>) -> Result<QueryView, Seq<char>> {
    match result {
        Ok(query) => Ok(QueryView { api_base_url: query.api_base_url@, api_key: query.api_key@ }),
        Err(error) => Err(error@),
    }
}

/// The query that settings allow, given what the stored key is.
pub open spec fn query_of(settings: SettingsView, key: Result<Seq<char>, Seq<char>>) -> Result<
    QueryView,
    Seq<char>,
> {
    if text::is_blank(settings.usage_api_base_url) {
        Err("请先在设置中填写用量查询地址"@)
    } else {
        match key {
            Err(error) => Err(error),
            Ok(found) => if text::is_blank(found) {
                Err("请先在设置中填写用量 API Key"@)
            } else {
                Ok(
                    QueryView {
                        api_base_url: text::trim(settings.usage_api_base_url),
                        api_key: found,
                    },
                )
            },
        }
    }
}

/// What a look at a query that is under way shows.
#[derive(Debug)]
pub enum UsageReply {
    /// There is no answer yet.
    Pending,
    /// There is an answer.
    Finished(Result<SpendInfo, String>),
    /// There will be no answer.
    Disconnected,
}

impl AppView {
    /// The state once the usage is to be asked for.
    pub open spec fn query_begun(self, key: Result<Seq<char>, Seq<char>>) -> AppView {
        if self.querying_usage {
            self
        } else {
            match query_of(self.settings, key) {
                Err(error) => AppView { page: Page::Settings, ..self }.with_error(error),
                Ok(_) => AppView { querying_usage: true, usage_error: None, ..self },
            }
        }
    }

    /// The state once the query was looked at, given the time as it is shown.
    pub open spec fn query_polled(self, reply: UsageReply, now: Seq<char>) -> AppView {
        let done = AppView { querying_usage: false, ..self };
        if !self.querying_usage {
            self
        } else {
            match reply {
                UsageReply::Pending => self,
                UsageReply::Finished(Ok(info)) => AppView {
                    usage_info: Some(info@),
                    usage_error: None,
                    usage_last_fetched_at: Some(now),
                    ..done
                }.with_info("用量信息已更新"@),
                UsageReply::Finished(Err(error)) => AppView {
                    usage_error: Some(error@),
                    ..done
                }.with_error("用量查询失败："@ + error@),
                UsageReply::Disconnected => AppView {
                    usage_error: Some("后台查询线程已断开"@),
                    ..done
                }.with_error("用量查询失败：后台查询线程已断开"@),
            }
        }
    }

    /// The state without results of usage queries.
    pub open spec fn usage_cleared(self) -> AppView {
        AppView { usage_info: None, usage_error: None, usage_last_fetched_at: None, ..self }
    }
}

impl FileExchangeApp {
    /// The query that the settings allow, given what the stored key is.
    pub fn usage_query_options(&self, key: Result<String, String>) -> (query: Result<
        UsageQuery,
        String,
    >)
        ensures
            query_result(query) == query_of(self@.settings, app::text_result(key)),
    {
        let address = trimmed(self.settings.usage_api_base_url.as_str());
        if address.as_str().is_empty() {
            return Err("请先在设置中填写用量查询地址".to_owned());
        }
        match key {
            Err(error) => Err(error),
            Ok(found) => {
                if text_is_blank(found.as_str()) {
                    return Err("请先在设置中填写用量 API Key".to_owned());
                }
                Ok(UsageQuery { api_base_url: address, api_key: found })
            },
        }
    }

    /// Begins to ask for the usage, unless that is going on already or the
    /// settings do not allow it. Hands out the query that is to be made.
    pub fn begin_usage_query(&mut self, key: Result<String, String>) -> (query: Option<UsageQuery>)
        ensures
            final(self)@ == old(self)@.query_begun(app::text_result(key)),
            ({
                let allowed = query_of(old(self)@.settings, app::text_result(key));
                if old(self)@.querying_usage || allowed is Err {
                    query is None
                } else {
                    query matches Some(made) && query_result(Ok(made)) == allowed
                }
            }),
    {
        if self.querying_usage {
            return None;
        }
        match self.usage_query_options(key) {
            Ok(query) => {
                self.querying_usage = true;
                self.usage_error = None;
                Some(query)
            },
            Err(error) => {
                self.page = Page::Settings;
                self.set_error(error);
                None
            },
        }
    }

    /// Takes note of a look at the query that is under way, given the time as it
    /// is shown.
    pub fn poll_usage_query(&mut self, reply: UsageReply, now: String)
        ensures
            final(self)@ == old(self)@.query_polled(reply, now@),
    {
        if !self.querying_usage {
            return;
        }
        match reply {
            UsageReply::Pending => {},
            UsageReply::Finished(Ok(info)) => {
                self.querying_usage = false;
                self.usage_info = Some(info);
                self.usage_error = None;
                self.usage_last_fetched_at = Some(now);
                self.set_info("用量信息已更新".to_owned());
            },
            UsageReply::Finished(Err(error)) => {
                self.querying_usage = false;
                let message = "用量查询失败：".to_owned().concat(error.as_str());
                self.usage_error = Some(error);
                self.set_error(message);
            },
            UsageReply::Disconnected => {
                self.querying_usage = false;
                self.usage_error = Some("后台查询线程已断开".to_owned());
                self.set_error("用量查询失败：后台查询线程已断开".to_owned());
            },
        }
    }

    /// Forgets the results of usage queries.
    pub fn clear_usage(&mut self)
        ensures
            final(self)@ == old(self)@.usage_cleared(),
    {
        self.usage_info = None;
        self.usage_error = None;
        self.usage_last_fetched_at = None;
    }
}

/// A query that has begun ends with any answer, or with there being none to
/// come; a query that is not under way is not ended by a late answer.
pub proof fn queries_end_once(app: AppView, reply: UsageReply, now: Seq<char>)
    ensures
        reply !is Pending ==> !app.query_polled(reply, now).querying_usage,
        !app.querying_usage ==> app.query_polled(reply, now) == app,
{
}

/// A failed query keeps the last result, and the time it was fetched.
pub proof fn failed_queries_keep_the_last_result(app: AppView, error: String, now: Seq<char>)
    ensures
        ({
            let after = app.query_polled(UsageReply::Finished(Err(error)), now);
            &&& after.usage_info == app.usage_info
            &&& after.usage_last_fetched_at == app.usage_last_fetched_at
        }),
{
}

} // verus!
