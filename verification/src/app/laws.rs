//! What holds of the application as a whole.
use vstd::prelude::*;

use crate::api;
use crate::api::OptionsView;
use crate::api_laws;
use crate::app;
use crate::app::{AppView, FormView, Page};
use crate::config;
use crate::config_laws;
use crate::queue;
use crate::queue::{CandidateView, QueueView};
use crate::text;

verus! {

/// Fields for secrets that are left blank keep what is stored; a key without an
/// address to use it with is dropped.
pub proof fn blank_secrets_keep_the_stored_ones(
    app: AppView,
    token: Option<Result<Seq<char>, Seq<char>>>,
    key: Option<Result<Seq<char>, Seq<char>>>,
)
    requires
        app.to_be_saved(token, key) is Ok,
    ensures
        ({
            let saved = app.to_be_saved(token, key)->Ok_0;
            &&& text::is_blank(app.form.token) ==> saved.encrypted_token
                == app.settings.encrypted_token
            &&& text::is_blank(app.form.usage_api_key) && saved.usage_api_base_url.len() > 0
                ==> saved.encrypted_usage_api_key == app.settings.encrypted_usage_api_key
            &&& saved.usage_api_base_url.len() == 0 ==> saved.encrypted_usage_api_key.len() == 0
        }),
{
}

/// A new secret that is not blank is sealed: it is never found to be invalid.
pub proof fn new_secrets_are_sealed(app: AppView)
    ensures
        app.has_new_token() <==> app.new_token() is Some,
        app.has_new_key() <==> app.new_key() is Some,
{
    config_laws::bare_tokens_are_trimmed(app.form.token);
    config_laws::bare_tokens_are_trimmed(app.form.usage_api_key);
}

/// Settings that are written allow uploads, and no secret stays in the form.
pub proof fn saved_settings_allow_uploads(
    app: AppView,
    token: Option<Result<Seq<char>, Seq<char>>>,
    key: Option<Result<Seq<char>, Seq<char>>>,
)
    requires
        app.to_be_saved(token, key) is Ok,
    ensures
        ({
            let after = app.saved(app.to_be_saved(token, key)->Ok_0, app.changes_usage());
            &&& after.settings.configured()
            &&& after.form.token.len() == 0
            &&& after.form.usage_api_key.len() == 0
            &&& after.queue == app.queue
        }),
{
}

/// What is joined is the first text, then the rest.
proof fn lemma_join_front(list: Seq<Seq<char>>, separator: Seq<char>)
    requires
        list.len() > 1,
    ensures
        text::join(list, separator) == list[0] + separator + text::join(list.skip(1), separator),
    decreases list.len(),
{
    let shorter = list.drop_last();
    let rest = list.skip(1);
    if list.len() == 2 {
        assert(shorter.len() == 1 && shorter[0] == list[0]);
        assert(rest.len() == 1 && rest[0] == list[1]);
        reveal_with_fuel(text::join, 2);
    } else {
        lemma_join_front(shorter, separator);
        assert(rest.drop_last() =~= shorter.skip(1));
        assert(rest.last() == list.last());
        let tail = text::join(shorter.skip(1), separator);
        assert(list[0] + separator + tail + separator + list.last() =~= list[0] + separator + (tail
            + separator + list.last()));
    }
}

/// Lines that are joined by line feeds are found again.
proof fn lemma_lines_of_joined(list: Seq<Seq<char>>)
    requires
        forall|i: int|
            0 <= i < list.len() ==> (#[trigger] list[i]).len() > 0 && !list[i].contains('\n')
                && list[i].last() != '\r',
    ensures
        text::lines(text::join(list, "\n"@)) == list,
    decreases list.len(),
{
    reveal_strlit("\n");
    let whole = text::join(list, "\n"@);
    if list.len() == 0 {
        assert(text::lines(whole) =~= list);
    } else if list.len() == 1 {
        assert forall|j: int| 0 <= j < whole.len() implies whole[j] != '\n' by {
            assert(list[0].contains(whole[j]));
        }
        text::lemma_first_index(whole, '\n', whole.len() as int);
        assert(text::lines(whole) =~= list);
    } else {
        let first = list[0];
        let rest = list.skip(1);
        assert forall|i: int| 0 <= i < rest.len() implies (#[trigger] rest[i]).len() > 0
            && !rest[i].contains('\n') && rest[i].last() != '\r' by {
            assert(rest[i] == list[i + 1]);
        }
        lemma_join_front(list, "\n"@);
        lemma_lines_of_joined(rest);
        let n = first.len() as int;
        assert forall|j: int| 0 <= j < n implies whole[j] != '\n' by {
            assert(whole[j] == first[j]);
            assert(first.contains(first[j]));
        }
        assert(whole[n] == '\n');
        text::lemma_first_index(whole, '\n', n);
        assert(whole.take(n) =~= first);
        assert(whole.skip(n + 1) =~= text::join(rest, "\n"@));
        assert(text::lines(whole) =~= seq![first] + rest);
        assert(seq![first] + rest =~= list);
    }
}

/// No line feed stands in a line.
proof fn lemma_lines_hold_no_feed(value: Seq<char>, i: int)
    requires
        0 <= i < text::lines(value).len(),
    ensures
        !text::lines(value)[i].contains('\n'),
    decreases value.len(),
{
    let k = text::first_index(value, '\n') as int;
    text::lemma_first_index_is_first(value, '\n');
    if k < value.len() {
        let line = text::strip_return(value.take(k));
        let rest = value.skip(k + 1);
        if i == 0 {
            if line.contains('\n') {
                let j = choose|j: int| 0 <= j < line.len() && line[j] == '\n';
                assert(line[j] == value[j]);
            }
        } else {
            lemma_lines_hold_no_feed(rest, i - 1);
            assert(text::lines(value)[i] == text::lines(rest)[i - 1]);
        }
    }
}

/// The receivers in the form are shown as they were saved, and found again when
/// the form is saved once more.
pub proof fn receivers_survive_the_form(field: Seq<char>)
    ensures
        ({
            let saved = config::receivers_of(text::lines(field));
            config::receivers_of(text::lines(text::join(saved, "\n"@))) == saved
        }),
{
    let values = text::lines(field);
    let saved = config::receivers_of(values);
    config_laws::receivers_are_clean(values);
    assert forall|i: int| 0 <= i < saved.len() implies (#[trigger] saved[i]).len() > 0
        && !saved[i].contains('\n') && saved[i].last() != '\r' by {
        let k = choose|k: int|
            0 <= k < values.len() && text::trim(#[trigger] values[k]) == saved[i];
        lemma_lines_hold_no_feed(field, k);
        let bounds = text::lemma_trim(values[k]);
        if saved[i].contains('\n') {
            let j = choose|j: int| 0 <= j < saved[i].len() && saved[i][j] == '\n';
            assert(values[k][bounds.0 + j] == '\n');
            assert(values[k].contains('\n'));
        }
    }
    lemma_lines_of_joined(saved);
    config_laws::receivers_settle_at_once(values);
}

/// Saving a form that shows the settings drafts the same settings again, where
/// their addresses have no white space at the ends.
pub proof fn untouched_forms_change_nothing(app: AppView)
    requires
        text::is_trimmed(app.drafted().api_base_url),
        text::is_trimmed(app.drafted().usage_api_base_url),
    ensures
        ({
            let shown = AppView {
                settings: app.drafted(),
                form: FormView::showing(app.drafted()),
                ..app
            };
            shown.drafted() == app.drafted()
        }),
{
    let draft = app.drafted();
    let shown = AppView { settings: draft, form: FormView::showing(draft), ..app };
    text::lemma_trimmed_stays(draft.api_base_url);
    text::lemma_trimmed_stays(draft.usage_api_base_url);
    api_laws::lemma_trim_end_char(text::trim(app.form.api_base_url), '/');
    api_laws::lemma_trim_end_char(text::trim(app.form.usage_api_base_url), '/');
    let _ = text::lemma_trim(app.form.hotkey);
    text::lemma_trimmed_stays(draft.hotkey);
    receivers_survive_the_form(app.form.receivers);
    assert(shown.drafted().encrypted_usage_api_key =~= draft.encrypted_usage_api_key);
}

proof fn lemma_add_all_grows(
    queue: QueueView,
    files: Seq<CandidateView>,
    temporary: bool,
    options: OptionsView,
)
    requires
        queue::add_errors(files).len() == 0,
    ensures
        queue.add_all(files, temporary, options).tasks.len() == queue.tasks.len() + files.len(),
    decreases files.len(),
{
    if files.len() > 0 {
        lemma_add_all_grows(queue, files.drop_last(), temporary, options);
        assert(files.last().fault() is None);
    }
}

/// Files that are taken in are never lost: either all of them wait for settings,
/// or all that can be read are in the queue.
pub proof fn accepted_files_are_not_lost(
    app: AppView,
    files: Seq<CandidateView>,
    token: Result<Seq<char>, Seq<char>>,
    now: u128,
)
    requires
        files.len() > 0,
    ensures
        ({
            let after = app.accepted(files, token, now);
            if app.options(token) is Err {
                &&& after.pending_files == app.pending_files + app::paths_of(files)
                &&& after.queue == app.queue
                &&& after.page == Page::Settings
            } else {
                &&& after.pending_files == app.pending_files
                &&& queue::add_errors(files).len() == 0 ==> after.queue.tasks.len()
                    == app.queue.tasks.len() + files.len()
            }
        }),
{
    if app.options(token) is Ok && queue::add_errors(files).len() == 0 {
        lemma_add_all_grows(app.queue, files, false, app.options(token)->Ok_0);
        queue::lemma_first_waiting(app.queue_with(files, token).tasks);
    }
}

/// Without settings that allow an upload no text is fetched, and the settings
/// are shown with the reason.
pub proof fn refused_captures_lead_to_the_settings(
    app: AppView,
    token: Result<Seq<char>, Seq<char>>,
)
    requires
        !app.capturing,
        app.options(token) is Err,
    ensures
        ({
            let after = app.capture_begun(token);
            &&& !after.capturing
            &&& after.page == Page::Settings
            &&& after.banner matches Some(line) && line.is_error && line.message == app.options(
                token,
            )->Err_0
        }),
{
}

/// An upload is possible just where the settings are in order and the stored
/// token can be had and is not empty.
pub proof fn uploads_need_settings_and_token(app: AppView, token: Result<Seq<char>, Seq<char>>)
    ensures
        app.options(token) is Ok <==> app.settings.own_verdict() is Ok && token is Ok
            && token->Ok_0.len() > 0,
        app.options(token) matches Ok(options) ==> options.receiver_users
            == app.settings.receiver_users && options.receiver_users.len() > 0,
{
}

} // verus!
