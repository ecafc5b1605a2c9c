//! What holds of what the pages say.
use vstd::prelude::*;

use crate::api::SpendView;
use crate::app::pages;
use crate::app::pages::UsageState;
use crate::app::AppView;
use crate::model;
use crate::model::{TaskView, UploadStatus};
use crate::number;
use crate::text;
use crate::text_laws;
use crate::usage;

verus! {

/// Tasks are counted one by one, each where it stands.
pub proof fn tasks_are_counted_where_they_stand(
    tasks: Seq<TaskView>,
    one: TaskView,
    status: UploadStatus,
)
    ensures
        pages::tasks_at(seq![], status) == 0,
        one.status == status ==> pages::tasks_at(tasks.push(one), status) == pages::tasks_at(
            tasks,
            status,
        ) + 1,
        one.status != status ==> pages::tasks_at(tasks.push(one), status) == pages::tasks_at(
            tasks,
            status,
        ),
{
    assert(tasks.push(one).drop_last() =~= tasks);
    reveal_with_fuel(Seq::filter, 2);
}

/// The path of a task is shown as where it comes from, unless the file is a
/// temporary one.
pub proof fn sources_show_the_path(task: TaskView, shown_path: Seq<char>)
    ensures
        !task.temporary ==> pages::source_of(task, shown_path) == text_laws::run(
            seq!["来源："@, shown_path],
        ),
        task.temporary ==> pages::source_of(task, shown_path) == "来源：手动文本 / 临时内容"@,
{
    text_laws::lemma_run_two("来源："@, shown_path);
}

/// Success, failure, cancelling and the server's work are told apart by colours;
/// waiting and uploading look the same.
pub proof fn colours_tell_states_apart(a: UploadStatus, b: UploadStatus)
    ensures
        pages::colors_of(a) == pages::colors_of(b) <==> a == b || {
            &&& a == UploadStatus::Waiting || a == UploadStatus::Uploading
            &&& b == UploadStatus::Waiting || b == UploadStatus::Uploading
        },
        pages::colors_of(UploadStatus::Succeeded).foreground == pages::success(),
        pages::colors_of(UploadStatus::Failed).foreground == pages::danger(),
        pages::colors_of(UploadStatus::Uploading).foreground == pages::accent(),
        pages::colors_of(UploadStatus::Cancelled).foreground == pages::muted(),
{
}

/// Where the usage query stands: not configured comes before all; then a query
/// under way; then an error; then a report; else there was no query yet.
pub proof fn usage_states_come_in_order(app: AppView)
    ensures
        app.usage_state() == UsageState::Unconfigured <==> !app.settings.usage_configured(),
        app.usage_state() == UsageState::Querying <==> app.settings.usage_configured()
            && app.querying_usage,
        app.usage_state() == UsageState::Failed <==> app.settings.usage_configured()
            && !app.querying_usage && app.usage_error is Some,
        app.usage_state() == UsageState::Updated <==> app.settings.usage_configured()
            && !app.querying_usage && app.usage_error is None && app.usage_info is Some,
        app.usage_state() == UsageState::Idle <==> app.settings.usage_configured()
            && !app.querying_usage && app.usage_error is None && app.usage_info is None,
        app.has_query_result() <==> !(app.usage_info is None && app.usage_error is None
            && app.usage_last_fetched_at is None),
{
}

/// The states of the usage query are told apart by name, by explanation and by
/// colours.
pub proof fn usage_states_are_told_apart(a: UsageState, b: UsageState)
    requires
        a.name() == b.name() || a.explanation() == b.explanation() || a.shade() == b.shade(),
    ensures
        a == b,
{
    reveal_strlit("未配置");
    reveal_strlit("查询中");
    reveal_strlit("查询失败");
    reveal_strlit("已更新");
    reveal_strlit("待查询");
    reveal_strlit("请先到设置页补全地址与 API Key");
    reveal_strlit("正在请求最新用量数据");
    reveal_strlit("接口返回异常，请检查地址或凭证");
    reveal_strlit("最近一次查询已成功完成");
    reveal_strlit("点击右上角按钮获取最新用量数据");
    if a.name() == b.name() {
        assert(a.name().len() == b.name().len());
        assert(a.name()[0] == b.name()[0]);
        assert(a.name()[2] == b.name()[2]);
    } else if a.explanation() == b.explanation() {
        assert(a.explanation()[0] == b.explanation()[0]);
    }
}

/// The name of each state says what it is, and success is shown in green, failure in
/// red, and what is under way in blue.
pub proof fn states_are_named_for_what_they_are(state: UsageState)
    ensures
        state == UsageState::Unconfigured <==> state.name() == "未配置"@,
        state == UsageState::Querying <==> state.name() == "查询中"@,
        state == UsageState::Failed <==> state.name() == "查询失败"@,
        state == UsageState::Updated <==> state.name() == "已更新"@,
        state == UsageState::Idle <==> state.name() == "待查询"@,
        UsageState::Updated.shade().foreground == pages::success(),
        UsageState::Failed.shade().foreground == pages::danger(),
        UsageState::Querying.shade().foreground == pages::accent(),
        pages::success().g > pages::success().r && pages::success().g > pages::success().b,
        pages::danger().r > pages::danger().g && pages::danger().r > pages::danger().b,
        pages::accent().b > pages::accent().r && pages::accent().b > pages::accent().g,
{
    reveal_strlit("未配置");
    reveal_strlit("查询中");
    reveal_strlit("查询失败");
    reveal_strlit("已更新");
    reveal_strlit("待查询");
    let name = state.name();
    assert(name.len() == 3 || name.len() == 4);
    assert("未配置"@[0] != "查询中"@[0]);
    assert("未配置"@[0] != "已更新"@[0]);
    assert("未配置"@[0] != "待查询"@[0]);
    assert("查询中"@[0] != "已更新"@[0]);
    assert("查询中"@[0] != "待查询"@[0]);
    assert("已更新"@[0] != "待查询"@[0]);
}

/// The time of a budget is shown as it is reported; an amount with a dollar sign in
/// front of its digits; what is not reported is said to be missing.
pub proof fn figures_are_shown_as_reported(app: AppView, digits: Seq<char>, any: Option<Seq<char>>)
    ensures
        app.usage_info matches Some(info) ==> (info.budget_duration matches Some(time)
            ==> app.budget_cycle() == time),
        !(app.usage_info matches Some(info) && info.budget_duration is Some) ==> app.budget_cycle()
            == "未返回"@,
        pages::amount_of(true, Some(digits)) == text_laws::run(seq!["$"@, digits]),
        pages::amount_of(true, None) == "未返回"@,
        pages::amount_of(false, any) == "--"@,
{
    text_laws::lemma_run_two("$"@, digits);
}

/// The row of a task shows the bytes that were sent and those there are, the speed
/// while it is uploaded, and the identifier that the server gave.
pub proof fn rows_show_the_task(task: TaskView, speed: u64)
    ensures
        pages::progress_of(task) == text_laws::run(
            seq![
                model::byte_text(task.bytes_sent as nat),
                " / "@,
                model::byte_text(task.file_size as nat),
            ],
        ),
        pages::speed_of(task, speed) is Some <==> task.status == UploadStatus::Uploading,
        pages::speed_of(task, speed) matches Some(shown) ==> shown == text_laws::run(
            seq![model::byte_text(speed as nat), "/s"@],
        ),
        pages::file_id_of(task) is Some <==> task.server_file_id is Some,
        task.server_file_id matches Some(id) ==> pages::file_id_of(task) == Some(
            text_laws::run(seq!["文件 ID："@, id]),
        ),
{
    text_laws::lemma_run_three(
        model::byte_text(task.bytes_sent as nat),
        " / "@,
        model::byte_text(task.file_size as nat),
    );
    text_laws::lemma_run_two(model::byte_text(speed as nat), "/s"@);
    if task.server_file_id is Some {
        text_laws::lemma_run_two("文件 ID："@, task.server_file_id->0);
    }
}

/// A task can be cancelled while it is active and removed once it is not, and
/// started over where it has failed or was cancelled.
pub proof fn buttons_fit_the_state(status: UploadStatus)
    ensures
        ({
            let (cancel, retry, remove) = pages::live_buttons(status);
            &&& cancel <==> status == UploadStatus::Waiting || status == UploadStatus::Uploading
                || status == UploadStatus::Processing
            &&& retry <==> status == UploadStatus::Failed || status == UploadStatus::Cancelled
            &&& remove <==> !cancel
        }),
{
}

/// The dates of a report are those of their own fields: the last use, and the end of
/// the budget; where one is missing, or there is no report, that is said.
pub proof fn dates_are_those_of_their_own_fields(app: AppView, info: SpendView, shown: Seq<char>)
    ensures
        app.usage_info == Some(info) ==> {
            &&& info.last_active is Some && !text::is_blank(info.last_active->0)
                ==> (app.shows_last_active(shown) <==> usage::date_is_shown(
                text::trim(info.last_active->0),
                shown,
            ))
            &&& info.budget_reset_at is Some && !text::is_blank(info.budget_reset_at->0)
                ==> (app.shows_budget_reset(shown) <==> usage::date_is_shown(
                text::trim(info.budget_reset_at->0),
                shown,
            ))
            &&& info.last_active is None ==> (app.shows_last_active(shown) <==> shown == "未返回"@)
            &&& info.budget_reset_at is None ==> (app.shows_budget_reset(shown) <==> shown
                == "未返回"@)
        },
        app.usage_info is None ==> (app.shows_last_active(shown) <==> shown == "尚未执行查询"@) && (
        app.shows_budget_reset(shown) <==> shown == "尚未执行查询"@),
{
}

/// The usage can be asked for where that is configured and not going on; the typed
/// text is told with its lines and its characters.
pub proof fn typed_texts_are_counted(app: AppView)
    ensures
        app.can_query() <==> !app.querying_usage && app.settings.usage_configured(),
        app.text_summary() == text_laws::run(
            seq![
                text_laws::run(
                    seq![
                        number::decimal(text::lines(app.manual_text).len()),
                        " 行 / "@,
                        number::decimal(app.manual_text.len()),
                    ],
                ),
                " 字"@,
            ],
        ),
{
    let lines = number::decimal(text::lines(app.manual_text).len());
    let characters = number::decimal(app.manual_text.len());
    text_laws::lemma_run_three(lines, " 行 / "@, characters);
    text_laws::lemma_run_two(text_laws::run(seq![lines, " 行 / "@, characters]), " 字"@);
}

} // verus!
