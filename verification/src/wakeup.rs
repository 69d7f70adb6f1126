//! One wakeup of an account: the debounce decision in front of it and the
//! report behind it.

use crate::clock::{has_moment, is_moment_text, local_time_text, now_millis};
use crate::debounce::{
    after_reserve, release_wakeup_reservation, reservation_granted, reserve_wakeup_at, WakeupState,
};
use crate::quota::{CodexAccount, CodexQuota};
use crate::text::{
    blank, clipped, decimal, decimal_text, is_blank, same_text, text_of, trim, trim_for_log,
    trimmed,
};
use vstd::prelude::*;
use vstd::string::*;

verus! {

/// What a wakeup reports to its caller.
#[derive(Debug)]
pub struct WakeupResponse {
    pub reply: String,
    pub prompt_tokens: Option<u32>,
    pub completion_tokens: Option<u32>,
    pub total_tokens: Option<u32>,
    pub trace_id: Option<String>,
    pub response_id: Option<String>,
    pub duration_ms: u64,
}

/// A window that a wakeup can be aimed at.
#[derive(Debug, Clone)]
pub struct AvailableModel {
    pub id: String,
    pub display_name: String,
    pub model_constant: Option<String>,
    pub recommended: Option<bool>,
}

/// What a wakeup does next.
#[derive(Debug, Clone, PartialEq, Eq)]
pub enum WakeupAction {
    /// Run the probe with this prompt.
    RunProbe { prompt: String },
    /// Refresh the account's quota and report, with this for the probe's
    /// reply.
    RefreshQuota { cli_reply: String },
    /// Stop with this error; no quota is refreshed.
    Fail { error: String },
}

/// The prompt that is sent where the caller gave none.
pub open spec fn default_prompt() -> Seq<char> {
    "Reply with exactly: OK"@
}

/// The prompt as it is sent: trimmed, and the default one where nothing
/// but white space was given.
pub open spec fn final_prompt(prompt: Seq<char>) -> Seq<char> {
    if is_blank(prompt) {
        default_prompt()
    } else {
        trimmed(prompt)
    }
}

/// The reply of a wakeup that was skipped as a duplicate.
pub open spec fn skipped_reply() -> Seq<char> {
    "Skipped duplicate wakeup request (recently executed for this account)."@
}

/// How a remaining percentage is shown: alone, or behind the one before.
pub open spec fn remaining_text(old_remaining: Option<i32>, new_remaining: i32) -> Seq<char> {
    match old_remaining {
        Some(old) => decimal(old as int) + "% -> "@ + decimal(new_remaining as int) + "%"@,
        None => decimal(new_remaining as int) + "%"@,
    }
}

/// The line that describes one window.
pub open spec fn window_change_text(
    name: Seq<char>,
    old_remaining: Option<i32>,
    new_remaining: i32,
    reset: Seq<char>,
) -> Seq<char> {
    name + " remaining "@ + remaining_text(old_remaining, new_remaining) + ", reset "@ + reset
}

/// The note on the model that the probe used.
pub open spec fn cli_model_part() -> Seq<char> {
    " Used CLI model gpt-5.3-codex (reasoning: low)."@
}

/// The echo of the probe's reply: nothing for a blank one, else the reply
/// trimmed and cut to 140 characters.
pub open spec fn cli_reply_part(cli_reply: Seq<char>) -> Seq<char> {
    if is_blank(cli_reply) {
        Seq::<char>::empty()
    } else {
        " Reply: "@ + clipped(trimmed(cli_reply), 140)
    }
}

/// The hourly percentage of a quota that may be absent.
pub open spec fn hourly_of(quota: Option<&CodexQuota>) -> Option<i32> {
    match quota {
        Some(q) => Some(q.hourly_percentage),
        None => None,
    }
}

/// The weekly percentage of a quota that may be absent.
pub open spec fn weekly_of(quota: Option<&CodexQuota>) -> Option<i32> {
    match quota {
        Some(q) => Some(q.weekly_percentage),
        None => None,
    }
}

/// The summary of a wakeup aimed at `model`. Without a new quota it says
/// only that the request completed. With one it describes the hourly window
/// for the hourly model, the weekly window for the weekly model, and both for
/// any other. `hourly_reset` and `weekly_reset` are the reset times as text.
pub open spec fn reply_text(
    model: Seq<char>,
    old_quota: Option<&CodexQuota>,
    new_quota: Option<&CodexQuota>,
    cli_reply: Seq<char>,
    hourly_reset: Seq<char>,
    weekly_reset: Seq<char>,
) -> Seq<char> {
    let tail = cli_model_part() + cli_reply_part(cli_reply);
    match new_quota {
        None => "Codex wakeup request completed."@ + tail,
        Some(quota) => {
            let hourly = window_change_text(
                "5h"@,
                hourly_of(old_quota),
                quota.hourly_percentage,
                hourly_reset,
            );
            let weekly = window_change_text(
                "Weekly"@,
                weekly_of(old_quota),
                quota.weekly_percentage,
                weekly_reset,
            );
            if model == "codex-hourly"@ {
                "Codex wakeup completed. "@ + hourly + "."@ + tail
            } else if model == "codex-weekly"@ {
                "Codex wakeup completed. "@ + weekly + "."@ + tail
            } else {
                "Codex wakeup completed. "@ + hourly + " | "@ + weekly + "."@ + tail
            }
        },
    }
}

/// `text` stands for the reset time `timestamp`: a time that the calendar
/// has a moment for is shown as month, day, hour and minute; an absent time,
/// or one beyond the calendar, as a dash.
pub open spec fn shows_reset(timestamp: Option<i64>, text: Seq<char>) -> bool {
    if timestamp is Some && has_moment(timestamp->Some_0) {
        is_moment_text(text)
    } else {
        text == "-"@
    }
}

/// The reset time of a window in local time, or a dash where there is
/// none or the calendar has no such moment.
pub fn format_reset_time(timestamp: Option<i64>) -> (text: String)
    ensures
        shows_reset(timestamp, text@),
{
    match timestamp {
        Some(ts) => match local_time_text(ts) {
            Some(text) => text,
            None => "-".to_string(),
        },
        None => "-".to_string(),
    }
}

/// Describes one window, with the reset time already as text.
pub fn describe_window_change(
    name: &str,
    old_remaining: Option<i32>,
    new_remaining: i32,
    reset: &str,
) -> (line: String)
    ensures
        line@ == window_change_text(name@, old_remaining, new_remaining, reset@),
{
    let mut line = name.to_string();
    line.append(" remaining ");
    match old_remaining {
        Some(old) => {
            line.append(decimal_text(old as i64).as_str());
            line.append("% -> ");
            line.append(decimal_text(new_remaining as i64).as_str());
            line.append("%");
        },
        None => {
            line.append(decimal_text(new_remaining as i64).as_str());
            line.append("%");
        },
    }
    line.append(", reset ");
    line.append(reset);
    assert(line@ =~= window_change_text(name@, old_remaining, new_remaining, reset@));
    line
}

fn append_tail(out: &mut String, cli_reply: &str)
    ensures
        final(out)@ == old(out)@ + (cli_model_part() + cli_reply_part(cli_reply@)),
{
    out.append(" Used CLI model gpt-5.3-codex (reasoning: low).");
    if !blank(cli_reply) {
        out.append(" Reply: ");
        out.append(trim_for_log(trim(cli_reply), 140).as_str());
    }
    assert(final(out)@ =~= old(out)@ + (cli_model_part() + cli_reply_part(cli_reply@)));
}

/// Composes the summary, with the two reset times already as text.
pub fn build_reply_with(
    model: &str,
    old_quota: Option<&CodexQuota>,
    new_quota: Option<&CodexQuota>,
    cli_reply: &str,
    hourly_reset: &str,
    weekly_reset: &str,
) -> (reply: String)
    ensures
        reply@ == reply_text(
            model@,
            old_quota,
            new_quota,
            cli_reply@,
            hourly_reset@,
            weekly_reset@,
        ),
{
    let quota = match new_quota {
        Some(quota) => quota,
        None => {
            let mut reply = "Codex wakeup request completed.".to_string();
            append_tail(&mut reply, cli_reply);
            return reply;
        },
    };
    let old_hourly = match old_quota {
        Some(q) => Some(q.hourly_percentage),
        None => None,
    };
    let old_weekly = match old_quota {
        Some(q) => Some(q.weekly_percentage),
        None => None,
    };
    let hourly = describe_window_change("5h", old_hourly, quota.hourly_percentage, hourly_reset);
    let weekly = describe_window_change(
        "Weekly",
        old_weekly,
        quota.weekly_percentage,
        weekly_reset,
    );
    let mut reply = "Codex wakeup completed. ".to_string();
    if same_text(model, "codex-hourly") {
        reply.append(hourly.as_str());
    } else if same_text(model, "codex-weekly") {
        reply.append(weekly.as_str());
    } else {
        reply.append(hourly.as_str());
        reply.append(" | ");
        reply.append(weekly.as_str());
    }
    reply.append(".");
    append_tail(&mut reply, cli_reply);
    assert(reply@ =~= reply_text(
        model@,
        old_quota,
        new_quota,
        cli_reply@,
        hourly_reset@,
        weekly_reset@,
    ));
    reply
}

/// `reply` is a summary of the wakeup: that of `reply_text` for reset texts
/// that stand for the new quota's reset times.
pub open spec fn is_reply(
    model: Seq<char>,
    old_quota: Option<&CodexQuota>,
    new_quota: Option<&CodexQuota>,
    cli_reply: Seq<char>,
    reply: Seq<char>,
) -> bool {
    match new_quota {
        Some(quota) => exists|hourly_reset: Seq<char>, weekly_reset: Seq<char>|
            shows_reset(quota.hourly_reset_time, hourly_reset) && shows_reset(
                quota.weekly_reset_time,
                weekly_reset,
            ) && reply == #[trigger] reply_text(
                model,
                old_quota,
                new_quota,
                cli_reply,
                hourly_reset,
                weekly_reset,
            ),
        None => reply == reply_text(
            model,
            old_quota,
            new_quota,
            cli_reply,
            Seq::empty(),
            Seq::empty(),
        ),
    }
}

/// Composes the summary. The reset times are shown in the machine's local
/// time.
pub fn build_reply(
    model: &str,
    old_quota: Option<&CodexQuota>,
    new_quota: Option<&CodexQuota>,
    cli_reply: &str,
) -> (reply: String)
    ensures
        is_reply(model@, old_quota, new_quota, cli_reply@, reply@),
{
    match new_quota {
        Some(quota) => {
            let hourly_reset = format_reset_time(quota.hourly_reset_time);
            let weekly_reset = format_reset_time(quota.weekly_reset_time);
            build_reply_with(
                model,
                old_quota,
                new_quota,
                cli_reply,
                hourly_reset.as_str(),
                weekly_reset.as_str(),
            )
        },
        None => build_reply_with(model, old_quota, new_quota, cli_reply, "", ""),
    }
}

/// The prompt as it is sent.
pub fn normalize_prompt(prompt: &str) -> (sent: String)
    ensures
        sent@ == final_prompt(prompt@),
{
    if blank(prompt) {
        "Reply with exactly: OK".to_string()
    } else {
        trim(prompt).to_string()
    }
}

/// The message of a wakeup for an account that the store does not hold.
pub open spec fn wakeup_account_not_found_text(account_id: Seq<char>) -> Seq<char> {
    "Codex account not found: "@ + account_id
}

/// Begins a wakeup with what the store gave for `account_id`: the account,
/// or the error that there is none, which ends the wakeup before anything
/// is reserved.
pub fn account_to_wake(found: Option<CodexAccount>, account_id: &str) -> (account: Result<
    CodexAccount,
    String,
>)
    ensures
        match found {
            Some(a) => account == Ok::<CodexAccount, String>(a),
            None => account is Err && account->Err_0@ == wakeup_account_not_found_text(
                account_id@,
            ),
        },
{
    match found {
        Some(a) => Ok(a),
        None => {
            let mut message = "Codex account not found: ".to_string();
            message.append(account_id);
            Err(message)
        },
    }
}

/// `action` is what follows a reservation asked for at `now`: a granted one
/// runs the probe with the prompt as it is sent; a denied one skips the probe
/// and goes on to the quota refresh, with the reply of a skipped duplicate.
pub open spec fn follows_reservation(
    table: Map<Seq<char>, i64>,
    account_id: Seq<char>,
    prompt: Seq<char>,
    now: i64,
    action: WakeupAction,
) -> bool {
    match action {
        WakeupAction::RunProbe { prompt: sent } => reservation_granted(table, account_id, now)
            && sent@ == final_prompt(prompt),
        WakeupAction::RefreshQuota { cli_reply } => !reservation_granted(table, account_id, now)
            && cli_reply@ == skipped_reply(),
        WakeupAction::Fail { error } => false,
    }
}

/// Decides at the time `now` what a trigger does first. The table changes
/// as the reservation says.
pub fn begin_wakeup_at(state: &mut WakeupState, account_id: &str, prompt: &str, now: i64) -> (action:
    WakeupAction)
    ensures
        final(state)@ == after_reserve(old(state)@, account_id@, now),
        follows_reservation(old(state)@, account_id@, prompt@, now, action),
{
    let sent = normalize_prompt(prompt);
    if reserve_wakeup_at(state, account_id, now) {
        WakeupAction::RunProbe { prompt: sent }
    } else {
        WakeupAction::RefreshQuota {
            cli_reply: "Skipped duplicate wakeup request (recently executed for this account).".to_string(),
        }
    }
}

/// Decides at the present time what a trigger does first.
pub fn begin_wakeup(state: &mut WakeupState, account_id: &str, prompt: &str) -> (action:
    WakeupAction)
    ensures
        exists|now: i64|
            final(state)@ == #[trigger] after_reserve(old(state)@, account_id@, now)
                && follows_reservation(old(state)@, account_id@, prompt@, now, action),
{
    let now: i64 = now_millis();
    begin_wakeup_at(state, account_id, prompt, now)
}

/// The message of a probe whose worker did not finish.
pub open spec fn background_failure_text(error: Seq<char>) -> Seq<char> {
    "Codex wakeup background task failed: "@ + error
}

/// Decides what follows the probe. `outcome` is its last message where it
/// ran, else the error it failed with, or, with `Err` on the outside, the
/// message of a worker that did not finish. After a probe that ran the quota
/// is refreshed and the reservation is left to run out. A failure stops the
/// wakeup before any refresh and gives the account's reservation back, so
/// that the next trigger is not taken for a duplicate.
pub fn probe_finished(
    state: &mut WakeupState,
    account_id: &str,
    outcome: Result<Result<String, String>, String>,
) -> (action: WakeupAction)
    ensures
        match outcome {
            Ok(Ok(message)) => action == (WakeupAction::RefreshQuota { cli_reply: message })
                && final(state)@ == old(state)@,
            Ok(Err(error)) => action == (WakeupAction::Fail { error }) && final(state)@ == old(
                state,
            )@.remove(account_id@),
            Err(error) => action is Fail && action->Fail_error@ == background_failure_text(error@)
                && final(state)@ == old(state)@.remove(account_id@),
        },
{
    match outcome {
        Ok(Ok(message)) => WakeupAction::RefreshQuota { cli_reply: message },
        Ok(Err(error)) => {
            release_wakeup_reservation(state, account_id);
            WakeupAction::Fail { error }
        },
        Err(error) => {
            release_wakeup_reservation(state, account_id);
            let mut message = "Codex wakeup background task failed: ".to_string();
            message.append(error.as_str());
            WakeupAction::Fail { error: message }
        },
    }
}

/// A quota that may be absent, by reference.
pub open spec fn by_ref(quota: &Option<CodexQuota>) -> Option<&CodexQuota> {
    match quota {
        Some(q) => Some(q),
        None => None,
    }
}

/// The quota that a refresh gave, if it gave one.
pub open spec fn refreshed_quota(refreshed: Result<CodexQuota, String>) -> Option<CodexQuota> {
    match refreshed {
        Ok(q) => Some(q),
        Err(_) => None,
    }
}

/// The quota that the report compares with: the refreshed one, or none
/// where the refresh failed, which does not fail the wakeup.
pub fn quota_after_wakeup(refreshed: Result<CodexQuota, String>) -> (quota: Option<CodexQuota>)
    ensures
        quota == refreshed_quota(refreshed),
{
    match refreshed {
        Ok(q) => Some(q),
        Err(_) => None,
    }
}

/// The report of a wakeup whose summary is `reply` and that took
/// `duration_ms` milliseconds: it carries no token counts and no trace.
pub fn wakeup_response(reply: String, duration_ms: u64) -> (response: WakeupResponse)
    ensures
        response.reply == reply,
        response.duration_ms == duration_ms,
        response.prompt_tokens is None,
        response.completion_tokens is None,
        response.total_tokens is None,
        response.trace_id is None,
        response.response_id is None,
{
    WakeupResponse {
        reply,
        prompt_tokens: None,
        completion_tokens: None,
        total_tokens: None,
        trace_id: None,
        response_id: None,
        duration_ms,
    }
}

/// Ends a wakeup whose probe ran or was skipped. `refreshed` is what the
/// quota refresh gave: a failure there does not fail the wakeup, the report
/// then says only that the request completed. The report compares the quota
/// before with the refreshed one and echoes `cli_reply`.
pub fn complete_wakeup(
    model: &str,
    old_quota: Option<&CodexQuota>,
    refreshed: Result<CodexQuota, String>,
    cli_reply: &str,
    duration_ms: u64,
) -> (response: WakeupResponse)
    ensures
        is_reply(
            model@,
            old_quota,
            by_ref(&refreshed_quota(refreshed)),
            cli_reply@,
            response.reply@,
        ),
        response.duration_ms == duration_ms,
        response.prompt_tokens is None,
        response.completion_tokens is None,
        response.total_tokens is None,
        response.trace_id is None,
        response.response_id is None,
{
    let new_quota = quota_after_wakeup(refreshed);
    let reply = match &new_quota {
        Some(quota) => build_reply(model, old_quota, Some(quota), cli_reply),
        None => build_reply(model, old_quota, None, cli_reply),
    };
    wakeup_response(reply, duration_ms)
}

/// The two windows that a wakeup can be aimed at: the hourly one, then the
/// weekly one, both recommended.
pub fn fetch_available_models() -> (models: Vec<AvailableModel>)
    ensures
        models@.len() == 2,
        models@[0].id@ == "codex-hourly"@,
        models@[0].display_name@ == "5h Window"@,
        text_of(models@[0].model_constant) == Some("hourly"@),
        models@[0].recommended == Some(true),
        models@[1].id@ == "codex-weekly"@,
        models@[1].display_name@ == "Weekly Window"@,
        text_of(models@[1].model_constant) == Some("weekly"@),
        models@[1].recommended == Some(true),
{
    let mut models: Vec<AvailableModel> = Vec::new();
    models.push(
        AvailableModel {
            id: "codex-hourly".to_string(),
            display_name: "5h Window".to_string(),
            model_constant: Some("hourly".to_string()),
            recommended: Some(true),
        },
    );
    models.push(
        AvailableModel {
            id: "codex-weekly".to_string(),
            display_name: "Weekly Window".to_string(),
            model_constant: Some("weekly".to_string()),
            recommended: Some(true),
        },
    );
    models
}

} // verus!
