//! Quota normalisation: from a usage payload to the remaining percentages of
//! the two rate-limit windows, and the record of the last failure.

use crate::clock::now_seconds;
use crate::json::{as_text, get_member, json_document, json_member, json_string, parse_json};
use crate::text::{find_from, first_occurrence_from, occurs_at, prefix, take_chars, text_of};
use vstd::prelude::*;
use vstd::string::*;

verus! {

/// One rate-limit window of a usage payload.
#[derive(Debug, Clone, PartialEq, Eq)]
pub struct WindowInfo {
    pub used_percent: Option<i32>,
    pub limit_window_seconds: Option<i64>,
    pub reset_after_seconds: Option<i64>,
    pub reset_at: Option<i64>,
}

/// The rate limits of a usage payload: the primary window spans five
/// hours, the secondary one a week.
#[derive(Debug, Clone, PartialEq, Eq)]
pub struct RateLimitInfo {
    pub allowed: Option<bool>,
    pub limit_reached: Option<bool>,
    pub primary_window: Option<WindowInfo>,
    pub secondary_window: Option<WindowInfo>,
}

/// A usage payload.
#[derive(Debug, Clone, PartialEq, Eq)]
pub struct UsageResponse {
    pub plan_type: Option<String>,
    pub rate_limit: Option<RateLimitInfo>,
    pub code_review_rate_limit: Option<RateLimitInfo>,
}

/// What is left of an account's quota in each window, with the payload it
/// was read from.
#[derive(Debug, Clone, PartialEq)]
pub struct CodexQuota {
    pub hourly_percentage: i32,
    pub hourly_reset_time: Option<i64>,
    pub weekly_percentage: i32,
    pub weekly_reset_time: Option<i64>,
    pub raw_data: Option<serde_json::Value>,
}

/// The last known problem of an account.
#[derive(Debug, Clone, PartialEq, Eq)]
pub struct CodexQuotaErrorInfo {
    pub code: Option<String>,
    pub message: String,
    pub timestamp: i64,
}

/// An access token and, where there is one, the token that renews it.
#[derive(Debug, Clone, PartialEq, Eq)]
pub struct CodexTokens {
    pub access_token: String,
    pub refresh_token: Option<String>,
}

/// An account, as far as quota and wakeup read and write it.
#[derive(Debug, Clone, PartialEq)]
pub struct CodexAccount {
    pub id: String,
    pub email: String,
    pub tokens: CodexTokens,
    pub account_id: Option<String>,
    pub quota: Option<CodexQuota>,
    pub quota_error: Option<CodexQuotaErrorInfo>,
}

/// The primary window of a payload, if it has one.
pub open spec fn primary_window(usage: UsageResponse) -> Option<WindowInfo> {
    match usage.rate_limit {
        Some(limits) => limits.primary_window,
        None => None,
    }
}

/// The secondary window of a payload, if it has one.
pub open spec fn secondary_window(usage: UsageResponse) -> Option<WindowInfo> {
    match usage.rate_limit {
        Some(limits) => limits.secondary_window,
        None => None,
    }
}

/// What is left in a window: a hundred less the percentage used. A window
/// that is absent, or names no percentage, has used nothing.
pub open spec fn remaining_percent(window: Option<WindowInfo>) -> int {
    match window {
        Some(w) => match w.used_percent {
            Some(used) => 100 - used,
            None => 100,
        },
        None => 100,
    }
}

/// When a window resets, if the payload says so.
pub open spec fn reset_time(window: Option<WindowInfo>) -> Option<i64> {
    match window {
        Some(w) => w.reset_at,
        None => None,
    }
}

/// Both remaining percentages can be held in an `i32`.
pub open spec fn percentages_fit(usage: UsageResponse) -> bool {
    remaining_percent(primary_window(usage)) <= i32::MAX && remaining_percent(
        secondary_window(usage),
    ) <= i32::MAX
}

/// The message of a payload whose percentages cannot be held.
pub open spec fn out_of_range_message() -> Seq<char> {
    "Failed to parse quota JSON: used_percent out of range"@
}

/// `parsed` is what normalising `usage`, read from `raw_body`, gives: a
/// quota with both windows' remaining percentages and reset times and the
/// body as a JSON document, exactly where both percentages can be held, and
/// else the error that says so.
pub open spec fn normalizes(
    usage: UsageResponse,
    raw_body: Seq<char>,
    parsed: Result<CodexQuota, String>,
) -> bool {
    match parsed {
        Ok(quota) => {
            &&& percentages_fit(usage)
            &&& quota.hourly_percentage == remaining_percent(primary_window(usage))
            &&& quota.hourly_reset_time == reset_time(primary_window(usage))
            &&& quota.weekly_percentage == remaining_percent(secondary_window(usage))
            &&& quota.weekly_reset_time == reset_time(secondary_window(usage))
            &&& quota.raw_data == json_document(raw_body)
        },
        Err(message) => !percentages_fit(usage) && message@ == out_of_range_message(),
    }
}

fn window_remaining(window: &Option<WindowInfo>) -> (left: (i64, Option<i64>))
    ensures
        left.0 == remaining_percent(*window),
        left.1 == reset_time(*window),
{
    match window {
        Some(w) => {
            let used: i64 = match w.used_percent {
                Some(u) => u as i64,
                None => 0,
            };
            (100 - used, w.reset_at)
        },
        None => (100, None),
    }
}

/// Normalises a usage payload. Each remaining percentage is a hundred less
/// the percentage used, unclamped; a reset time is passed through. The
/// payload's text is kept as a JSON document where it is one. A percentage
/// beyond what an `i32` holds is refused.
pub fn parse_quota_from_usage(usage: &UsageResponse, raw_body: &str) -> (parsed: Result<
    CodexQuota,
    String,
>)
    ensures
        normalizes(*usage, raw_body@, parsed),
{
    let (hourly, weekly) = match &usage.rate_limit {
        Some(limits) => (
            window_remaining(&limits.primary_window),
            window_remaining(&limits.secondary_window),
        ),
        None => (window_remaining(&None), window_remaining(&None)),
    };
    if hourly.0 > 2147483647 || weekly.0 > 2147483647 {
        return Err("Failed to parse quota JSON: used_percent out of range".to_string());
    }
    let raw_data = parse_json(raw_body);
    Ok(
        CodexQuota {
            hourly_percentage: hourly.0 as i32,
            hourly_reset_time: hourly.1,
            weekly_percentage: weekly.0 as i32,
            weekly_reset_time: weekly.1,
            raw_data,
        },
    )
}

/// The text under `key` in `value`, where `value` is an object whose member
/// of that name is a string.
pub open spec fn member_string(value: serde_json::Value, key: Seq<char>) -> Option<Seq<char>> {
    match json_member(value, key) {
        Some(member) => json_string(member),
        None => None,
    }
}

/// The machine code that an error body names: the string at `detail.code`,
/// else the string at `code`, where the body is a JSON document.
pub open spec fn detail_code(body: Seq<char>) -> Option<Seq<char>> {
    match json_document(body) {
        Some(document) => {
            let nested = match json_member(document, "detail"@) {
                Some(detail) => member_string(detail, "code"@),
                None => None,
            };
            if nested is Some {
                nested
            } else {
                member_string(document, "code"@)
            }
        },
        None => None,
    }
}

fn member_text(value: &serde_json::Value, key: &str) -> (text: Option<String>)
    ensures
        text_of(text) == member_string(*value, key@),
{
    match get_member(value, key) {
        Some(member) => as_text(&member),
        None => None,
    }
}

/// Reads the machine code out of an error body.
pub fn extract_detail_code_from_body(body: &str) -> (code: Option<String>)
    ensures
        text_of(code) == detail_code(body@),
{
    let document = match parse_json(body) {
        Some(document) => document,
        None => {
            return None;
        },
    };
    let nested = match get_member(&document, "detail") {
        Some(detail) => member_text(&detail, "code"),
        None => None,
    };
    if nested.is_some() {
        return nested;
    }
    member_text(&document, "code")
}

/// The text in front of a machine code inside a message.
pub open spec fn code_marker() -> Seq<char> {
    "[error_code:"@
}

/// The machine code that a message carries: what stands between the first
/// marker and the first closing bracket behind it.
pub open spec fn error_code_in(message: Seq<char>) -> Option<Seq<char>> {
    if exists|i: int| first_occurrence_from(message, code_marker(), 0, i) {
        let start = choose|i: int| first_occurrence_from(message, code_marker(), 0, i);
        let from = start + code_marker().len();
        if exists|e: int| first_occurrence_from(message, seq![']'], from, e) {
            let end = choose|e: int| first_occurrence_from(message, seq![']'], from, e);
            Some(message.subrange(from, end))
        } else {
            None
        }
    } else {
        None
    }
}

/// Reads the machine code out of a message.
pub fn extract_error_code_from_message(message: &str) -> (code: Option<String>)
    ensures
        text_of(code) == error_code_in(message@),
{
    let marker = "[error_code:";
    proof {
        reveal_strlit("[error_code:");
        reveal_strlit("]");
        assert("]"@ =~= seq![']']);
    }
    let start: usize = match find_from(message, marker, 0) {
        Some(start) => start,
        None => {
            return None;
        },
    };
    assert(first_occurrence_from(message@, code_marker(), 0, start as int));
    let ghost chosen = choose|i: int| first_occurrence_from(message@, code_marker(), 0, i);
    assert(chosen == start);
    let total: usize = message.unicode_len();
    assert(code_marker().len() == 12);
    assert(start + 12 <= total);
    let from: usize = start + 12;
    let end: usize = match find_from(message, "]", from) {
        Some(end) => end,
        None => {
            return None;
        },
    };
    assert(first_occurrence_from(message@, seq![']'], from as int, end as int));
    let ghost chosen_end = choose|e: int| first_occurrence_from(message@, seq![']'], from as int, e);
    assert(chosen_end == end);
    Some(message.substring_char(from, end).to_string())
}

/// The message of a response whose status is no success: the status, the
/// machine code of the body where it names one, and at most two hundred
/// characters of the body.
pub open spec fn status_error_text(status: Seq<char>, code: Option<Seq<char>>, body: Seq<char>) -> Seq<
    char,
> {
    let tag = match code {
        Some(c) => " [error_code:"@ + c + "]"@,
        None => Seq::<char>::empty(),
    };
    "API 返回错误 "@ + status + tag + " - "@ + prefix(body, 200)
}

/// The message of a response whose status is no success names the status
/// right behind its heading and, where the body names a machine code, that
/// code between the marker and a closing bracket right behind the status.
pub proof fn law_status_error_names_status_and_code(
    status: Seq<char>,
    code: Seq<char>,
    body: Seq<char>,
)
    ensures
        ({
            let text = status_error_text(status, Some(code), body);
            let heading = "API 返回错误 "@;
            &&& occurs_at(text, status, heading.len() as int)
            &&& occurs_at(
                text,
                " [error_code:"@ + code + "]"@,
                (heading.len() + status.len()) as int,
            )
        }),
{
    let text = status_error_text(status, Some(code), body);
    let heading = "API 返回错误 "@;
    let tag = " [error_code:"@ + code + "]"@;
    let from = heading.len() as int;
    assert(text.subrange(from, from + status.len()) =~= status);
    assert(text.subrange(from + status.len(), from + status.len() + tag.len()) =~= tag);
}

/// The machine code that is read back out of a status message is the one
/// that went into it, for a status without an opening bracket and a code
/// without a closing one.
pub proof fn law_status_error_code_is_read_back(
    status: Seq<char>,
    code: Seq<char>,
    body: Seq<char>,
)
    requires
        !status.contains('['),
        !code.contains(']'),
    ensures
        error_code_in(status_error_text(status, Some(code), body)) == Some(code),
{
    reveal_strlit("API 返回错误 ");
    reveal_strlit(" [error_code:");
    reveal_strlit("[error_code:");
    reveal_strlit("]");
    reveal_strlit(" - ");
    let text = status_error_text(status, Some(code), body);
    let heading = "API 返回错误 "@;
    let marker = code_marker();
    let start = (heading.len() + status.len() + 1) as int;
    let from = start + marker.len();
    let end = from + code.len();
    assert(heading.len() == 9);
    assert(marker.len() == 12);
    assert(text.subrange(start, start + marker.len()) =~= marker);
    assert forall|j: int| 0 <= j < start implies !occurs_at(text, marker, j) by {
        if occurs_at(text, marker, j) {
            assert(text.subrange(j, j + marker.len())[0] == marker[0]);
            assert(text[j] == '[');
            if j >= heading.len() && j < heading.len() + status.len() {
                assert(status[j - heading.len()] == '[');
                assert(status.contains('['));
            }
        }
    }
    assert(first_occurrence_from(text, marker, 0, start));
    let chosen = choose|i: int| first_occurrence_from(text, marker, 0, i);
    assert(chosen == start);
    assert(text.subrange(end, end + 1) =~= seq![']']);
    assert forall|j: int| from <= j < end implies !occurs_at(text, seq![']'], j) by {
        if occurs_at(text, seq![']'], j) {
            assert(text.subrange(j, j + 1)[0] == ']');
            assert(code[j - from] == ']');
            assert(code.contains(']'));
        }
    }
    assert(first_occurrence_from(text, seq![']'], from, end));
    let chosen_end = choose|e: int| first_occurrence_from(text, seq![']'], from, e);
    assert(chosen_end == end);
    assert(text.subrange(from, end) =~= code);
}

/// Composes the message of a response whose status is no success.
pub fn status_error_message(status: &str, body: &str) -> (message: String)
    ensures
        message@ == status_error_text(status@, detail_code(body@), body@),
{
    let mut message = "API 返回错误 ".to_string();
    message.append(status);
    match extract_detail_code_from_body(body) {
        Some(code) => {
            message.append(" [error_code:");
            message.append(code.as_str());
            message.append("]");
        },
        None => {
            assert(message@ + Seq::<char>::empty() =~= message@);
        },
    }
    message.append(" - ");
    message.append(take_chars(body, 200));
    assert(message@ =~= status_error_text(status@, detail_code(body@), body@));
    message
}

/// Records `message` as the account's last problem, taken at `timestamp`,
/// with the machine code that the message carries.
pub fn write_quota_error_at(account: &mut CodexAccount, message: String, timestamp: i64)
    ensures
        final(account).quota_error is Some,
        final(account).quota_error->Some_0.message == message,
        final(account).quota_error->Some_0.timestamp == timestamp,
        text_of(final(account).quota_error->Some_0.code) == error_code_in(message@),
        final(account).id == old(account).id,
        final(account).email == old(account).email,
        final(account).tokens == old(account).tokens,
        final(account).account_id == old(account).account_id,
        final(account).quota == old(account).quota,
{
    let code = extract_error_code_from_message(message.as_str());
    account.quota_error = Some(CodexQuotaErrorInfo { code, message, timestamp });
}

/// Records `message` as the account's last problem, taken now.
pub fn write_quota_error(account: &mut CodexAccount, message: String)
    ensures
        final(account).quota_error is Some,
        final(account).quota_error->Some_0.message == message,
        text_of(final(account).quota_error->Some_0.code) == error_code_in(message@),
        final(account).id == old(account).id,
        final(account).email == old(account).email,
        final(account).tokens == old(account).tokens,
        final(account).account_id == old(account).account_id,
        final(account).quota == old(account).quota,
{
    let timestamp: i64 = now_seconds();
    write_quota_error_at(account, message, timestamp);
}

/// Takes a fetched quota into the account: it replaces the one before, and
/// the last problem is cleared.
pub fn store_quota(account: &mut CodexAccount, quota: CodexQuota)
    ensures
        final(account).quota == Some(quota),
        final(account).quota_error is None,
        final(account).id == old(account).id,
        final(account).email == old(account).email,
        final(account).tokens == old(account).tokens,
        final(account).account_id == old(account).account_id,
{
    account.quota = Some(quota);
    account.quota_error = None;
}

/// A response header as it is logged: its text, or a dash where the
/// response has none of that name or its value is no text.
pub fn get_header_value(found: Option<&str>) -> (shown: String)
    ensures
        shown@ == match found {
            Some(value) => value@,
            None => "-"@,
        },
{
    match found {
        Some(value) => value.to_string(),
        None => "-".to_string(),
    }
}

/// The address that usage is asked of.
pub open spec fn usage_url() -> Seq<char> {
    "https://chatgpt.com/backend-api/wham/usage"@
}

/// A character that a header value may hold: a tab, or anything from the
/// space upwards but the delete character.
pub open spec fn is_header_char(c: char) -> bool {
    let n = c as u32;
    n >= 32 && n != 127 || n == 9
}

/// A text that a header value may hold.
pub open spec fn is_header_text(text: Seq<char>) -> bool {
    forall|i: int| 0 <= i < text.len() ==> is_header_char(#[trigger] text[i])
}

/// Calls `reqwest::header::HeaderValue::from_str` and says whether it
/// took the text. It refuses a text with a byte below 32 other than the tab,
/// or with the byte 127; every byte of a character beyond ASCII is above
/// that, so the test is one on characters.
#[verifier::external_body]
pub(crate) fn header_value_accepted(text: &str) -> (accepted: bool)
    ensures
        accepted == is_header_text(text@),
{
    reqwest::header::HeaderValue::from_str(text).is_ok()
}

/// The request that asks for an account's usage.
#[derive(Debug, Clone, PartialEq, Eq)]
pub struct QuotaRequest {
    pub url: String,
    pub authorization: String,
    pub accept: String,
    pub account_id: Option<String>,
}

/// The authorization header of an access token.
pub open spec fn bearer(access_token: Seq<char>) -> Seq<char> {
    "Bearer "@ + access_token
}

/// The provider's account id that goes with a request: the account's own
/// where it has one, else the one read from the token; an empty one counts
/// for none.
pub open spec fn request_account_id(
    own: Option<Seq<char>>,
    from_token: Option<Seq<char>>,
) -> Option<Seq<char>> {
    let id = if own is Some {
        own
    } else {
        from_token
    };
    if id is Some && id->Some_0.len() > 0 {
        id
    } else {
        None
    }
}

/// `built` is the request for usage with the given token and ids, or the
/// error of the first header that cannot be built: the authorization, then
/// the account id.
pub open spec fn builds_request(
    access_token: Seq<char>,
    own: Option<Seq<char>>,
    from_token: Option<Seq<char>>,
    built: Result<QuotaRequest, String>,
) -> bool {
    let id = request_account_id(own, from_token);
    match built {
        Ok(request) => {
            &&& is_header_text(bearer(access_token))
            &&& id is Some ==> is_header_text(id->Some_0)
            &&& request.url@ == usage_url()
            &&& request.authorization@ == bearer(access_token)
            &&& request.accept@ == "application/json"@
            &&& text_of(request.account_id) == id
        },
        Err(message) => if !is_header_text(bearer(access_token)) {
            message@ == "Failed to build Authorization header: failed to parse header value"@
        } else {
            id is Some && !is_header_text(id->Some_0) && message@
                == "Failed to build ChatGPT-Account-Id header: failed to parse header value"@
        },
    }
}

/// Builds the request for an account's usage. `token_account_id` is the
/// provider's account id as read from the access token, if it names one.
pub fn quota_request(account: &CodexAccount, token_account_id: Option<String>) -> (built: Result<
    QuotaRequest,
    String,
>)
    ensures
        builds_request(
            account.tokens.access_token@,
            text_of(account.account_id),
            text_of(token_account_id),
            built,
        ),
{
    let mut authorization = "Bearer ".to_string();
    authorization.append(account.tokens.access_token.as_str());
    if !header_value_accepted(authorization.as_str()) {
        return Err(
            "Failed to build Authorization header: failed to parse header value".to_string(),
        );
    }
    let id = match &account.account_id {
        Some(own) => Some(own.clone()),
        None => token_account_id,
    };
    let account_id = match id {
        Some(id) => {
            if id.as_str().unicode_len() == 0 {
                None
            } else if header_value_accepted(id.as_str()) {
                Some(id)
            } else {
                return Err(
                    "Failed to build ChatGPT-Account-Id header: failed to parse header value".to_string(),
                );
            }
        },
        None => None,
    };
    Ok(
        QuotaRequest {
            url: "https://chatgpt.com/backend-api/wham/usage".to_string(),
            authorization,
            accept: "application/json".to_string(),
            account_id,
        },
    )
}

/// `outcome` is what a response comes to: for a status that is no success
/// the status message; for a body that is no usage payload the parser's
/// complaint; else the normalised quota.
pub open spec fn reads_response(
    success: bool,
    status: Seq<char>,
    body: Seq<char>,
    usage: Result<UsageResponse, String>,
    outcome: Result<CodexQuota, String>,
) -> bool {
    if !success {
        outcome is Err && outcome->Err_0@ == status_error_text(status, detail_code(body), body)
    } else {
        match usage {
            Ok(payload) => normalizes(payload, body, outcome),
            Err(complaint) => outcome is Err && outcome->Err_0@ == "Failed to parse quota JSON: "@
                + complaint@,
        }
    }
}

/// Turns a response into a quota or an error. `success` says whether the
/// status was one, `status` is the status as text, `usage` what reading the
/// body as a usage payload gave.
pub fn quota_from_response(
    success: bool,
    status: &str,
    body: &str,
    usage: Result<UsageResponse, String>,
) -> (outcome: Result<CodexQuota, String>)
    ensures
        reads_response(success, status@, body@, usage, outcome),
{
    if !success {
        return Err(status_error_message(status, body));
    }
    match usage {
        Ok(payload) => parse_quota_from_usage(&payload, body),
        Err(complaint) => {
            let mut message = "Failed to parse quota JSON: ".to_string();
            message.append(complaint.as_str());
            Err(message)
        },
    }
}

/// The message of a refresh for an account that the store does not hold.
pub open spec fn account_not_found_text(account_id: Seq<char>) -> Seq<char> {
    "Account not found: "@ + account_id
}

/// Begins a refresh with what the store gave for `account_id`: the
/// account, or the error that there is none.
pub fn account_to_refresh(found: Option<CodexAccount>, account_id: &str) -> (account: Result<
    CodexAccount,
    String,
>)
    ensures
        match found {
            Some(a) => account == Ok::<CodexAccount, String>(a),
            None => account is Err && account->Err_0@ == account_not_found_text(account_id@),
        },
{
    match found {
        Some(a) => Ok(a),
        None => {
            let mut message = "Account not found: ".to_string();
            message.append(account_id);
            Err(message)
        },
    }
}

/// What a quota refresh does next.
#[derive(Debug, Clone, PartialEq, Eq)]
pub enum RefreshStep {
    /// The access token is good: fetch the quota.
    Fetch,
    /// The access token has expired: exchange this refresh token first.
    Exchange { refresh_token: String },
    /// The access token has expired and cannot be renewed.
    Fail { message: String },
}

/// The message of an expired token that comes without a refresh token.
pub open spec fn no_refresh_token_message() -> Seq<char> {
    "Token 已过期且无 refresh_token"@
}

/// The message of an expired token whose exchange failed with `error`.
pub open spec fn refresh_failed_message(error: Seq<char>) -> Seq<char> {
    "Token 已过期且刷新失败: "@ + error
}

/// The account but for its last problem.
pub open spec fn same_but_error(before: CodexAccount, after: CodexAccount) -> bool {
    &&& after.id == before.id
    &&& after.email == before.email
    &&& after.tokens == before.tokens
    &&& after.account_id == before.account_id
    &&& after.quota == before.quota
}

/// `after` records `message`, with the code it carries, as the last problem
/// of the account `before`.
pub open spec fn records_error(before: CodexAccount, after: CodexAccount, message: Seq<char>) -> bool {
    &&& same_but_error(before, after)
    &&& after.quota_error is Some
    &&& after.quota_error->Some_0.message@ == message
    &&& text_of(after.quota_error->Some_0.code) == error_code_in(message)
}

/// `after` is the account `before` with `quota` in the place of the one it
/// had and without a last problem.
pub open spec fn takes_quota(before: CodexAccount, after: CodexAccount, quota: CodexQuota) -> bool {
    &&& after.quota == Some(quota)
    &&& after.quota_error is None
    &&& after.id == before.id
    &&& after.email == before.email
    &&& after.tokens == before.tokens
    &&& after.account_id == before.account_id
}

/// Decides how a refresh begins. `expired` says whether the access token
/// has expired. A good token is used as it is; an expired one is exchanged
/// where the account has a refresh token; without one the refresh fails and
/// the account records why.
pub fn plan_quota_refresh(account: &mut CodexAccount, expired: bool) -> (step: RefreshStep)
    ensures
        match step {
            RefreshStep::Fetch => !expired && *final(account) == *old(account),
            RefreshStep::Exchange { refresh_token } => expired && old(account).tokens.refresh_token
                == Some(refresh_token) && *final(account) == *old(account),
            RefreshStep::Fail { message } => expired && old(account).tokens.refresh_token is None
                && message@ == no_refresh_token_message() && records_error(
                *old(account),
                *final(account),
                no_refresh_token_message(),
            ),
        },
{
    if !expired {
        return RefreshStep::Fetch;
    }
    let token = match &account.tokens.refresh_token {
        Some(token) => Some(token.clone()),
        None => None,
    };
    match token {
        Some(refresh_token) => RefreshStep::Exchange { refresh_token },
        None => {
            write_quota_error(account, "Token 已过期且无 refresh_token".to_string());
            RefreshStep::Fail { message: "Token 已过期且无 refresh_token".to_string() }
        },
    }
}

/// Takes the tokens that an exchange gave into the account.
pub fn store_tokens(account: &mut CodexAccount, tokens: CodexTokens)
    ensures
        final(account).tokens == tokens,
        final(account).id == old(account).id,
        final(account).email == old(account).email,
        final(account).account_id == old(account).account_id,
        final(account).quota == old(account).quota,
        final(account).quota_error == old(account).quota_error,
{
    account.tokens = tokens;
}

/// Records that the exchange of the refresh token failed with `error`, and
/// returns the message that the refresh fails with.
pub fn token_refresh_failed(account: &mut CodexAccount, error: &str) -> (message: String)
    ensures
        message@ == refresh_failed_message(error@),
        records_error(*old(account), *final(account), refresh_failed_message(error@)),
{
    let mut message = "Token 已过期且刷新失败: ".to_string();
    message.append(error);
    write_quota_error(account, message.clone());
    message
}

/// Takes the outcome of a fetch into the account: a quota replaces the one
/// before and clears the last problem; an error is recorded as the last
/// problem and handed back.
pub fn quota_fetched(account: &mut CodexAccount, outcome: Result<CodexQuota, String>) -> (failure:
    Option<String>)
    ensures
        match outcome {
            Ok(quota) => failure is None && takes_quota(*old(account), *final(account), quota),
            Err(message) => failure == Some(message) && records_error(
                *old(account),
                *final(account),
                message@,
            ),
        },
{
    match outcome {
        Ok(quota) => {
            store_quota(account, quota);
            None
        },
        Err(message) => {
            write_quota_error(account, message.clone());
            Some(message)
        },
    }
}

} // verus!
