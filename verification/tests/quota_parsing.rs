use codex_wakeup::quota::{
    account_to_refresh, extract_detail_code_from_body, extract_error_code_from_message,
    get_header_value, parse_quota_from_usage, plan_quota_refresh, quota_fetched,
    quota_from_response, quota_request, status_error_message, store_quota, store_tokens,
    token_refresh_failed, write_quota_error, write_quota_error_at, CodexAccount, CodexQuota,
    CodexTokens, RateLimitInfo, RefreshStep, UsageResponse, WindowInfo,
};

fn window(used: Option<i32>, reset_at: Option<i64>) -> WindowInfo {
    WindowInfo { used_percent: used, limit_window_seconds: None, reset_after_seconds: None, reset_at }
}

fn usage(primary: Option<WindowInfo>, secondary: Option<WindowInfo>) -> UsageResponse {
    UsageResponse {
        plan_type: None,
        rate_limit: Some(RateLimitInfo {
            allowed: None,
            limit_reached: None,
            primary_window: primary,
            secondary_window: secondary,
        }),
        code_review_rate_limit: None,
    }
}

fn account() -> CodexAccount {
    CodexAccount {
        id: "acct-1".to_string(),
        email: "someone@example.com".to_string(),
        tokens: CodexTokens { access_token: "tok".to_string(), refresh_token: Some("ref".to_string()) },
        account_id: None,
        quota: None,
        quota_error: None,
    }
}

#[test]
fn both_windows_are_normalised() {
    let body = "{\"rate_limit\":{\"primary_window\":{\"used_percent\":30,\"reset_at\":1700000000},\"secondary_window\":{\"used_percent\":10,\"reset_at\":1700600000}}}";
    let payload = usage(Some(window(Some(30), Some(1700000000))), Some(window(Some(10), Some(1700600000))));
    let quota = parse_quota_from_usage(&payload, body).unwrap();
    assert_eq!(quota.hourly_percentage, 70);
    assert_eq!(quota.hourly_reset_time, Some(1700000000));
    assert_eq!(quota.weekly_percentage, 90);
    assert_eq!(quota.weekly_reset_time, Some(1700600000));
    let raw: serde_json::Value = serde_json::from_str(body).unwrap();
    assert_eq!(quota.raw_data, Some(raw));
}

#[test]
fn remaining_is_not_clamped() {
    let quota = parse_quota_from_usage(&usage(Some(window(Some(120), None)), Some(window(Some(-5), None))), "{}").unwrap();
    assert_eq!(quota.hourly_percentage, -20);
    assert_eq!(quota.weekly_percentage, 105);
}

#[test]
fn absent_windows_have_everything_left() {
    let quota = parse_quota_from_usage(&usage(None, None), "{}").unwrap();
    assert_eq!((quota.hourly_percentage, quota.hourly_reset_time), (100, None));
    assert_eq!((quota.weekly_percentage, quota.weekly_reset_time), (100, None));
    let bare = UsageResponse { plan_type: Some("plus".to_string()), rate_limit: None, code_review_rate_limit: None };
    let quota = parse_quota_from_usage(&bare, "{}").unwrap();
    assert_eq!((quota.hourly_percentage, quota.weekly_percentage), (100, 100));
}

#[test]
fn absent_percentage_counts_as_unused() {
    let quota = parse_quota_from_usage(&usage(Some(window(None, Some(9))), None), "{}").unwrap();
    assert_eq!((quota.hourly_percentage, quota.hourly_reset_time), (100, Some(9)));
}

#[test]
fn body_that_is_no_json_leaves_raw_data_absent() {
    let quota = parse_quota_from_usage(&usage(None, None), "not json").unwrap();
    assert_eq!(quota.raw_data, None);
}

#[test]
fn percentage_beyond_i32_is_refused() {
    let edge = parse_quota_from_usage(&usage(Some(window(Some(-2147483547), None)), None), "{}").unwrap();
    assert_eq!(edge.hourly_percentage, i32::MAX);
    let refused = parse_quota_from_usage(&usage(None, Some(window(Some(i32::MIN), None))), "{}");
    assert_eq!(refused, Err("Failed to parse quota JSON: used_percent out of range".to_string()));
}

#[test]
fn detail_code_is_read_from_the_nested_field_first() {
    assert_eq!(
        extract_detail_code_from_body("{\"detail\":{\"code\":\"usage_limit_reached\"},\"code\":\"outer\"}"),
        Some("usage_limit_reached".to_string())
    );
    assert_eq!(extract_detail_code_from_body("{\"code\":\"outer\"}"), Some("outer".to_string()));
    assert_eq!(
        extract_detail_code_from_body("{\"detail\":{\"code\":7},\"code\":\"outer\"}"),
        Some("outer".to_string())
    );
    assert_eq!(extract_detail_code_from_body("{\"detail\":\"text\"}"), None);
    assert_eq!(extract_detail_code_from_body("<html>"), None);
    assert_eq!(extract_detail_code_from_body(""), None);
}

#[test]
fn error_code_is_read_from_between_marker_and_bracket() {
    assert_eq!(
        extract_error_code_from_message("API 返回错误 429 [error_code:usage_limit_reached] - {}"),
        Some("usage_limit_reached".to_string())
    );
    assert_eq!(extract_error_code_from_message("[error_code:]"), Some(String::new()));
    assert_eq!(extract_error_code_from_message("x [error_code:a] [error_code:b]"), Some("a".to_string()));
    assert_eq!(extract_error_code_from_message("[error_code:open"), None);
    assert_eq!(extract_error_code_from_message("] [error_code"), None);
    assert_eq!(extract_error_code_from_message(""), None);
}

#[test]
fn status_error_names_status_and_code() {
    let body = "{\"detail\":{\"code\":\"usage_limit_reached\"}}";
    let message = status_error_message("429 Too Many Requests", body);
    assert!(message.contains("429"));
    assert!(message.contains("[error_code:usage_limit_reached]"));
    assert_eq!(
        message,
        format!("API 返回错误 429 Too Many Requests [error_code:usage_limit_reached] - {}", body)
    );
}

#[test]
fn status_error_without_code_and_with_long_body() {
    let body = "x".repeat(250);
    let message = status_error_message("500 Internal Server Error", &body);
    assert_eq!(message, format!("API 返回错误 500 Internal Server Error - {}", "x".repeat(200)));
}

#[test]
fn written_error_carries_code_message_and_time() {
    let mut acct = account();
    write_quota_error_at(&mut acct, "failed [error_code:bad_token] now".to_string(), 42);
    let error = acct.quota_error.clone().unwrap();
    assert_eq!(error.code, Some("bad_token".to_string()));
    assert_eq!(error.message, "failed [error_code:bad_token] now");
    assert_eq!(error.timestamp, 42);
    write_quota_error(&mut acct, "plain".to_string());
    let error = acct.quota_error.clone().unwrap();
    assert_eq!((error.code, error.message.as_str()), (None, "plain"));
    assert!(error.timestamp > 1_600_000_000);
}

#[test]
fn stored_quota_clears_the_last_problem() {
    let mut acct = account();
    write_quota_error_at(&mut acct, "problem".to_string(), 1);
    let quota = CodexQuota { hourly_percentage: 70, hourly_reset_time: None, weekly_percentage: 90, weekly_reset_time: Some(3), raw_data: None };
    store_quota(&mut acct, quota.clone());
    assert_eq!(acct.quota, Some(quota));
    assert_eq!(acct.quota_error, None);
}

#[test]
fn request_carries_bearer_and_account_id() {
    let mut acct = account();
    let request = quota_request(&acct, Some("from-token".to_string())).unwrap();
    assert_eq!(request.url, "https://chatgpt.com/backend-api/wham/usage");
    assert_eq!(request.authorization, "Bearer tok");
    assert_eq!(request.accept, "application/json");
    assert_eq!(request.account_id, Some("from-token".to_string()));
    acct.account_id = Some("own".to_string());
    assert_eq!(quota_request(&acct, Some("from-token".to_string())).unwrap().account_id, Some("own".to_string()));
    acct.account_id = Some(String::new());
    assert_eq!(quota_request(&acct, Some("from-token".to_string())).unwrap().account_id, None);
    acct.account_id = None;
    assert_eq!(quota_request(&acct, None).unwrap().account_id, None);
}

#[test]
fn request_refuses_what_no_header_can_hold() {
    let mut acct = account();
    acct.tokens.access_token = "to\nken".to_string();
    assert_eq!(
        quota_request(&acct, Some("bad\u{7f}".to_string())),
        Err("Failed to build Authorization header: failed to parse header value".to_string())
    );
    acct.tokens.access_token = "tok\ten é".to_string();
    assert_eq!(
        quota_request(&acct, Some("bad\u{7f}".to_string())),
        Err("Failed to build ChatGPT-Account-Id header: failed to parse header value".to_string())
    );
    assert!(quota_request(&acct, Some("fine".to_string())).is_ok());
}

#[test]
fn response_without_success_gives_the_status_error() {
    let outcome = quota_from_response(false, "429 Too Many Requests", "{\"code\":\"slow_down\"}", Err("ignored".to_string()));
    assert_eq!(outcome, Err("API 返回错误 429 Too Many Requests [error_code:slow_down] - {\"code\":\"slow_down\"}".to_string()));
}

#[test]
fn response_with_unreadable_payload_gives_the_parse_error() {
    let outcome = quota_from_response(true, "200 OK", "[]", Err("invalid type".to_string()));
    assert_eq!(outcome, Err("Failed to parse quota JSON: invalid type".to_string()));
}

#[test]
fn response_with_payload_gives_the_quota() {
    let outcome = quota_from_response(true, "200 OK", "{}", Ok(usage(Some(window(Some(1), None)), None)));
    assert_eq!(outcome.unwrap().hourly_percentage, 99);
}

#[test]
fn refresh_plan_follows_expiry_and_refresh_token() {
    let mut acct = account();
    assert_eq!(plan_quota_refresh(&mut acct, false), RefreshStep::Fetch);
    assert_eq!(plan_quota_refresh(&mut acct, true), RefreshStep::Exchange { refresh_token: "ref".to_string() });
    assert_eq!(acct, account());
    acct.tokens.refresh_token = None;
    assert_eq!(
        plan_quota_refresh(&mut acct, true),
        RefreshStep::Fail { message: "Token 已过期且无 refresh_token".to_string() }
    );
    assert_eq!(acct.quota_error.unwrap().message, "Token 已过期且无 refresh_token");
}

#[test]
fn failed_exchange_is_recorded() {
    let mut acct = account();
    let message = token_refresh_failed(&mut acct, "401 [error_code:revoked]");
    assert_eq!(message, "Token 已过期且刷新失败: 401 [error_code:revoked]");
    let error = acct.quota_error.unwrap();
    assert_eq!(error.message, message);
    assert_eq!(error.code, Some("revoked".to_string()));
}

#[test]
fn new_tokens_replace_the_old() {
    let mut acct = account();
    let tokens = CodexTokens { access_token: "new".to_string(), refresh_token: None };
    store_tokens(&mut acct, tokens.clone());
    assert_eq!(acct.tokens, tokens);
    assert_eq!(acct.id, "acct-1");
}

#[test]
fn fetch_outcome_is_taken_into_the_account() {
    let mut acct = account();
    assert_eq!(quota_fetched(&mut acct, Err("boom".to_string())), Some("boom".to_string()));
    assert_eq!(acct.quota_error.clone().unwrap().message, "boom");
    let quota = CodexQuota { hourly_percentage: 1, hourly_reset_time: None, weekly_percentage: 2, weekly_reset_time: None, raw_data: None };
    assert_eq!(quota_fetched(&mut acct, Ok(quota.clone())), None);
    assert_eq!(acct.quota, Some(quota));
    assert_eq!(acct.quota_error, None);
}

#[test]
fn missing_header_is_shown_as_a_dash() {
    assert_eq!(get_header_value(Some("req-123")), "req-123");
    assert_eq!(get_header_value(None), "-");
}

#[test]
fn code_in_a_status_message_is_read_back() {
    let body = "{\"detail\":{\"code\":\"usage_limit_reached\"}}";
    let message = status_error_message("429 Too Many Requests", body);
    assert_eq!(extract_error_code_from_message(&message), Some("usage_limit_reached".to_string()));
    let mut acct = account();
    assert_eq!(quota_fetched(&mut acct, Err(message.clone())), Some(message));
    assert_eq!(acct.quota_error.unwrap().code, Some("usage_limit_reached".to_string()));
}

#[test]
fn refresh_of_an_unknown_account_fails() {
    assert_eq!(account_to_refresh(None, "acct-9"), Err("Account not found: acct-9".to_string()));
    assert_eq!(account_to_refresh(Some(account()), "acct-1"), Ok(account()));
}
