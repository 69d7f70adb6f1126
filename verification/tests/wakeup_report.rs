use codex_wakeup::debounce::{release_wakeup_reservation, reserve_wakeup_at, wakeup_state};
use codex_wakeup::quota::CodexQuota;
use codex_wakeup::wakeup::{
    begin_wakeup, begin_wakeup_at, build_reply, build_reply_with, describe_window_change,
    account_to_wake, complete_wakeup, fetch_available_models, format_reset_time, normalize_prompt,
    probe_finished, quota_after_wakeup, wakeup_response, WakeupAction,
};

fn is_moment_text(text: &str) -> bool {
    let shape: Vec<bool> = text.chars().map(|c| c.is_ascii_digit()).collect();
    shape == vec![true, true, false, true, true, false, true, true, false, true, true]
        && &text[2..3] == "-"
        && &text[5..6] == " "
        && &text[8..9] == ":"
}

#[test]
fn reset_time_at_the_ends_of_the_calendar() {
    assert!(is_moment_text(&format_reset_time(Some(8_210_266_876_799))));
    assert_eq!(format_reset_time(Some(8_210_266_876_800)), "-");
    assert!(is_moment_text(&format_reset_time(Some(-8_334_601_228_800))));
    assert_eq!(format_reset_time(Some(-8_334_601_228_801)), "-");
    assert_eq!(format_reset_time(Some(i64::MIN)), "-");
    assert!(is_moment_text(&format_reset_time(Some(0))));
    assert!(is_moment_text(&format_reset_time(Some(-1))));
}

#[test]
fn summary_shows_a_known_reset_time() {
    let mut now = quota(70, 90);
    now.hourly_reset_time = Some(1_700_000_000);
    let reply = build_reply("codex-hourly", None, Some(&now), "");
    let head = "Codex wakeup completed. 5h remaining 70%, reset ";
    assert!(reply.starts_with(head));
    assert!(is_moment_text(&reply[head.len()..head.len() + 11]));
    assert_eq!(&reply[head.len() + 11..], format!(".{}", MODEL_NOTE));
}

#[test]
fn skipped_probe_goes_on_to_the_refresh_and_the_report() {
    let mut state = wakeup_state();
    let first = begin_wakeup_at(&mut state, "acct", "hi", 10_000);
    assert_eq!(first, WakeupAction::RunProbe { prompt: "hi".to_string() });
    let after_probe = probe_finished(&mut state, "acct", Ok(Ok("OK".to_string())));
    assert_eq!(after_probe, WakeupAction::RefreshQuota { cli_reply: "OK".to_string() });
    let second = begin_wakeup_at(&mut state, "acct", "hi", 12_000);
    let cli_reply = match second {
        WakeupAction::RefreshQuota { cli_reply } => cli_reply,
        other => panic!("a duplicate goes on to the refresh, not to {:?}", other),
    };
    let response = complete_wakeup("codex-weekly", Some(&quota(70, 90)), Ok(quota(70, 88)), &cli_reply, 7);
    assert_eq!(
        response.reply,
        format!(
            "Codex wakeup completed. Weekly remaining 90% -> 88%, reset -.{} Reply: Skipped duplicate wakeup request (recently executed for this account).",
            MODEL_NOTE
        )
    );
    assert_eq!(response.duration_ms, 7);
}

#[test]
fn failed_refresh_does_not_fail_the_wakeup() {
    let response = complete_wakeup("codex-hourly", Some(&quota(70, 90)), Err("offline".to_string()), "OK", 3);
    assert_eq!(response.reply, format!("Codex wakeup request completed.{} Reply: OK", MODEL_NOTE));
    assert_eq!((response.duration_ms, response.total_tokens), (3, None));
}

fn quota(hourly: i32, weekly: i32) -> CodexQuota {
    CodexQuota {
        hourly_percentage: hourly,
        hourly_reset_time: None,
        weekly_percentage: weekly,
        weekly_reset_time: None,
        raw_data: None,
    }
}

const MODEL_NOTE: &str = " Used CLI model gpt-5.3-codex (reasoning: low).";

#[test]
fn window_change_with_and_without_an_old_value() {
    assert_eq!(describe_window_change("5h", Some(80), 70, "11-14 22:13"), "5h remaining 80% -> 70%, reset 11-14 22:13");
    assert_eq!(describe_window_change("Weekly", None, -20, "-"), "Weekly remaining -20%, reset -");
}

#[test]
fn absent_reset_time_is_a_dash() {
    assert_eq!(format_reset_time(None), "-");
    assert_eq!(format_reset_time(Some(i64::MAX)), "-");
}

#[test]
fn present_reset_time_is_month_day_hour_minute() {
    let text = format_reset_time(Some(1700000000));
    let shape: Vec<bool> = text.chars().map(|c| c.is_ascii_digit()).collect();
    assert_eq!(shape, vec![true, true, false, true, true, false, true, true, false, true, true]);
    assert_eq!(&text[2..3], "-");
    assert_eq!(&text[5..6], " ");
    assert_eq!(&text[8..9], ":");
}

#[test]
fn reply_without_new_quota() {
    assert_eq!(
        build_reply("codex-hourly", Some(&quota(1, 2)), None, "  OK \n"),
        format!("Codex wakeup request completed.{} Reply: OK", MODEL_NOTE)
    );
    assert_eq!(build_reply("codex-hourly", None, None, "  "), format!("Codex wakeup request completed.{}", MODEL_NOTE));
}

#[test]
fn reply_for_the_hourly_window() {
    assert_eq!(
        build_reply("codex-hourly", Some(&quota(80, 95)), Some(&quota(70, 90)), "OK"),
        format!("Codex wakeup completed. 5h remaining 80% -> 70%, reset -.{} Reply: OK", MODEL_NOTE)
    );
}

#[test]
fn reply_for_the_weekly_window() {
    assert_eq!(
        build_reply("codex-weekly", None, Some(&quota(70, 90)), ""),
        format!("Codex wakeup completed. Weekly remaining 90%, reset -.{}", MODEL_NOTE)
    );
}

#[test]
fn reply_for_any_other_window_names_both() {
    assert_eq!(
        build_reply_with("gpt", Some(&quota(80, 95)), Some(&quota(70, 90)), "done", "01-02 03:04", "05-06 07:08"),
        format!(
            "Codex wakeup completed. 5h remaining 80% -> 70%, reset 01-02 03:04 | Weekly remaining 95% -> 90%, reset 05-06 07:08.{} Reply: done",
            MODEL_NOTE
        )
    );
}

#[test]
fn long_probe_reply_is_cut_to_140_characters() {
    let long = "r".repeat(141);
    assert_eq!(
        build_reply("x", None, None, &long),
        format!("Codex wakeup request completed.{} Reply: {}...", MODEL_NOTE, "r".repeat(140))
    );
    let exact = "r".repeat(140);
    assert_eq!(
        build_reply("x", None, None, &exact),
        format!("Codex wakeup request completed.{} Reply: {}", MODEL_NOTE, exact)
    );
}

#[test]
fn blank_prompt_becomes_the_default() {
    assert_eq!(normalize_prompt(""), "Reply with exactly: OK");
    assert_eq!(normalize_prompt(" \n\t"), "Reply with exactly: OK");
    assert_eq!(normalize_prompt("  say hi  "), "say hi");
}

#[test]
fn second_trigger_two_seconds_later_is_skipped() {
    let mut state = wakeup_state();
    match begin_wakeup_at(&mut state, "acct", " ping ", 10_000) {
        WakeupAction::RunProbe { prompt } => assert_eq!(prompt, "ping"),
        other => panic!("the first trigger runs the probe, not {:?}", other),
    }
    let skipped = match begin_wakeup_at(&mut state, "acct", " ping ", 12_000) {
        WakeupAction::RefreshQuota { cli_reply } => cli_reply,
        other => panic!("the second trigger is a duplicate, not {:?}", other),
    };
    assert_eq!(skipped, "Skipped duplicate wakeup request (recently executed for this account).");
    let report = build_reply("codex-hourly", Some(&quota(70, 90)), Some(&quota(69, 90)), &skipped);
    assert!(report.contains("Skipped duplicate wakeup request"));
    assert!(report.contains("5h remaining 70% -> 69%"));
}

#[test]
fn failed_probe_gives_the_reservation_back() {
    let mut state = wakeup_state();
    assert!(matches!(begin_wakeup_at(&mut state, "acct", "", 10_000), WakeupAction::RunProbe { .. }));
    release_wakeup_reservation(&mut state, "acct");
    assert!(matches!(begin_wakeup_at(&mut state, "acct", "", 10_001), WakeupAction::RunProbe { .. }));
}

#[test]
fn triggers_by_the_clock() {
    let mut state = wakeup_state();
    assert!(matches!(begin_wakeup(&mut state, "acct", "hi"), WakeupAction::RunProbe { .. }));
    assert!(matches!(begin_wakeup(&mut state, "acct", "hi"), WakeupAction::RefreshQuota { .. }));
}

#[test]
fn response_carries_reply_and_duration_only() {
    let response = wakeup_response("done".to_string(), 1234);
    assert_eq!(response.reply, "done");
    assert_eq!(response.duration_ms, 1234);
    assert_eq!((response.prompt_tokens, response.completion_tokens, response.total_tokens), (None, None, None));
    assert_eq!((response.trace_id, response.response_id), (None, None));
}

#[test]
fn two_windows_are_on_offer() {
    let models = fetch_available_models();
    assert_eq!(models.len(), 2);
    assert_eq!((models[0].id.as_str(), models[0].display_name.as_str()), ("codex-hourly", "5h Window"));
    assert_eq!(models[0].model_constant.as_deref(), Some("hourly"));
    assert_eq!(models[0].recommended, Some(true));
    assert_eq!((models[1].id.as_str(), models[1].display_name.as_str()), ("codex-weekly", "Weekly Window"));
    assert_eq!(models[1].model_constant.as_deref(), Some("weekly"));
    assert_eq!(models[1].recommended, Some(true));
}

#[test]
fn successful_probe_keeps_the_reservation() {
    let mut state = wakeup_state();
    assert!(reserve_wakeup_at(&mut state, "acct", 1_000));
    assert_eq!(
        probe_finished(&mut state, "acct", Ok(Ok("OK".to_string()))),
        WakeupAction::RefreshQuota { cli_reply: "OK".to_string() }
    );
    assert!(!reserve_wakeup_at(&mut state, "acct", 2_000));
}

#[test]
fn failed_probe_releases_and_hands_the_error_on() {
    let mut state = wakeup_state();
    assert!(reserve_wakeup_at(&mut state, "acct", 1_000));
    assert_eq!(
        probe_finished(&mut state, "acct", Ok(Err("exit 2".to_string()))),
        WakeupAction::Fail { error: "exit 2".to_string() }
    );
    assert!(reserve_wakeup_at(&mut state, "acct", 1_001));
}

#[test]
fn unfinished_worker_releases_and_is_named() {
    let mut state = wakeup_state();
    assert!(reserve_wakeup_at(&mut state, "acct", 1_000));
    assert_eq!(
        probe_finished(&mut state, "acct", Err("cancelled".to_string())),
        WakeupAction::Fail { error: "Codex wakeup background task failed: cancelled".to_string() }
    );
    assert!(reserve_wakeup_at(&mut state, "acct", 1_001));
}

#[test]
fn failed_refresh_leaves_the_quota_unknown() {
    assert_eq!(quota_after_wakeup(Err("offline".to_string())), None);
    assert_eq!(quota_after_wakeup(Ok(quota(5, 6))), Some(quota(5, 6)));
}

#[test]
fn wakeup_of_an_unknown_account_fails() {
    assert_eq!(account_to_wake(None, "acct-9"), Err("Codex account not found: acct-9".to_string()));
}
