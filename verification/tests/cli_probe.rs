use codex_wakeup::cli::{
    cli_arguments, cli_failure_message, cli_search_plan, codex_cli_candidates, probe_result,
    read_last_message, ProbeOutput,
    resolve_codex_cli_path, runs_through_interpreter, session_folder_name, CliCandidate,
    CliSearchEnv,
};

fn place(base: &str, parts: &[&str]) -> CliCandidate {
    CliCandidate { base: base.to_string(), parts: paths(parts) }
}

#[test]
fn search_plan_elsewhere_is_override_then_search_path() {
    let env = CliSearchEnv {
        windows: false,
        custom_path: Some(" /opt/codex ".to_string()),
        appdata: Some("ignored".to_string()),
        local_appdata: Some("ignored".to_string()),
        path_dirs: paths(&["/usr/bin", "/bin"]),
    };
    assert_eq!(
        cli_search_plan(&env),
        vec![place("/opt/codex", &[]), place("/usr/bin", &["codex"]), place("/bin", &["codex"])]
    );
}

#[test]
fn search_plan_on_windows_names_every_variant() {
    let env = CliSearchEnv {
        windows: true,
        custom_path: Some("  ".to_string()),
        appdata: Some("A".to_string()),
        local_appdata: Some("L".to_string()),
        path_dirs: paths(&["P"]),
    };
    assert_eq!(
        cli_search_plan(&env),
        vec![
            place("A", &["npm", "codex.cmd"]),
            place("A", &["npm", "codex.bat"]),
            place("A", &["npm", "codex.exe"]),
            place("A", &["npm", "codex"]),
            place("L", &["Programs", "Codex", "codex.exe"]),
            place("L", &["Programs", "codex", "codex.exe"]),
            place("P", &["codex.cmd"]),
            place("P", &["codex.bat"]),
            place("P", &["codex.exe"]),
            place("P", &["codex"]),
        ]
    );
}

#[test]
fn search_plan_of_nothing_is_empty() {
    let env = CliSearchEnv {
        windows: true,
        custom_path: None,
        appdata: None,
        local_appdata: None,
        path_dirs: Vec::new(),
    };
    assert_eq!(cli_search_plan(&env), Vec::<CliCandidate>::new());
}

fn paths(list: &[&str]) -> Vec<String> {
    list.iter().map(|p| p.to_string()).collect()
}

#[test]
fn candidates_keep_the_first_of_each_lower_case_form() {
    assert_eq!(
        codex_cli_candidates(paths(&["/a/codex", "/b/codex", "/A/Codex", "/b/codex", "/c/codex"])),
        paths(&["/a/codex", "/b/codex", "/c/codex"])
    );
    assert_eq!(codex_cli_candidates(Vec::new()), Vec::<String>::new());
}

#[test]
fn first_existing_candidate_wins() {
    let checked = vec![
        ("/a/codex".to_string(), false),
        ("/b/codex".to_string(), true),
        ("/c/codex".to_string(), true),
    ];
    assert_eq!(resolve_codex_cli_path(&checked), Ok("/b/codex".to_string()));
}

#[test]
fn missing_executable_lists_what_was_checked() {
    let checked = vec![("/a/codex".to_string(), false), ("/b/codex".to_string(), false)];
    assert_eq!(
        resolve_codex_cli_path(&checked),
        Err("Codex CLI executable not found. Checked paths: /a/codex, /b/codex".to_string())
    );
    assert_eq!(
        resolve_codex_cli_path(&Vec::new()),
        Err("Codex CLI executable not found. Checked paths: <none>".to_string())
    );
}

#[test]
fn missing_executable_lists_at_most_twelve() {
    let checked: Vec<(String, bool)> = (1..=15).map(|n| (format!("/d{}/codex", n), false)).collect();
    let listed: Vec<String> = (1..=12).map(|n| format!("/d{}/codex", n)).collect();
    assert_eq!(
        resolve_codex_cli_path(&checked),
        Err(format!("Codex CLI executable not found. Checked paths: {}", listed.join(", ")))
    );
}

#[test]
fn session_folder_is_named_by_process_and_time() {
    assert_eq!(session_folder_name(4242, 1700000000123456789), "session-4242-1700000000123456789");
    assert_eq!(session_folder_name(0, 0), "session-0-0");
    assert_eq!(
        session_folder_name(u32::MAX, u128::MAX),
        format!("session-{}-{}", u32::MAX, u128::MAX)
    );
}

#[test]
fn arguments_with_and_without_working_directory() {
    assert_eq!(
        cli_arguments("/tmp/s/last_message.txt", Some("/work"), "hello"),
        paths(&[
            "exec", "-m", "gpt-5.3-codex", "-c", "model_reasoning_effort=\"low\"",
            "--skip-git-repo-check", "--color", "never", "--output-last-message",
            "/tmp/s/last_message.txt", "-C", "/work", "hello",
        ])
    );
    let bare = cli_arguments("out", None, "p");
    assert_eq!(bare.len(), 11);
    assert_eq!(bare[9], "out");
    assert_eq!(bare[10], "p");
}

#[test]
fn failure_prefers_the_error_stream() {
    assert_eq!(
        cli_failure_message(Some(2), " out \n", " bad thing \n"),
        "Codex CLI wakeup failed (exit=2): bad thing"
    );
    assert_eq!(cli_failure_message(Some(-1), " out \n", " \n"), "Codex CLI wakeup failed (exit=-1): out");
    assert_eq!(cli_failure_message(None, "", ""), "Codex CLI wakeup failed (exit=unknown): ");
}

#[test]
fn failure_detail_is_cut_to_500_characters() {
    let noisy = "e".repeat(501);
    assert_eq!(
        cli_failure_message(Some(1), "", &noisy),
        format!("Codex CLI wakeup failed (exit=1): {}...", "e".repeat(500))
    );
}

#[test]
fn last_message_comes_from_the_file_first() {
    assert_eq!(read_last_message(Some("  from file \n"), "from stdout"), "from file");
}

#[test]
fn last_message_falls_back_to_the_output() {
    assert_eq!(read_last_message(None, "first\nsecond\n\ntokens used\n  \n"), "second");
    assert_eq!(read_last_message(Some(" \n"), "only\r\n"), "only");
    assert_eq!(read_last_message(Some(""), "a\n  tokens used  \nb tokens used"), "b tokens used");
    assert_eq!(read_last_message(None, "single"), "single");
}

#[test]
fn last_message_falls_back_to_a_fixed_sentence() {
    assert_eq!(read_last_message(None, ""), "Wakeup request sent.");
    assert_eq!(read_last_message(None, "\n\ntokens used\n"), "Wakeup request sent.");
    assert_eq!(read_last_message(Some("  "), "tokens used"), "Wakeup request sent.");
}

#[test]
fn batch_files_run_through_the_interpreter_on_windows_only() {
    assert!(runs_through_interpreter(true, Some("cmd")));
    assert!(runs_through_interpreter(true, Some("BAT")));
    assert!(!runs_through_interpreter(true, Some("exe")));
    assert!(!runs_through_interpreter(true, None));
    assert!(!runs_through_interpreter(false, Some("cmd")));
}

fn output(success: bool, code: Option<i32>, stdout: &str, stderr: &str) -> ProbeOutput {
    ProbeOutput { success, code, stdout: stdout.to_string(), stderr: stderr.to_string() }
}

#[test]
fn probe_that_did_not_start_names_the_binary() {
    assert_eq!(
        probe_result("/bin/codex", Err("permission denied".to_string()), None),
        Err("Failed to launch codex CLI wakeup (binary=/bin/codex): permission denied".to_string())
    );
}

#[test]
fn probe_that_failed_gives_code_and_detail() {
    assert_eq!(
        probe_result("/bin/codex", Ok(output(false, Some(3), "", "no auth\n")), Some("ignored")),
        Err("Codex CLI wakeup failed (exit=3): no auth".to_string())
    );
}

#[test]
fn probe_that_succeeded_gives_its_last_message() {
    assert_eq!(
        probe_result("/bin/codex", Ok(output(true, Some(0), "OK\ntokens used\n", "")), None),
        Ok("OK".to_string())
    );
    assert_eq!(
        probe_result("/bin/codex", Ok(output(true, Some(0), "ignored", "")), Some("from file")),
        Ok("from file".to_string())
    );
}
