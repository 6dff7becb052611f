use fast_tools::edit::{
    after_verify, after_write, plan_edit, AfterWrite, EditParams, EditPlan, FileProbe, VerifyOutcome,
};
use fast_tools::git::{finish_snapshot, read_status, GitRun};
use fast_tools::grep::{clamp_range, search_context, SourceFile};
use fast_tools::hooks::{route_pre_tool, route_stop_hook, Artifact, PreToolPayload, ToolArgs, ToolCall};
use fast_tools::poll::{poll_step, PollConfig, PollStep, TargetState};
use fast_tools::style::{check_and_fix_content, StyleReport};
use fast_tools::view::{view_batch_files, view_single_file, FileSource, ViewFile, ViewOptions};

fn text_file(path: &str, content: &str) -> ViewFile {
    ViewFile { path: path.to_string(), source: FileSource::Text(content.to_string()) }
}

fn numbered_lines(n: usize) -> String {
    (1..=n).map(|i| format!("line {}", i)).collect::<Vec<_>>().join("\n")
}

fn run_command(cmd: &str, step: Option<i64>) -> PreToolPayload {
    PreToolPayload {
        tool_call: Some(ToolCall {
            name: "run_command".to_string(),
            args: Some(ToolArgs { command_line: Some(cmd.to_string()) }),
        }),
        step_idx: step,
        conversation_id: None,
        workspace_paths: None,
    }
}

fn params(target: &str, replacement: &str, allow_multiple: bool, verify: Option<&str>, rollback: bool) -> EditParams {
    EditParams {
        target_file: "code.rs".to_string(),
        target_content: target.to_string(),
        replacement_content: replacement.to_string(),
        allow_multiple,
        verify_command: verify.map(|s| s.to_string()),
        rollback_on_failure: rollback,
        cwd: None,
    }
}

#[test]
fn test_view_single_file_contract() {
    let f = text_file("sample.txt", "alpha\nbeta\ngamma\n");
    let opts = ViewOptions { line_numbers: true, ..Default::default() };
    let result = view_single_file(&f, &opts).expect("view_single_file failed");
    assert!(result.contains("1: alpha"));
    assert!(result.contains("2: beta"));
    assert!(result.contains("3: gamma"));
}

#[test]
fn test_view_sliced_range_contract() {
    let f = text_file("lines.txt", &numbered_lines(20));
    let opts = ViewOptions { start_line: Some(5), end_line: Some(8), line_numbers: true, ..Default::default() };
    let result = view_single_file(&f, &opts).expect("view_single_file failed");
    assert!(result.contains("5: line 5"));
    assert!(result.contains("8: line 8"));
    assert!(!result.contains("4: line 4"));
    assert!(!result.contains("9: line 9"));
}

#[test]
fn test_view_batch_contract() {
    let files = vec![text_file("a.txt", "content_a"), text_file("b.txt", "content_b")];
    let opts = ViewOptions::default();
    let batch_output = view_batch_files(&files, &opts, 1024 * 1024);
    assert!(batch_output.contains("File [1/2]"));
    assert!(batch_output.contains("content_a"));
    assert!(batch_output.contains("File [2/2]"));
    assert!(batch_output.contains("content_b"));
}

#[test]
fn test_grep_boundary_clamping_contract() {
    let files = vec![SourceFile { path: "short.txt".to_string(), content: "one\ntwo\ntarget\nfour\nfive\n".to_string() }];
    let matches = search_context(&files, "target", 10, 5, false, true)
        .expect("search_context must succeed with boundary clamping");
    assert_eq!(matches.len(), 1);
    let m = &matches[0];
    assert_eq!(m.line_number, 3);
    assert_eq!(m.start_line, 1);
    assert_eq!(m.end_line, 5);
    assert!(m.snippet.contains(">   3: target"));
}

#[test]
fn test_poll_service_live_pid_contract() {
    let config = PollConfig { pid: Some(4242), port: None, state: TargetState::Alive, timeout_ms: 500, interval_ms: 50 };
    match poll_step(&config, 0, true, false) {
        PollStep::Finish(report) => {
            assert!(report.success);
            assert!(report.elapsed_ms < 500);
        }
        PollStep::Wait(_) => panic!("a live pid must satisfy Alive at once"),
    }
}

#[test]
fn test_poll_service_dead_pid_contract() {
    let config = PollConfig { pid: Some(9999999), port: None, state: TargetState::Terminated, timeout_ms: 500, interval_ms: 50 };
    match poll_step(&config, 0, false, false) {
        PollStep::Finish(report) => assert!(report.success),
        PollStep::Wait(_) => panic!("a dead pid must satisfy Terminated at once"),
    }
}

#[test]
fn test_edit_and_verify_success_contract() {
    let p = params("old_name", "new_name", false, Some("test -f code.rs"), true);
    let original = "fn old_name() {}";
    let (new_content, n) = match plan_edit(&p, &FileProbe::Content(original.to_string())) {
        EditPlan::Write { new_content, replacements } => (new_content, replacements),
        EditPlan::Stop(r) => panic!("unexpected stop: {}", r.message),
    };
    assert_eq!(new_content, "fn new_name() {}");
    match after_write(&p, n, None) {
        AfterWrite::Verify(cmd) => assert_eq!(cmd, "test -f code.rs"),
        AfterWrite::Stop(_) => panic!("a verification command must run"),
    }
    let outcome = VerifyOutcome::Exited { success: true, code: Some(0), stdout: String::new(), stderr: String::new() };
    let decision = after_verify(&p, n, original, &outcome);
    assert!(decision.report.success);
    assert!(decision.report.verified);
    assert!(!decision.report.rolled_back);
    assert!(decision.restore.is_none());
}

#[test]
fn test_edit_and_verify_rollback_contract() {
    let original = "fn stable_function() {}";
    let p = params("stable_function", "broken_syntax", false, Some("false"), true);
    let n = match plan_edit(&p, &FileProbe::Content(original.to_string())) {
        EditPlan::Write { replacements, .. } => replacements,
        EditPlan::Stop(r) => panic!("unexpected stop: {}", r.message),
    };
    let outcome = VerifyOutcome::Exited { success: false, code: Some(1), stdout: String::new(), stderr: String::new() };
    let decision = after_verify(&p, n, original, &outcome);
    assert!(!decision.report.success);
    assert!(!decision.report.verified);
    assert!(decision.report.rolled_back);
    assert_eq!(decision.restore.as_deref(), Some(original));
}

#[test]
fn test_edit_rejects_missing_target() {
    let p = params("nonexistent", "replacement", false, None, true);
    match plan_edit(&p, &FileProbe::Content("hello world".to_string())) {
        EditPlan::Stop(report) => {
            assert!(!report.success);
            assert!(report.message.contains("Target content not found"));
        }
        EditPlan::Write { .. } => panic!("nothing to replace"),
    }
}

#[test]
fn test_git_snapshot_contract() {
    let status = GitRun::Finished { success: true, stdout: "## No commits yet on main\n".to_string(), stderr: String::new() };
    let summary = read_status(&status).expect("git status must succeed");
    let diff = GitRun::Finished { success: true, stdout: String::new(), stderr: String::new() };
    let snap = finish_snapshot(summary, &diff).expect("get_working_tree_snapshot failed");
    assert_eq!(snap.branch, "main");
    assert!(snap.clean);
}

#[test]
fn test_hook_router_pre_tool_contract() {
    let payload = run_command("git status", Some(4));
    let response = route_pre_tool(Some(&payload));
    assert_eq!(response.decision, "allow");
    assert!(response.overwrite.is_some());
    let overwrite = response.overwrite.unwrap();
    assert_eq!(overwrite.command_line, "fast-tools git-snapshot");
}

#[test]
fn test_hook_router_intercepts_cat() {
    let payload = run_command("cat src/lib.rs", Some(10));
    let response = route_pre_tool(Some(&payload));
    assert_eq!(response.decision, "allow");
    assert!(response.overwrite.is_some());
    let new_cmd = response.overwrite.unwrap().command_line;
    assert_eq!(new_cmd, "fast-tools view src/lib.rs");
}

#[test]
fn test_hook_router_intercepts_lsof() {
    let payload = run_command("lsof -p 12345", Some(11));
    let response = route_pre_tool(Some(&payload));
    assert_eq!(response.decision, "allow");
    assert!(response.overwrite.is_some());
    let new_cmd = response.overwrite.unwrap().command_line;
    assert_eq!(new_cmd, "fast-tools poll --pid 12345 --state alive --timeout 5000");
}

#[test]
fn test_hook_router_intercepts_os_kill_python() {
    let payload = run_command("python3 -c \"import os; os.kill(7788, 0)\"", Some(12));
    let response = route_pre_tool(Some(&payload));
    assert_eq!(response.decision, "allow");
    assert!(response.overwrite.is_some());
    let new_cmd = response.overwrite.unwrap().command_line;
    assert_eq!(new_cmd, "fast-tools poll --pid 7788 --state alive --timeout 5000");
}

#[test]
fn test_view_start_past_preview_cap() {
    let f = text_file("long.txt", &numbered_lines(6000));
    let opts = ViewOptions { start_line: Some(3000), end_line: None, line_numbers: true, ..Default::default() };
    let result = view_single_file(&f, &opts).expect("view_single_file failed");
    assert!(result.contains("3000: line 3000"));
    assert!(result.contains("3050: line 3050"));
    assert!(result.contains("3999: line 3999"));
    assert!(!result.contains("4000: line 4000"));
    assert!(!result.contains("[Showing first 1000 lines"));
    assert!(result.contains("[Showing lines 3000-3999 of 6000 lines (capped preview)."));
}

#[test]
fn test_view_start_at_beginning_on_large_file_is_capped() {
    let f = text_file("huge.txt", &numbered_lines(6000));
    let opts = ViewOptions { start_line: Some(1), end_line: None, line_numbers: true, ..Default::default() };
    let result = view_single_file(&f, &opts).expect("view_single_file failed");
    assert!(result.contains("   1: line 1"));
    assert!(result.contains("1000: line 1000"));
    assert!(!result.contains("1001: line 1001"));
    assert!(result.contains("[Showing first 1000 lines of 6000 lines."));
}

#[test]
fn test_view_batch_enforces_byte_budget() {
    let code_a = "pub fn function_a() {\n    println!(\"hello\");\n}\n".repeat(20);
    let code_b = "pub fn function_b() {\n    println!(\"world\");\n}\n".repeat(20);
    let files = vec![text_file("a.rs", &code_a), text_file("b.rs", &code_b)];
    let opts = ViewOptions::default();
    let batch_output = view_batch_files(&files, &opts, 200);
    assert!(batch_output.contains("[Aggregate budget reached; displaying outline]"));
}

#[test]
fn test_grep_clamp_range_overflow_safety() {
    let (start, end) = clamp_range(5, usize::MAX, 10);
    assert_eq!(start, 1);
    assert_eq!(end, 10);
}

#[test]
fn test_poll_service_rejects_empty_config() {
    let config = PollConfig { pid: None, port: None, state: TargetState::Ready, timeout_ms: 100, interval_ms: 10 };
    match poll_step(&config, 0, false, false) {
        PollStep::Finish(report) => {
            assert!(!report.success);
            assert!(report.message.contains("Neither pid nor port"));
        }
        PollStep::Wait(_) => panic!("nothing to poll must not wait"),
    }
}

#[test]
fn test_edit_and_verify_no_command_reports_unverified() {
    let p = params("before", "after", false, None, false);
    let n = match plan_edit(&p, &FileProbe::Content("before edit".to_string())) {
        EditPlan::Write { new_content, replacements } => {
            assert_eq!(new_content, "after edit");
            replacements
        }
        EditPlan::Stop(r) => panic!("unexpected stop: {}", r.message),
    };
    match after_write(&p, n, None) {
        AfterWrite::Stop(report) => {
            assert!(report.success);
            assert!(!report.verified);
        }
        AfterWrite::Verify(_) => panic!("no command to run"),
    }
}

#[test]
fn test_hook_router_preserves_chained_and_redirected_commands() {
    assert!(route_pre_tool(Some(&run_command("cat < README.md", None))).overwrite.is_none());
    assert!(route_pre_tool(Some(&run_command("cat <<EOF\nhello\nEOF", None))).overwrite.is_none());
    assert!(route_pre_tool(Some(&run_command("lsof -p 1234 | grep LISTEN", None))).overwrite.is_none());
    assert!(route_pre_tool(Some(&run_command(
        "python3 -c \"import os; os.kill(1234, 0); print(1)\" && echo done",
        None
    )))
    .overwrite
    .is_none());
    assert!(route_pre_tool(Some(&run_command("python3 -c \"print('os.kill(1234, 0)')\"", None))).overwrite.is_none());
}

#[test]
fn test_style_em_dash_auto_fixing() {
    let (fixed_content, em_dashes_fixed, violations) =
        check_and_fix_content("The release was fast \u{2014} really fast \u{2014} and reliable.", true)
            .expect("check_and_fix_file failed");
    let report = StyleReport { file_path: "report.md".to_string(), em_dashes_fixed, violations };
    assert_eq!(report.em_dashes_fixed, 2);
    assert!(report.is_clean());
    assert_eq!(fixed_content, "The release was fast - really fast - and reliable.");
}

#[test]
fn test_style_banned_words_detection() {
    let bad_text = "This is a crucial fix.\nAdditionally, we delve into the system.\nIt is not just fast, but reliable.\n";
    let (_, em_dashes_fixed, violations) = check_and_fix_content(bad_text, false).expect("check_and_fix_file failed");
    let report = StyleReport { file_path: "draft.md".to_string(), em_dashes_fixed, violations };
    assert!(!report.is_clean());
    let rules: Vec<_> = report.violations.iter().map(|v| v.rule.as_str()).collect();
    assert!(rules.contains(&"banned-word"));
    assert!(rules.contains(&"banned-construction"));
}

#[test]
fn test_style_ignores_code_blocks() {
    let content = "Normal text here.\n```rust\nlet crucial = 42;\n// not just x, but y\n```\nAll clean afterwards.\n";
    let (_, fixed, violations) = check_and_fix_content(content, false).expect("style rules compile");
    assert_eq!(fixed, 0);
    assert!(violations.is_empty(), "Violations inside code blocks must be ignored");
}

#[test]
fn test_hook_stop_blocks_violations_and_allows_clean() {
    let bad = vec![Artifact { path: "artifact.md".to_string(), text: "This is a pivotal finding.\n".to_string() }];
    let stop_resp = route_stop_hook(&bad);
    assert_eq!(stop_resp.decision, "continue");
    assert!(stop_resp.reason.unwrap().contains("pivotal"));

    let clean = vec![Artifact { path: "artifact.md".to_string(), text: "This is an important finding.\n".to_string() }];
    let clean_resp = route_stop_hook(&clean);
    assert_eq!(clean_resp.decision, "allow");
    assert!(clean_resp.reason.is_none());
}
