use fast_tools::edit::{
    after_verify, after_write, count_matches, plan_edit, replace_all_chars, replace_first_chars, AfterWrite,
    EditParams, EditPlan, FileProbe, VerifyOutcome,
};
use fast_tools::git::{finish_snapshot, parse_status, read_status, GitRun};
use fast_tools::grep::{clamp_range, search_context, should_descend, SourceFile};
use fast_tools::hooks::{rewrite_command, route_pre_tool, route_stop_hook, Artifact, PreToolPayload, ToolArgs, ToolCall};
use fast_tools::mcp::{handle_mcp_request, tool_reply, JsonNumber, JsonValue, McpAction, McpReply, ToolInvocation, ToolOutcome};
use fast_tools::poll::{poll_step, PollConfig, PollStep, TargetState};
use fast_tools::style::{check_and_fix_content, get_banned_words_regex, load_style_rules, StyleReport};
use fast_tools::text::{chars_of, fmt_i64, lines_of, string_of, trim_chars, utf8_size};
use fast_tools::view::{
    extract_outline, is_binary_content, view_batch_files, view_single_file, FileSource, ViewFile, ViewOptions,
};

fn s(x: &str) -> String {
    x.to_string()
}

fn text_file(path: &str, content: &str) -> ViewFile {
    ViewFile { path: s(path), source: FileSource::Text(s(content)) }
}

fn obj(pairs: Vec<(&str, JsonValue)>) -> JsonValue {
    JsonValue::Object(pairs.into_iter().map(|(k, v)| (s(k), v)).collect())
}

fn jstr(x: &str) -> JsonValue {
    JsonValue::Str(s(x))
}

fn call(name: &str, args: JsonValue) -> JsonValue {
    obj(vec![
        ("jsonrpc", jstr("2.0")),
        ("id", JsonValue::Number(JsonNumber::PosInt(7))),
        ("method", jstr("tools/call")),
        ("params", obj(vec![("name", jstr(name)), ("arguments", args)])),
    ])
}

fn joined(chars: Vec<char>) -> String {
    chars.into_iter().collect()
}

// --- text ---------------------------------------------------------------

#[test]
fn lines_follow_str_lines() {
    for text in ["", "a", "a\n", "a\r\nb", "a\n\nb\n", "x\r", "\n", "one\ntwo\r\n"] {
        let got: Vec<String> = lines_of(&chars_of(text)).into_iter().map(joined).collect();
        let want: Vec<String> = text.lines().map(|l| l.to_string()).collect();
        assert_eq!(got, want, "lines of {:?}", text);
    }
}

#[test]
fn trim_follows_str_trim() {
    for text in ["  a b  ", "\u{3000}x\u{2009}", "", "   ", "\tq\n"] {
        assert_eq!(joined(trim_chars(&chars_of(text))), text.trim());
    }
}

#[test]
fn decimal_rendering() {
    assert_eq!(joined(fmt_i64(-1)), "-1");
    assert_eq!(joined(fmt_i64(i64::MIN)), i64::MIN.to_string());
    assert_eq!(joined(fmt_i64(1234567)), "1234567");
    assert_eq!(utf8_size(&chars_of("a\u{2014}b")), "a\u{2014}b".len());
    assert_eq!(string_of(&chars_of("h\u{e9}llo")), "h\u{e9}llo");
}

// --- grep ---------------------------------------------------------------

#[test]
fn clamp_range_of_empty_file() {
    assert_eq!(clamp_range(3, 2, 0), (1, 1));
    assert_eq!(clamp_range(3, 1, 10), (2, 4));
}

#[test]
fn grep_literal_pattern_is_escaped() {
    let files = vec![SourceFile { path: s("f.txt"), content: s("axb\na.b\n") }];
    let literal = search_context(&files, "a.b", 0, 10, false, true).unwrap();
    assert_eq!(literal.len(), 1);
    assert_eq!(literal[0].line_number, 2);
    let regex = search_context(&files, "a.b", 0, 10, true, true).unwrap();
    assert_eq!(regex.len(), 2);
}

#[test]
fn grep_case_folding_and_limit() {
    let files = vec![
        SourceFile { path: s("a.txt"), content: s("Alpha\nalpha\n") },
        SourceFile { path: s("b.txt"), content: s("ALPHA\n") },
    ];
    assert_eq!(search_context(&files, "alpha", 0, 10, false, true).unwrap().len(), 1);
    let all = search_context(&files, "alpha", 0, 10, false, false).unwrap();
    assert_eq!(all.len(), 3);
    assert_eq!(all[2].path, "b.txt");
    let two = search_context(&files, "alpha", 0, 2, false, false).unwrap();
    assert_eq!(two.len(), 2);
    assert_eq!(two[1].line_number, 2);
}

#[test]
fn grep_snippet_layout() {
    let files = vec![SourceFile { path: s("f.txt"), content: s("a\nb\nc\nd\n") }];
    let m = search_context(&files, "c", 1, 5, false, true).unwrap();
    assert_eq!(m[0].snippet, "    2: b\n>   3: c\n    4: d");
}

#[test]
fn grep_directory_filter() {
    assert!(should_descend("src"));
    assert!(!should_descend(".git"));
    assert!(!should_descend("target"));
    assert!(!should_descend("node_modules"));
}

// --- view ---------------------------------------------------------------

#[test]
fn view_outline_lists_declarations() {
    let lines = vec![s("use x;"), s("  pub fn a() {}"), s("struct B;"), s("let c = 1;")];
    let outline = extract_outline(&lines);
    assert_eq!(outline, vec![(2, s("pub fn a() {}")), (3, s("struct B;"))]);
    let f = text_file("m.rs", "use x;\n  pub fn a() {}\nstruct B;\n");
    let out = view_single_file(&f, &ViewOptions { outline: true, ..Default::default() }).unwrap();
    assert_eq!(out, "Outline for m.rs (3 lines):\n    2: pub fn a() {}\n    3: struct B;\n");
    let none = view_single_file(&text_file("n.txt", "hello\n"), &ViewOptions { outline: true, ..Default::default() }).unwrap();
    assert_eq!(none, "File n.txt (1 lines): No top-level declarations found.");
}

#[test]
fn view_range_errors() {
    let f = text_file("t.txt", "a\nb\nc\n");
    let past = view_single_file(&f, &ViewOptions { start_line: Some(9), ..Default::default() }).unwrap_err();
    assert_eq!(past, "start_line 9 exceeds total lines 3");
    let inverted = view_single_file(&f, &ViewOptions { start_line: Some(3), end_line: Some(2), ..Default::default() }).unwrap_err();
    assert_eq!(inverted, "start_line 3 is greater than end_line 2");
    let unread = ViewFile { path: s("u"), source: FileSource::Unreadable(s("denied")) };
    assert_eq!(view_single_file(&unread, &ViewOptions::default()).unwrap_err(), "denied");
}

#[test]
fn view_without_numbers_and_binary_size() {
    let f = text_file("t.txt", "a\nb\n");
    let out = view_single_file(&f, &ViewOptions { line_numbers: false, ..Default::default() }).unwrap();
    assert_eq!(out, "a\nb\n");
    let b = ViewFile { path: s("x.bin"), source: FileSource::Binary(12) };
    assert_eq!(view_single_file(&b, &ViewOptions::default()).unwrap(), "[Binary file: x.bin (12 bytes)]");
    assert!(!is_binary_content(b"plain text"));
    let mut late = vec![b'a'; 2000];
    late[1500] = 0;
    assert!(!is_binary_content(&late));
}

#[test]
fn view_minified_guard_counts_characters_per_line() {
    // 1500 two-byte characters: 3000 bytes, but only 1500 characters.
    let wide = "é".repeat(1500);
    let content = format!("{}\n{}", wide, "x\n".repeat(9));
    let f = text_file("wide.txt", &content);
    let out = view_single_file(&f, &ViewOptions::default()).unwrap();
    assert!(!out.contains("Minified Line Guard"));
    assert!(out.contains(&wide));

    let wider = "é".repeat(2100);
    let content = format!("{}\n{}", wider, "x\n".repeat(19));
    let f = text_file("wider.txt", &content);
    let out = view_single_file(&f, &ViewOptions::default()).unwrap();
    assert_eq!(
        out,
        "[Minified Line Guard: 20 lines, max line length 2100, average line length 210. File appears minified or bundled. Pass --force-all to bypass.]"
    );
}

#[test]
fn view_minified_by_average() {
    let f = text_file("w.js", &format!("{}\n{}\n", "b".repeat(900), "c".repeat(10)));
    let out = view_single_file(&f, &ViewOptions::default()).unwrap();
    assert_eq!(
        out,
        "[Minified Line Guard: 2 lines, max line length 900, average line length 455. File appears minified or bundled. Pass --force-all to bypass.]"
    );
}

#[test]
fn view_batch_reports_errors_and_spends_budget() {
    let files = vec![
        ViewFile { path: s("gone.txt"), source: FileSource::NotFound },
        text_file("a.rs", "fn a() {}\n"),
        text_file("b.rs", "fn b() {}\n"),
    ];
    let out = view_batch_files(&files, &ViewOptions::default(), 10);
    assert!(out.starts_with("=== File [1/3]: gone.txt ===\nError reading gone.txt: File not found: gone.txt\n\n"));
    assert!(out.contains("=== File [2/3]: a.rs ===\n[Aggregate budget reached; displaying outline]\nOutline for a.rs (1 lines):\n    1: fn a() {}\n\n\n"));
    assert!(out.contains("=== File [3/3]: b.rs ===\n[Aggregate budget reached; displaying outline]"));
}

// --- style --------------------------------------------------------------

#[test]
fn style_reports_each_rule() {
    let text = "It's not slow, it's fast \u{2014} and robust.\n";
    let (fixed, n, v) = check_and_fix_content(text, false).unwrap();
    assert_eq!(fixed, text);
    assert_eq!(n, 0);
    let rules: Vec<(String, String)> = v.iter().map(|x| (x.rule.clone(), x.term.clone())).collect();
    assert_eq!(
        rules,
        vec![
            (s("em-dash"), s("\u{2014}")),
            (s("banned-word"), s("robust")),
            (s("banned-construction"), s("it's not X, it's Y")),
        ]
    );
    assert_eq!(v[0].snippet, "It's not slow, it's fast \u{2014} and robust.");
    assert_eq!(v[0].line_number, 1);
}

#[test]
fn style_em_dash_fix_is_idempotent() {
    let (once, n1, _) = check_and_fix_content("a\u{2014}b \u{2014} c", true).unwrap();
    assert_eq!(n1, 2);
    assert_eq!(once, "a-b - c");
    let (twice, n2, _) = check_and_fix_content(&once, true).unwrap();
    assert_eq!(n2, 0);
    assert_eq!(twice, once);
}

#[test]
fn style_rules_compile() {
    assert!(load_style_rules().is_ok());
    assert!(get_banned_words_regex().is_ok());
    let report = StyleReport { file_path: s("x"), em_dashes_fixed: 0, violations: vec![] };
    assert!(report.is_clean());
}

// --- edit ---------------------------------------------------------------

#[test]
fn edit_replacement_primitives() {
    let c = |x: &str| chars_of(x);
    assert_eq!(count_matches(&c("aaaa"), &c("aa")), 2);
    assert_eq!(count_matches(&c("abc"), &c("")), 4);
    assert_eq!(joined(replace_all_chars(&c("abc"), &c(""), &c("X"))), "abc".replace("", "X"));
    assert_eq!(joined(replace_all_chars(&c("aaaa"), &c("aa"), &c("b"))), "aaaa".replace("aa", "b"));
    assert_eq!(joined(replace_first_chars(&c("x-y-z"), &c("-"), &c("+"))), "x-y-z".replacen("-", "+", 1));
    assert_eq!(joined(replace_first_chars(&c("abc"), &c(""), &c("X"))), "abc".replacen("", "X", 1));
}

#[test]
fn edit_error_reports() {
    let p = EditParams {
        target_file: s("f.txt"),
        target_content: s("a"),
        replacement_content: s("b"),
        allow_multiple: false,
        verify_command: Some(s("make")),
        rollback_on_failure: false,
        cwd: None,
    };
    match plan_edit(&p, &FileProbe::ReadFailed(s("denied"))) {
        EditPlan::Stop(r) => assert_eq!(r.message, "Failed to read file: denied"),
        EditPlan::Write { .. } => panic!(),
    }
    match after_write(&p, 1, Some("disk full")) {
        AfterWrite::Stop(r) => {
            assert!(!r.success);
            assert_eq!(r.message, "Failed to write modified file: disk full");
        }
        AfterWrite::Verify(_) => panic!(),
    }
    let spawn = after_verify(&p, 1, "a", &VerifyOutcome::SpawnFailed(s("no sh")));
    assert_eq!(spawn.report.verify_output, "Execution error: no sh");
    assert_eq!(spawn.report.message, "Verification command failed to execute. File rolled back: false");
    assert!(spawn.restore.is_none());
    let failed = after_verify(
        &p,
        1,
        "a",
        &VerifyOutcome::Exited { success: false, code: None, stdout: s("  out"), stderr: s("err \n") },
    );
    assert_eq!(failed.report.verify_output, "out\nerr");
    assert_eq!(failed.report.message, "Verification command exited with status -1. Changes rolled back: false.");
}

// --- git ----------------------------------------------------------------

#[test]
fn git_status_parsing() {
    let summary = parse_status("## main...origin/main [ahead 1]\n M src/lib.rs\n?? new.txt\n");
    assert_eq!(summary.branch, "main");
    assert_eq!(summary.status_lines, vec![s(" M src/lib.rs"), s("?? new.txt")]);
    assert_eq!(parse_status("").branch, "unknown");
    let err = read_status(&GitRun::Finished { success: false, stdout: String::new(), stderr: s("fatal: not a repo\n") }).unwrap_err();
    assert_eq!(err, "git status failed: fatal: not a repo");
    let spawn = read_status(&GitRun::SpawnFailed(s("no git"))).unwrap_err();
    assert_eq!(spawn, "Failed to run git status: no git");
    let snap = finish_snapshot(summary, &GitRun::Finished { success: true, stdout: s(" 1 file changed\n"), stderr: String::new() }).unwrap();
    assert!(!snap.clean);
    assert_eq!(snap.diff_stat, "1 file changed");
}

// --- hooks --------------------------------------------------------------

#[test]
fn hook_rewrites_are_final_and_scoped() {
    for cmd in ["git status --short", "cat a.txt", "lsof -p 1", "python -c 'import os; os.kill(5, 0)'"] {
        let (new_cmd, _) = rewrite_command(cmd).expect("rule applies");
        assert!(rewrite_command(&new_cmd).is_none());
    }
    assert!(rewrite_command("cat -n a.txt").is_none());
    let other_tool = PreToolPayload {
        tool_call: Some(ToolCall { name: s("view_file"), args: Some(ToolArgs { command_line: Some(s("git status")) }) }),
        step_idx: None,
        conversation_id: None,
        workspace_paths: None,
    };
    let resp = route_pre_tool(Some(&other_tool));
    assert_eq!(resp.decision, "allow");
    assert!(resp.overwrite.is_none());
    assert!(resp.reason.is_none());
}

#[test]
fn stop_hook_lists_every_finding() {
    let arts = vec![
        Artifact { path: s("a.md"), text: s("fine\n") },
        Artifact { path: s("b.md"), text: s("ok\nA vibrant result.\n") },
    ];
    let resp = route_stop_hook(&arts);
    assert_eq!(resp.decision, "continue");
    assert_eq!(
        resp.reason.unwrap(),
        "Style violations found in artifacts; fix them before stopping:\nb.md:2: [banned-word] \"vibrant\" in: A vibrant result.\n"
    );
    assert_eq!(route_stop_hook(&[]).decision, "allow");
}

// --- poll ---------------------------------------------------------------

#[test]
fn poll_waits_at_least_ten_ms() {
    let config = PollConfig { pid: None, port: Some(8080), state: TargetState::Ready, timeout_ms: 1000, interval_ms: 3 };
    match poll_step(&config, 5, false, false) {
        PollStep::Wait(ms) => assert_eq!(ms, 10),
        PollStep::Finish(_) => panic!(),
    }
    match poll_step(&config, 40, false, true) {
        PollStep::Finish(r) => {
            assert!(r.success);
            assert_eq!(r.message, "Target condition Ready met in 40 ms");
        }
        PollStep::Wait(_) => panic!(),
    }
    let closed = PollConfig { state: TargetState::Terminated, ..config };
    match poll_step(&closed, 1000, false, true) {
        PollStep::Finish(r) => assert_eq!(r.message, "Timeout after 1000 ms waiting for condition Terminated"),
        PollStep::Wait(_) => panic!(),
    }
}

// --- mcp ----------------------------------------------------------------

fn member<'a>(v: &'a JsonValue, key: &str) -> Option<&'a JsonValue> {
    match v {
        JsonValue::Object(pairs) => pairs.iter().find(|(k, _)| k == key).map(|(_, v)| v),
        _ => None,
    }
}

#[test]
fn mcp_methods() {
    let init = obj(vec![("method", jstr("initialize"))]);
    match handle_mcp_request(&init) {
        McpAction::Reply(McpReply::Initialize(body)) => {
            assert!(matches!(member(&body, "protocolVersion"), Some(JsonValue::Str(v)) if v == "2024-11-05"));
            let info = member(&body, "serverInfo").unwrap();
            assert!(matches!(member(info, "name"), Some(JsonValue::Str(v)) if v == "fast-tools"));
            assert!(matches!(member(info, "version"), Some(JsonValue::Str(v)) if v == "0.1.0"));
        }
        other => panic!("{:?}", other),
    }
    let note = obj(vec![("method", jstr("notifications/initialized"))]);
    assert!(matches!(handle_mcp_request(&note), McpAction::NoReply));
    let list = obj(vec![("method", jstr("tools/list"))]);
    match handle_mcp_request(&list) {
        McpAction::Reply(McpReply::ToolList(body)) => {
            let tools = match member(&body, "tools") {
                Some(JsonValue::Array(t)) => t,
                other => panic!("{:?}", other),
            };
            let names: Vec<String> = tools
                .iter()
                .map(|t| match member(t, "name") {
                    Some(JsonValue::Str(n)) => n.clone(),
                    other => panic!("{:?}", other),
                })
                .collect();
            assert_eq!(names, vec!["fast_view", "grep_context", "poll_service", "edit_and_verify", "git_snapshot"]);
            for t in tools {
                let schema = member(t, "inputSchema").unwrap();
                assert!(matches!(member(schema, "type"), Some(JsonValue::Str(v)) if v == "object"));
                assert!(matches!(member(t, "description"), Some(JsonValue::Str(_))));
            }
            let grep_props = member(member(&tools[1], "inputSchema").unwrap(), "properties").unwrap();
            let ctx = member(grep_props, "context_lines").unwrap();
            assert!(matches!(member(ctx, "default"), Some(JsonValue::Number(JsonNumber::PosInt(10)))));
        }
        other => panic!("{:?}", other),
    }
    match handle_mcp_request(&obj(vec![("method", jstr("bogus"))])) {
        McpAction::Reply(McpReply::Error { code, message }) => {
            assert_eq!(code, -32601);
            assert_eq!(message, "Method not found");
        }
        other => panic!("{:?}", other),
    }
}

#[test]
fn mcp_tool_arguments_and_defaults() {
    match handle_mcp_request(&call("grep_context", obj(vec![("pattern", jstr("x")), ("paths", JsonValue::Array(vec![jstr("a"), JsonValue::Null, jstr("b")]))]))) {
        McpAction::Call(ToolInvocation::Grep { paths, pattern, context_lines, max_matches, is_regex, case_sensitive }) => {
            assert_eq!(paths, vec![s("a"), s("b")]);
            assert_eq!(pattern, "x");
            assert_eq!((context_lines, max_matches, is_regex, case_sensitive), (10, 5, false, false));
        }
        other => panic!("{:?}", other),
    }
    match handle_mcp_request(&call("fast_view", obj(vec![("path", jstr("f")), ("start_line", JsonValue::Number(JsonNumber::PosInt(3)))]))) {
        McpAction::Call(ToolInvocation::View { path, opts }) => {
            assert_eq!(path, "f");
            assert_eq!(opts.start_line, Some(3));
            assert!(opts.line_numbers);
        }
        other => panic!("{:?}", other),
    }
    match handle_mcp_request(&call("poll_service", obj(vec![("pid", JsonValue::Number(JsonNumber::PosInt(3_000_000_000)))]))) {
        McpAction::Reply(McpReply::ToolResult { text, is_error }) => {
            assert!(is_error);
            assert_eq!(text, "Error: pid 3000000000 out of range for i32");
        }
        other => panic!("{:?}", other),
    }
    match handle_mcp_request(&call("poll_service", obj(vec![("port", JsonValue::Number(JsonNumber::NegInt(-1)))]))) {
        McpAction::Reply(McpReply::ToolResult { text, .. }) => assert_eq!(text, "Error: Invalid port: expected integer"),
        other => panic!("{:?}", other),
    }
    match handle_mcp_request(&call("poll_service", obj(vec![("pid", JsonValue::Number(JsonNumber::NegInt(-5))), ("state", jstr("alive"))]))) {
        McpAction::Call(ToolInvocation::Poll(c)) => {
            assert_eq!(c.pid, Some(-5));
            assert_eq!(c.state, TargetState::Alive);
            assert_eq!((c.timeout_ms, c.interval_ms), (5000, 200));
        }
        other => panic!("{:?}", other),
    }
    match handle_mcp_request(&call("nope", obj(vec![]))) {
        McpAction::Reply(McpReply::Error { code, message }) => {
            assert_eq!(code, -32602);
            assert_eq!(message, "Unknown tool: nope");
        }
        other => panic!("{:?}", other),
    }
    let no_args = obj(vec![("method", jstr("tools/call")), ("params", obj(vec![("name", jstr("git_snapshot"))]))]);
    match handle_mcp_request(&no_args) {
        McpAction::Call(ToolInvocation::GitSnapshot { repo_dir }) => assert_eq!(repo_dir, "."),
        other => panic!("{:?}", other),
    }
}

#[test]
fn mcp_tool_reply_framing() {
    match tool_reply(ToolOutcome::Text(Err(s("boom")))) {
        McpReply::ToolResult { text, is_error } => {
            assert_eq!(text, "Error: boom");
            assert!(is_error);
        }
        _ => panic!(),
    }
    match tool_reply(ToolOutcome::Report { json: s("{}"), success: false }) {
        McpReply::ToolResult { is_error, .. } => assert!(is_error),
        _ => panic!(),
    }
}

#[test]
fn binary_notice_ignores_options() {
    let b = ViewFile { path: s("x.bin"), source: FileSource::Binary(3) };
    let plain = view_single_file(&b, &ViewOptions::default()).unwrap();
    let outlined = view_single_file(&b, &ViewOptions { outline: true, start_line: Some(2), ..Default::default() }).unwrap();
    assert_eq!(plain, outlined);
}

#[test]
fn default_options() {
    let o = ViewOptions::default();
    assert!(o.line_numbers && !o.outline && !o.force_all && o.start_line.is_none() && o.end_line.is_none());
}
