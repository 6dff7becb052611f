use fast_tools::edit::{after_write, plan_edit, AfterWrite, EditParams, EditPlan, FileProbe};
use fast_tools::grep::{search_context, SourceFile};
use fast_tools::hooks::{route_pre_tool, PreToolPayload};
use fast_tools::poll::{poll_step, PollConfig, PollStep, TargetState};
use fast_tools::view::{is_binary_content, view_single_file, FileSource, ViewFile, ViewOptions};

fn edit(target: &str, replacement: &str, allow_multiple: bool) -> EditParams {
    EditParams {
        target_file: "dup.txt".to_string(),
        target_content: target.to_string(),
        replacement_content: replacement.to_string(),
        allow_multiple,
        verify_command: None,
        rollback_on_failure: false,
        cwd: None,
    }
}

#[test]
fn throwaway_test_zero_byte_file() {
    let f = ViewFile { path: "empty.txt".to_string(), source: FileSource::Text(String::new()) };
    let v = view_single_file(&f, &ViewOptions::default()).unwrap();
    assert_eq!(v, "");

    let files = vec![SourceFile { path: "empty.txt".to_string(), content: String::new() }];
    let g = search_context(&files, "needle", 10, 5, false, false).unwrap();
    assert_eq!(g.len(), 0);
}

#[test]
fn throwaway_test_massive_context_overread_one_liner() {
    let files = vec![SourceFile { path: "oneliner.txt".to_string(), content: "single solitary line with target".to_string() }];
    let g = search_context(&files, "target", 999999, 10, false, false).unwrap();
    assert_eq!(g.len(), 1);
    assert_eq!(g[0].start_line, 1);
    assert_eq!(g[0].end_line, 1);
}

#[test]
fn throwaway_test_minified_guard_and_force_bypass() {
    let f = ViewFile { path: "bundle.min.js".to_string(), source: FileSource::Text("a".repeat(4000)) };
    let guarded = view_single_file(&f, &ViewOptions::default()).unwrap();
    assert!(guarded.contains("[Minified Line Guard:"));

    let forced = view_single_file(&f, &ViewOptions { force_all: true, ..Default::default() }).unwrap();
    assert!(forced.contains("1: aaaaa"));
}

#[test]
fn throwaway_test_binary_file_detection() {
    let bytes: &[u8] = b"\x7fELF\x02\x01\x01\x00\x00\x00\x00\x00";
    assert!(is_binary_content(bytes));
    let f = ViewFile { path: "data.bin".to_string(), source: FileSource::Binary(bytes.len() as u64) };
    let v = view_single_file(&f, &ViewOptions::default()).unwrap();
    assert!(v.contains("[Binary file:"));
}

#[test]
fn throwaway_test_nonexistent_file_errors() {
    let f = ViewFile { path: "ghost_file.txt".to_string(), source: FileSource::NotFound };
    let err = view_single_file(&f, &ViewOptions::default()).unwrap_err();
    assert!(err.contains("File not found"));

    let params = EditParams {
        target_file: "ghost_file.txt".to_string(),
        target_content: "foo".to_string(),
        replacement_content: "bar".to_string(),
        allow_multiple: false,
        verify_command: None,
        rollback_on_failure: true,
        cwd: None,
    };
    match plan_edit(&params, &FileProbe::Missing) {
        EditPlan::Stop(edit_rep) => {
            assert!(!edit_rep.success);
            assert!(edit_rep.message.contains("does not exist"));
        }
        EditPlan::Write { .. } => panic!("a missing file cannot be edited"),
    }
}

#[test]
fn throwaway_test_invalid_regex_handling() {
    let files = vec![SourceFile { path: "sample.txt".to_string(), content: "hello".to_string() }];
    let err = search_context(&files, "[a-z(broken_regex", 5, 5, true, false).unwrap_err();
    assert!(err.contains("Invalid regex"));
}

#[test]
fn throwaway_test_poll_service_zero_timeout_and_interval() {
    let config = PollConfig { pid: Some(9999999), port: None, state: TargetState::Alive, timeout_ms: 0, interval_ms: 0 };
    match poll_step(&config, 0, false, false) {
        PollStep::Finish(report) => {
            assert!(!report.success);
            assert!(report.message.contains("Timeout"));
        }
        PollStep::Wait(_) => panic!("a zero timeout must not wait"),
    }
}

#[test]
fn throwaway_test_edit_multiple_occurrences_blocked_unless_allowed() {
    let content = FileProbe::Content("word word word".to_string());
    match plan_edit(&edit("word", "token", false), &content) {
        EditPlan::Stop(blocked) => {
            assert!(!blocked.success);
            assert!(blocked.message.contains("found 3 times"));
        }
        EditPlan::Write { .. } => panic!("several occurrences need allow_multiple"),
    }
    let p = edit("word", "token", true);
    match plan_edit(&p, &content) {
        EditPlan::Write { new_content, replacements } => {
            assert_eq!(new_content, "token token token");
            match after_write(&p, replacements, None) {
                AfterWrite::Stop(allowed) => assert!(allowed.success),
                AfterWrite::Verify(_) => panic!("no command to run"),
            }
        }
        EditPlan::Stop(r) => panic!("unexpected stop: {}", r.message),
    }
}

#[test]
fn throwaway_test_hook_router_garbage_json() {
    let resp = route_pre_tool(None);
    assert_eq!(resp.decision, "allow");
    assert!(resp.overwrite.is_none());

    let empty = PreToolPayload { tool_call: None, step_idx: None, conversation_id: None, workspace_paths: None };
    let resp_empty = route_pre_tool(Some(&empty));
    assert_eq!(resp_empty.decision, "allow");
}

#[test]
fn throwaway_test_large_file_line_capping() {
    let content = (1..=6000).map(|i| format!("line {}", i)).collect::<Vec<_>>().join("\n");
    let f = ViewFile { path: "big.txt".to_string(), source: FileSource::Text(content) };
    let capped = view_single_file(&f, &ViewOptions::default()).unwrap();
    assert!(capped.contains("[Showing first 1000 lines of 6000 lines."));
}
