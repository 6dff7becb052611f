//! The MCP (JSON-RPC 2.0 over stdio) request dispatcher: which method a request
//! names, which tool a `tools/call` invokes with which arguments and defaults,
//! and how a tool's outcome is framed in the reply.
//!
//! Requests arrive as a `JsonValue`, a plain model of a parsed JSON document
//! that holds what the dispatcher reads. The surrounding program parses and
//! serialises JSON, runs the tools, and echoes the request id.

use vstd::prelude::*;
use crate::text::{chars_of, dec_int, eq_str, fmt_i64, fmt_u64, push_all, push_str, string_of, dec};
use crate::view::ViewOptions;
use crate::poll::{PollConfig, TargetState};
use crate::edit::EditParams;
use crate::catalog::{initialize_result, initialize_result_spec, tool_catalog, tool_catalog_spec, tree_of};

verus! {

/// A JSON number, as far as the dispatcher can read it.
#[derive(Debug, Clone)]
pub enum JsonNumber {
    /// A non-negative integer.
    PosInt(u64),
    /// A negative integer.
    NegInt(i64),
    /// A number with a fraction or exponent.
    Float,
}

/// A parsed JSON value. An object keeps its members in order; its keys are distinct.
#[derive(Debug)]
pub enum JsonValue {
    Null,
    Bool(bool),
    Number(JsonNumber),
    Str(String),
    Array(Vec<JsonValue>),
    Object(Vec<(String, JsonValue)>),
}

/// The member of `pairs` named `key`, searching from position `i`.
pub open spec fn lookup_from(pairs: Seq<(String, JsonValue)>, key: Seq<char>, i: int) -> Option<JsonValue>
    decreases pairs.len() - i,
{
    if i < 0 || i >= pairs.len() {
        None
    } else if pairs[i].0@ == key {
        Some(pairs[i].1)
    } else {
        lookup_from(pairs, key, i + 1)
    }
}

/// `value.get(key)`: the member named `key` of an object, `None` otherwise.
pub open spec fn get_member(v: JsonValue, key: Seq<char>) -> Option<JsonValue> {
    match v {
        JsonValue::Object(pairs) => lookup_from(pairs@, key, 0),
        _ => None,
    }
}

/// `as_str`.
pub open spec fn json_str(v: Option<JsonValue>) -> Option<Seq<char>> {
    match v {
        Some(JsonValue::Str(s)) => Some(s@),
        _ => None,
    }
}

/// `as_bool`.
pub open spec fn json_bool(v: Option<JsonValue>) -> Option<bool> {
    match v {
        Some(JsonValue::Bool(b)) => Some(b),
        _ => None,
    }
}

/// `as_u64`.
pub open spec fn json_u64(v: Option<JsonValue>) -> Option<u64> {
    match v {
        Some(JsonValue::Number(JsonNumber::PosInt(n))) => Some(n),
        _ => None,
    }
}

/// `as_i64`.
pub open spec fn json_i64(v: Option<JsonValue>) -> Option<i64> {
    match v {
        Some(JsonValue::Number(JsonNumber::PosInt(n))) => if n <= i64::MAX {
            Some(n as i64)
        } else {
            None
        },
        Some(JsonValue::Number(JsonNumber::NegInt(n))) => Some(n),
        _ => None,
    }
}

/// `as_u64` followed by `usize::try_from(..).ok()`.
pub open spec fn json_usize(v: Option<JsonValue>) -> Option<usize> {
    match json_u64(v) {
        Some(n) => if n <= usize::MAX {
            Some(n as usize)
        } else {
            None
        },
        None => None,
    }
}

/// The string members of a JSON array from position `i` (others skipped).
pub open spec fn strings_from(items: Seq<JsonValue>, i: int) -> Seq<Seq<char>>
    decreases items.len() - i,
{
    if i < 0 || i >= items.len() {
        seq![]
    } else {
        match items[i] {
            JsonValue::Str(s) => seq![s@] + strings_from(items, i + 1),
            _ => strings_from(items, i + 1),
        }
    }
}

/// `as_array` with the string members kept, or nothing.
pub open spec fn json_strings(v: Option<JsonValue>) -> Seq<Seq<char>> {
    match v {
        Some(JsonValue::Array(items)) => strings_from(items@, 0),
        _ => seq![],
    }
}

/// The views of a list of strings.
pub open spec fn string_seq(v: Seq<String>) -> Seq<Seq<char>> {
    v.map_values(|s: String| s@)
}

/// The member named `key`.
pub fn json_get<'a>(v: &'a JsonValue, key: &str) -> (res: Option<&'a JsonValue>)
    ensures
        match get_member(*v, key@) {
            Some(x) => res matches Some(r) && *r == x,
            None => res is None,
        },
{
    match v {
        JsonValue::Object(pairs) => {
            let k = chars_of(key);
            let mut i: usize = 0;
            while i < pairs.len()
                invariant
                    i <= pairs@.len(),
                    k@ == key@,
                    get_member(*v, key@) == lookup_from(pairs@, key@, 0),
                    lookup_from(pairs@, key@, 0) == lookup_from(pairs@, key@, i as int),
                decreases pairs@.len() - i,
            {
                let name = chars_of(pairs[i].0.as_str());
                if crate::text::chars_eq(name.as_slice(), k.as_slice()) {
                    assert(pairs@[i as int].0@ == key@);
                    assert(lookup_from(pairs@, key@, i as int) == Some(pairs@[i as int].1));
                    return Some(&pairs[i].1);
                }
                i = i + 1;
            }
            None
        },
        _ => None,
    }
}

fn get_str(v: &JsonValue, key: &str) -> (res: Option<String>)
    ensures
        match json_str(get_member(*v, key@)) {
            Some(s) => res matches Some(r) && r@ == s,
            None => res is None,
        },
{
    match json_get(v, key) {
        Some(JsonValue::Str(s)) => Some(string_of(chars_of(s.as_str()).as_slice())),
        _ => None,
    }
}

fn get_str_or(v: &JsonValue, key: &str, default: &str) -> (res: String)
    ensures
        res@ == match json_str(get_member(*v, key@)) {
            Some(s) => s,
            None => default@,
        },
{
    match get_str(v, key) {
        Some(s) => s,
        None => string_of(chars_of(default).as_slice()),
    }
}

fn get_bool_or(v: &JsonValue, key: &str, default: bool) -> (res: bool)
    ensures
        res == match json_bool(get_member(*v, key@)) {
            Some(b) => b,
            None => default,
        },
{
    match json_get(v, key) {
        Some(JsonValue::Bool(b)) => *b,
        _ => default,
    }
}

fn get_u64(v: &JsonValue, key: &str) -> (res: Option<u64>)
    ensures
        res == json_u64(get_member(*v, key@)),
{
    match json_get(v, key) {
        Some(JsonValue::Number(JsonNumber::PosInt(n))) => Some(*n),
        _ => None,
    }
}

fn get_usize(v: &JsonValue, key: &str) -> (res: Option<usize>)
    ensures
        res == json_usize(get_member(*v, key@)),
{
    match get_u64(v, key) {
        Some(n) => if n <= usize::MAX as u64 {
            Some(n as usize)
        } else {
            None
        },
        None => None,
    }
}

fn get_strings(v: &JsonValue, key: &str) -> (res: Vec<String>)
    ensures
        string_seq(res@) == json_strings(get_member(*v, key@)),
{
    let mut out: Vec<String> = Vec::new();
    match json_get(v, key) {
        Some(JsonValue::Array(items)) => {
            let mut i: usize = 0;
            while i < items.len()
                invariant
                    i <= items@.len(),
                    strings_from(items@, 0) == string_seq(out@) + strings_from(items@, i as int),
                decreases items@.len() - i,
            {
                let ghost before = out@;
                match &items[i] {
                    JsonValue::Str(s) => {
                        let c = string_of(chars_of(s.as_str()).as_slice());
                        out.push(c);
                        proof {
                            assert(string_seq(out@) =~= string_seq(before).push(c@));
                            assert(string_seq(out@) + strings_from(items@, i + 1) =~= string_seq(before)
                                + (seq![c@] + strings_from(items@, i + 1)));
                        }
                    },
                    _ => {},
                }
                i = i + 1;
            }
            assert(string_seq(out@) + strings_from(items@, i as int) =~= string_seq(out@));
            out
        },
        _ => {
            assert(string_seq(out@) =~= Seq::<Seq<char>>::empty());
            out
        },
    }
}

// ---------------------------------------------------------------------------
// Requests, tools and replies
// ---------------------------------------------------------------------------

/// A tool to run, with its arguments.
#[derive(Debug)]
pub enum ToolInvocation {
    View { path: String, opts: ViewOptions },
    ReadBatch { paths: Vec<String>, opts: ViewOptions, max_bytes: usize },
    Grep {
        paths: Vec<String>,
        pattern: String,
        context_lines: usize,
        max_matches: usize,
        is_regex: bool,
        case_sensitive: bool,
    },
    Poll(PollConfig),
    Edit(EditParams),
    GitSnapshot { repo_dir: String },
}

/// A reply, without the request id that is echoed into it.
#[derive(Debug)]
pub enum McpReply {
    /// The `initialize` result (protocol version, capabilities, server info).
    Initialize(JsonValue),
    /// The `tools/list` result: the catalog of tools.
    ToolList(JsonValue),
    /// A tool's text, flagged as an error or not.
    ToolResult { text: String, is_error: bool },
    /// A JSON-RPC error.
    Error { code: i64, message: String },
}

/// What to do with a request.
#[derive(Debug)]
pub enum McpAction {
    Reply(McpReply),
    NoReply,
    Call(ToolInvocation),
}

/// The member `key` of an optional arguments object.
pub open spec fn arg_member(args: Option<JsonValue>, key: Seq<char>) -> Option<JsonValue> {
    match args {
        Some(a) => get_member(a, key),
        None => None,
    }
}

/// The method a request names (`""` when absent or not a string).
pub open spec fn method_of(req: JsonValue) -> Seq<char> {
    match json_str(get_member(req, "method"@)) {
        Some(m) => m,
        None => seq![],
    }
}

/// A string argument, or `default`.
pub open spec fn str_or(args: Option<JsonValue>, key: Seq<char>, default: Seq<char>) -> Seq<char> {
    match json_str(arg_member(args, key)) {
        Some(s) => s,
        None => default,
    }
}

/// A boolean argument, or `default`.
pub open spec fn bool_or(args: Option<JsonValue>, key: Seq<char>, default: bool) -> bool {
    match json_bool(arg_member(args, key)) {
        Some(b) => b,
        None => default,
    }
}

/// The tool named by a `tools/call` (`""` when absent).
pub open spec fn call_name(req: JsonValue) -> Seq<char> {
    match get_member(req, "params"@) {
        Some(p) => str_or(Some(p), "name"@, seq![]),
        None => seq![],
    }
}

/// The arguments of a `tools/call` (an empty object when absent).
pub open spec fn call_args(req: JsonValue) -> Option<JsonValue> {
    match get_member(req, "params"@) {
        Some(p) => get_member(p, "arguments"@),
        None => None,
    }
}

/// The options of a `fast_view` call.
pub open spec fn view_opts_ok(args: Option<JsonValue>, o: ViewOptions) -> bool {
    &&& o.start_line == json_usize(arg_member(args, "start_line"@))
    &&& o.end_line == json_usize(arg_member(args, "end_line"@))
    &&& o.line_numbers == bool_or(args, "line_numbers"@, true)
    &&& o.outline == bool_or(args, "outline"@, false)
    &&& o.force_all == bool_or(args, "force_all"@, false)
}

/// The pid argument of `poll_service`: absent, an `i32`, or the error to report.
pub open spec fn pid_arg(args: Option<JsonValue>) -> Result<Option<i32>, Seq<char>> {
    match arg_member(args, "pid"@) {
        None => Ok(None),
        Some(v) => match json_i64(Some(v)) {
            Some(n) => if i32::MIN <= n <= i32::MAX {
                Ok(Some(n as i32))
            } else {
                Err("pid "@ + dec_int(n as int) + " out of range for i32"@)
            },
            None => Err("Invalid pid: expected integer"@),
        },
    }
}

/// The port argument of `poll_service`: absent, a `u16`, or the error to report.
pub open spec fn port_arg(args: Option<JsonValue>) -> Result<Option<u16>, Seq<char>> {
    match arg_member(args, "port"@) {
        None => Ok(None),
        Some(v) => match json_u64(Some(v)) {
            Some(n) => if n <= u16::MAX {
                Ok(Some(n as u16))
            } else {
                Err("port "@ + dec(n as nat) + " out of range for u16 (1-65535)"@)
            },
            None => Err("Invalid port: expected integer"@),
        },
    }
}

/// The state awaited by `poll_service` (`"ready"` unless `"alive"` or `"terminated"`).
pub open spec fn state_arg(args: Option<JsonValue>) -> TargetState {
    let s = str_or(args, "state"@, "ready"@);
    if s == "alive"@ {
        TargetState::Alive
    } else if s == "terminated"@ {
        TargetState::Terminated
    } else {
        TargetState::Ready
    }
}

/// Whether `act` is what a `tools/call` of tool `name` with arguments `args` calls for.
pub open spec fn tool_call_ok(name: Seq<char>, args: Option<JsonValue>, act: McpAction) -> bool {
    if name == "fast_view"@ {
        act matches McpAction::Call(ToolInvocation::View { path, opts }) && path@ == str_or(
            args,
            "path"@,
            seq![],
        ) && view_opts_ok(args, opts)
    } else if name == "fast_read_batch"@ {
        act matches McpAction::Call(ToolInvocation::ReadBatch { paths, opts, max_bytes })
            && string_seq(paths@) == json_strings(arg_member(args, "paths"@)) && opts.start_line
            is None && opts.end_line is None && opts.line_numbers == bool_or(
            args,
            "line_numbers"@,
            true,
        ) && !opts.outline && !opts.force_all && max_bytes == 500 * 1024
    } else if name == "grep_context"@ {
        act matches McpAction::Call(
            ToolInvocation::Grep {
                paths,
                pattern,
                context_lines,
                max_matches,
                is_regex,
                case_sensitive,
            },
        ) && string_seq(paths@) == json_strings(arg_member(args, "paths"@)) && pattern@ == str_or(
            args,
            "pattern"@,
            seq![],
        ) && context_lines == (match json_usize(arg_member(args, "context_lines"@)) {
            Some(n) => n,
            None => 10,
        }) && max_matches == (match json_usize(arg_member(args, "max_matches"@)) {
            Some(n) => n,
            None => 5,
        }) && is_regex == bool_or(args, "is_regex"@, false) && case_sensitive == bool_or(
            args,
            "case_sensitive"@,
            false,
        )
    } else if name == "poll_service"@ {
        match (pid_arg(args), port_arg(args)) {
            (Err(e), _) => act matches McpAction::Reply(McpReply::ToolResult { text, is_error })
                && text@ == "Error: "@ + e && is_error,
            (_, Err(e)) => act matches McpAction::Reply(McpReply::ToolResult { text, is_error })
                && text@ == "Error: "@ + e && is_error,
            (Ok(pid), Ok(port)) => act matches McpAction::Call(ToolInvocation::Poll(c)) && c.pid
                == pid && c.port == port && c.state == state_arg(args) && c.timeout_ms == (match json_u64(
                arg_member(args, "timeout_ms"@),
            ) {
                Some(n) => n,
                None => 5000,
            }) && c.interval_ms == (match json_u64(arg_member(args, "interval_ms"@)) {
                Some(n) => n,
                None => 200,
            }),
        }
    } else if name == "edit_and_verify"@ {
        act matches McpAction::Call(ToolInvocation::Edit(p)) && p.target_file@ == str_or(
            args,
            "target_file"@,
            seq![],
        ) && p.target_content@ == str_or(args, "target_content"@, seq![])
            && p.replacement_content@ == str_or(args, "replacement_content"@, seq![])
            && p.allow_multiple == bool_or(args, "allow_multiple"@, false) && (match json_str(
            arg_member(args, "verify_command"@),
        ) {
            Some(s) => p.verify_command matches Some(c) && c@ == s,
            None => p.verify_command is None,
        }) && p.rollback_on_failure == bool_or(args, "rollback_on_failure"@, true) && (match json_str(
            arg_member(args, "cwd"@),
        ) {
            Some(s) => p.cwd matches Some(c) && c@ == s,
            None => p.cwd is None,
        })
    } else if name == "git_snapshot"@ {
        act matches McpAction::Call(ToolInvocation::GitSnapshot { repo_dir }) && repo_dir@ == str_or(
            args,
            "repo_dir"@,
            "."@,
        )
    } else {
        act matches McpAction::Reply(McpReply::Error { code, message }) && code == -32602
            && message@ == "Unknown tool: "@ + name
    }
}

pub proof fn lemma_tool_names_distinct()
    ensures
        "fast_view"@ != "fast_read_batch"@,
        "fast_view"@ != "grep_context"@,
        "fast_view"@ != "poll_service"@,
        "fast_view"@ != "edit_and_verify"@,
        "fast_read_batch"@ != "grep_context"@,
        "fast_read_batch"@ != "poll_service"@,
        "fast_read_batch"@ != "edit_and_verify"@,
        "grep_context"@ != "poll_service"@,
        "grep_context"@ != "edit_and_verify"@,
        "poll_service"@ != "edit_and_verify"@,
{
    reveal_strlit("fast_view");
    reveal_strlit("fast_read_batch");
    reveal_strlit("grep_context");
    reveal_strlit("poll_service");
    reveal_strlit("edit_and_verify");
    assert("fast_view"@[0] != "grep_context"@[0]);
    assert("fast_view"@[0] != "poll_service"@[0]);
    assert("fast_view"@[0] != "edit_and_verify"@[0]);
    assert("fast_view"@.len() != "fast_read_batch"@.len());
    assert("fast_read_batch"@[0] != "grep_context"@[0]);
    assert("fast_read_batch"@[0] != "poll_service"@[0]);
    assert("fast_read_batch"@[0] != "edit_and_verify"@[0]);
    assert("grep_context"@[0] != "poll_service"@[0]);
    assert("grep_context"@[0] != "edit_and_verify"@[0]);
    assert("poll_service"@[0] != "edit_and_verify"@[0]);
}

fn dispatch_view(args: &JsonValue) -> (res: McpAction)
    ensures
        tool_call_ok("fast_view"@, Some(*args), res),
{
    proof {
        reveal_strlit("");
        assert(""@ =~= Seq::<char>::empty());
    }
    let opts = ViewOptions {
        start_line: get_usize(args, "start_line"),
        end_line: get_usize(args, "end_line"),
        line_numbers: get_bool_or(args, "line_numbers", true),
        outline: get_bool_or(args, "outline", false),
        force_all: get_bool_or(args, "force_all", false),
    };
    McpAction::Call(ToolInvocation::View { path: get_str_or(args, "path", ""), opts })
}

fn dispatch_batch(args: &JsonValue) -> (res: McpAction)
    ensures
        tool_call_ok("fast_read_batch"@, Some(*args), res),
{
    proof {
        lemma_tool_names_distinct();
        reveal_strlit("");
        assert(""@ =~= Seq::<char>::empty());
    }
    let opts = ViewOptions {
        start_line: None,
        end_line: None,
        line_numbers: get_bool_or(args, "line_numbers", true),
        outline: false,
        force_all: false,
    };
    McpAction::Call(
        ToolInvocation::ReadBatch {
            paths: get_strings(args, "paths"),
            opts,
            max_bytes: crate::view::DEFAULT_MAX_BYTES,
        },
    )
}

fn dispatch_grep(args: &JsonValue) -> (res: McpAction)
    ensures
        tool_call_ok("grep_context"@, Some(*args), res),
{
    proof {
        lemma_tool_names_distinct();
        reveal_strlit("");
        assert(""@ =~= Seq::<char>::empty());
    }
    let context_lines = match get_usize(args, "context_lines") {
        Some(n) => n,
        None => 10,
    };
    let max_matches = match get_usize(args, "max_matches") {
        Some(n) => n,
        None => 5,
    };
    McpAction::Call(
        ToolInvocation::Grep {
            paths: get_strings(args, "paths"),
            pattern: get_str_or(args, "pattern", ""),
            context_lines,
            max_matches,
            is_regex: get_bool_or(args, "is_regex", false),
            case_sensitive: get_bool_or(args, "case_sensitive", false),
        },
    )
}

fn read_pid(args: &JsonValue) -> (res: Result<Option<i32>, String>)
    ensures
        match pid_arg(Some(*args)) {
            Ok(p) => res == Ok::<Option<i32>, String>(p),
            Err(e) => res matches Err(m) && m@ == e,
        },
{
    match json_get(args, "pid") {
        None => Ok(None),
        Some(v) => {
            let n: Option<i64> = match v {
                JsonValue::Number(JsonNumber::PosInt(n)) => if *n <= i64::MAX as u64 {
                    Some(*n as i64)
                } else {
                    None
                },
                JsonValue::Number(JsonNumber::NegInt(n)) => Some(*n),
                _ => None,
            };
            match n {
                Some(val) => if i32::MIN as i64 <= val && val <= i32::MAX as i64 {
                    Ok(Some(val as i32))
                } else {
                    let mut m = chars_of("pid ");
                    let d = fmt_i64(val);
                    push_all(&mut m, d.as_slice());
                    push_str(&mut m, " out of range for i32");
                    Err(string_of(m.as_slice()))
                },
                None => Err(string_of(chars_of("Invalid pid: expected integer").as_slice())),
            }
        },
    }
}

fn read_port(args: &JsonValue) -> (res: Result<Option<u16>, String>)
    ensures
        match port_arg(Some(*args)) {
            Ok(p) => res == Ok::<Option<u16>, String>(p),
            Err(e) => res matches Err(m) && m@ == e,
        },
{
    match json_get(args, "port") {
        None => Ok(None),
        Some(v) => match v {
            JsonValue::Number(JsonNumber::PosInt(n)) => if *n <= u16::MAX as u64 {
                Ok(Some(*n as u16))
            } else {
                let mut m = chars_of("port ");
                let d = fmt_u64(*n);
                push_all(&mut m, d.as_slice());
                push_str(&mut m, " out of range for u16 (1-65535)");
                Err(string_of(m.as_slice()))
            },
            _ => Err(string_of(chars_of("Invalid port: expected integer").as_slice())),
        },
    }
}

fn error_result(e: String) -> (res: McpAction)
    ensures
        res matches McpAction::Reply(McpReply::ToolResult { text, is_error }) && text@ == "Error: "@
            + e@ && is_error,
{
    let mut t = chars_of("Error: ");
    push_str(&mut t, e.as_str());
    McpAction::Reply(McpReply::ToolResult { text: string_of(t.as_slice()), is_error: true })
}

fn dispatch_poll(args: &JsonValue) -> (res: McpAction)
    ensures
        tool_call_ok("poll_service"@, Some(*args), res),
{
    proof {
        lemma_tool_names_distinct();
        reveal_strlit("");
        assert(""@ =~= Seq::<char>::empty());
    }
    let pid = read_pid(args);
    let port = read_port(args);
    let pid = match pid {
        Err(e) => return error_result(e),
        Ok(p) => p,
    };
    let port = match port {
        Err(e) => return error_result(e),
        Ok(p) => p,
    };
    let state_text = get_str_or(args, "state", "ready");
    let sc = chars_of(state_text.as_str());
    let state = if eq_str(sc.as_slice(), "alive") {
        TargetState::Alive
    } else if eq_str(sc.as_slice(), "terminated") {
        TargetState::Terminated
    } else {
        TargetState::Ready
    };
    let timeout_ms = match get_u64(args, "timeout_ms") {
        Some(n) => n,
        None => 5000,
    };
    let interval_ms = match get_u64(args, "interval_ms") {
        Some(n) => n,
        None => 200,
    };
    McpAction::Call(ToolInvocation::Poll(PollConfig { pid, port, state, timeout_ms, interval_ms }))
}

fn dispatch_edit(args: &JsonValue) -> (res: McpAction)
    ensures
        tool_call_ok("edit_and_verify"@, Some(*args), res),
{
    proof {
        lemma_tool_names_distinct();
        reveal_strlit("");
        assert(""@ =~= Seq::<char>::empty());
    }
    let params = EditParams {
        target_file: get_str_or(args, "target_file", ""),
        target_content: get_str_or(args, "target_content", ""),
        replacement_content: get_str_or(args, "replacement_content", ""),
        allow_multiple: get_bool_or(args, "allow_multiple", false),
        verify_command: get_str(args, "verify_command"),
        rollback_on_failure: get_bool_or(args, "rollback_on_failure", true),
        cwd: get_str(args, "cwd"),
    };
    McpAction::Call(ToolInvocation::Edit(params))
}

fn dispatch_tool(name: &str, args: &JsonValue) -> (res: McpAction)
    ensures
        tool_call_ok(name@, Some(*args), res),
{
    let n = chars_of(name);
    proof {
        reveal_strlit("");
    }
    if eq_str(n.as_slice(), "fast_view") {
        dispatch_view(args)
    } else if eq_str(n.as_slice(), "fast_read_batch") {
        dispatch_batch(args)
    } else if eq_str(n.as_slice(), "grep_context") {
        dispatch_grep(args)
    } else if eq_str(n.as_slice(), "poll_service") {
        dispatch_poll(args)
    } else if eq_str(n.as_slice(), "edit_and_verify") {
        dispatch_edit(args)
    } else if eq_str(n.as_slice(), "git_snapshot") {
        McpAction::Call(ToolInvocation::GitSnapshot { repo_dir: get_str_or(args, "repo_dir", ".") })
    } else {
        let mut m = chars_of("Unknown tool: ");
        push_str(&mut m, name);
        McpAction::Reply(McpReply::Error { code: -32602, message: string_of(m.as_slice()) })
    }
}

/// Decides what a request calls for: the `initialize` result and the
/// `tools/list` catalog (exactly as `catalog` states them),
/// nothing for the `notifications/initialized` notification, a tool to run (or
/// the error for an unknown tool or bad poll arguments) for `tools/call`, and
/// "Method not found" (-32601) for anything else.
pub fn handle_mcp_request(req: &JsonValue) -> (res: McpAction)
    ensures
        ({
            let m = method_of(*req);
            if m == "initialize"@ {
                res matches McpAction::Reply(McpReply::Initialize(body)) && tree_of(body)
                    == initialize_result_spec()
            } else if m == "notifications/initialized"@ {
                res is NoReply
            } else if m == "tools/list"@ {
                res matches McpAction::Reply(McpReply::ToolList(body)) && tree_of(body)
                    == tool_catalog_spec()
            } else if m == "tools/call"@ {
                tool_call_ok(call_name(*req), call_args(*req), res)
            } else {
                res matches McpAction::Reply(McpReply::Error { code, message }) && code == -32601
                    && message@ == "Method not found"@
            }
        }),
{
    let method = get_str_or(req, "method", "");
    proof {
        reveal_strlit("");
        assert(""@ =~= Seq::<char>::empty());
    }
    let mc = chars_of(method.as_str());
    if eq_str(mc.as_slice(), "initialize") {
        return McpAction::Reply(McpReply::Initialize(initialize_result()));
    }
    if eq_str(mc.as_slice(), "notifications/initialized") {
        return McpAction::NoReply;
    }
    if eq_str(mc.as_slice(), "tools/list") {
        return McpAction::Reply(McpReply::ToolList(tool_catalog()));
    }
    if eq_str(mc.as_slice(), "tools/call") {
        let empty = JsonValue::Object(Vec::new());
        let (name, args): (String, &JsonValue) = match json_get(req, "params") {
            Some(p) => {
                let name = get_str_or(p, "name", "");
                match json_get(p, "arguments") {
                    Some(a) => (name, a),
                    None => (name, &empty),
                }
            },
            None => (string_of(Vec::<char>::new().as_slice()), &empty),
        };
        let act = dispatch_tool(name.as_str(), args);
        proof {
            if call_args(*req) is None {
                assert forall|k: Seq<char>| arg_member(Some(empty), k) == arg_member(None, k) by {
                    assert(empty matches JsonValue::Object(p) && p@.len() == 0);
                }
                assert(tool_call_ok(call_name(*req), call_args(*req), act) == tool_call_ok(call_name(*req), Some(empty), act));
            }
        }
        return act;
    }
    McpAction::Reply(
        McpReply::Error { code: -32601, message: string_of(chars_of("Method not found").as_slice()) },
    )
}

/// What running a tool produced, as the dispatcher frames it.
#[derive(Debug)]
pub enum ToolOutcome {
    /// A text result or an error text (`fast_view`, `grep_context`, `git_snapshot`).
    Text(Result<String, String>),
    /// A text that is never an error (`fast_read_batch`).
    Plain(String),
    /// A serialised report and whether it reports success (`poll_service`, `edit_and_verify`).
    Report { json: String, success: bool },
}

/// Frames a tool's outcome: errors are prefixed with `"Error: "` and flagged, as
/// are reports of failure.
pub fn tool_reply(outcome: ToolOutcome) -> (res: McpReply)
    ensures
        match outcome {
            ToolOutcome::Text(Ok(t)) => res matches McpReply::ToolResult { text, is_error } && text@
                == t@ && !is_error,
            ToolOutcome::Text(Err(e)) => res matches McpReply::ToolResult { text, is_error } && text@
                == "Error: "@ + e@ && is_error,
            ToolOutcome::Plain(t) => res matches McpReply::ToolResult { text, is_error } && text@
                == t@ && !is_error,
            ToolOutcome::Report { json, success } => res matches McpReply::ToolResult {
                text,
                is_error,
            } && text@ == json@ && is_error == !success,
        },
{
    match outcome {
        ToolOutcome::Text(Ok(t)) => McpReply::ToolResult { text: t, is_error: false },
        ToolOutcome::Text(Err(e)) => {
            let mut t = chars_of("Error: ");
            push_str(&mut t, e.as_str());
            McpReply::ToolResult { text: string_of(t.as_slice()), is_error: true }
        },
        ToolOutcome::Plain(t) => McpReply::ToolResult { text: t, is_error: false },
        ToolOutcome::Report { json, success } => McpReply::ToolResult { text: json, is_error: !success },
    }
}

} // verus!
