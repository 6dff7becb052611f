//! The fixed JSON bodies the MCP server answers with: the `initialize` result
//! and the `tools/list` catalog of the five tools with their input schemas.
//!
//! A `JsonValue` is read as a `JsonTree`, its mathematical value, so that each
//! body can be stated exactly.

use vstd::prelude::*;
use crate::text::{chars_of, string_of};
use crate::mcp::{JsonNumber, JsonValue};

verus! {

/// A JSON document as a mathematical value: strings are character sequences,
/// arrays and objects are sequences (an object's members in order).
pub enum JsonTree {
    Null,
    Bool(bool),
    Number(JsonNumber),
    Str(Seq<char>),
    Array(Seq<JsonTree>),
    Object(Seq<(Seq<char>, JsonTree)>),
}

/// The mathematical value of a JSON value.
pub open spec fn tree_of(v: JsonValue) -> JsonTree
    decreases v,
{
    match v {
        JsonValue::Null => JsonTree::Null,
        JsonValue::Bool(b) => JsonTree::Bool(b),
        JsonValue::Number(n) => JsonTree::Number(n),
        JsonValue::Str(s) => JsonTree::Str(s@),
        JsonValue::Array(items) => JsonTree::Array(trees_of(items@)),
        JsonValue::Object(pairs) => JsonTree::Object(members_of(pairs@)),
    }
}

/// The values of the items of an array.
pub open spec fn trees_of(items: Seq<JsonValue>) -> Seq<JsonTree>
    decreases items,
{
    if items.len() == 0 {
        seq![]
    } else {
        trees_of(items.drop_last()).push(tree_of(items.last()))
    }
}

/// The names and values of the members of an object.
pub open spec fn members_of(pairs: Seq<(String, JsonValue)>) -> Seq<(Seq<char>, JsonTree)>
    decreases pairs,
{
    if pairs.len() == 0 {
        seq![]
    } else {
        members_of(pairs.drop_last()).push((pairs.last().0@, tree_of(pairs.last().1)))
    }
}

// ---------------------------------------------------------------------------
// Building values
// ---------------------------------------------------------------------------

fn jstr(s: &str) -> (r: JsonValue)
    ensures
        tree_of(r) == JsonTree::Str(s@),
{
    JsonValue::Str(string_of(chars_of(s).as_slice()))
}

fn jnum(n: u64) -> (r: JsonValue)
    ensures
        tree_of(r) == JsonTree::Number(JsonNumber::PosInt(n)),
{
    JsonValue::Number(JsonNumber::PosInt(n))
}

fn jbool(b: bool) -> (r: JsonValue)
    ensures
        tree_of(r) == JsonTree::Bool(b),
{
    JsonValue::Bool(b)
}

fn item(items: &mut Vec<JsonValue>, v: JsonValue)
    ensures
        trees_of(final(items)@) == trees_of(old(items)@).push(tree_of(v)),
{
    let ghost before = items@;
    items.push(v);
    assert(items@.drop_last() =~= before);
}

fn member(pairs: &mut Vec<(String, JsonValue)>, key: &str, v: JsonValue)
    ensures
        members_of(final(pairs)@) == members_of(old(pairs)@).push((key@, tree_of(v))),
{
    let ghost before = pairs@;
    pairs.push((string_of(chars_of(key).as_slice()), v));
    assert(pairs@.drop_last() =~= before);
}

fn object(pairs: Vec<(String, JsonValue)>) -> (r: JsonValue)
    ensures
        tree_of(r) == JsonTree::Object(members_of(pairs@)),
{
    JsonValue::Object(pairs)
}

fn array(items: Vec<JsonValue>) -> (r: JsonValue)
    ensures
        tree_of(r) == JsonTree::Array(trees_of(items@)),
{
    JsonValue::Array(items)
}

// ---------------------------------------------------------------------------
// Schema pieces
// ---------------------------------------------------------------------------

/// `{"type": ty}`.
pub open spec fn typed(ty: Seq<char>) -> JsonTree {
    JsonTree::Object(seq![("type"@, JsonTree::Str(ty))])
}

/// `{"type": ty, "description": d}`.
pub open spec fn typed_described(ty: Seq<char>, d: Seq<char>) -> JsonTree {
    JsonTree::Object(seq![("type"@, JsonTree::Str(ty))].push(("description"@, JsonTree::Str(d))))
}

/// `{"type": ty, "default": dflt}`.
pub open spec fn typed_default(ty: Seq<char>, dflt: JsonTree) -> JsonTree {
    JsonTree::Object(seq![("type"@, JsonTree::Str(ty))].push(("default"@, dflt)))
}

/// The string `s`.
pub open spec fn jtext(s: Seq<char>) -> JsonTree {
    JsonTree::Str(s)
}

/// `{"type": "object", "properties": props}`, with `"required": req` when given.
pub open spec fn schema(props: Seq<(Seq<char>, JsonTree)>, req: Option<JsonTree>) -> JsonTree {
    let base = seq![("type"@, JsonTree::Str("object"@))].push(("properties"@, JsonTree::Object(props)));
    match req {
        Some(r) => JsonTree::Object(base.push(("required"@, r))),
        None => JsonTree::Object(base),
    }
}

/// `{"name": n, "description": d, "inputSchema": s}`.
pub open spec fn tool(n: Seq<char>, d: Seq<char>, s: JsonTree) -> JsonTree {
    JsonTree::Object(
        seq![("name"@, JsonTree::Str(n))].push(("description"@, JsonTree::Str(d))).push(("inputSchema"@, s)),
    )
}

fn typed_exec(ty: &str) -> (r: JsonValue)
    ensures
        tree_of(r) == typed(ty@),
{
    let mut m = Vec::new();
    member(&mut m, "type", jstr(ty));
    object(m)
}

fn typed_described_exec(ty: &str, d: &str) -> (r: JsonValue)
    ensures
        tree_of(r) == typed_described(ty@, d@),
{
    let mut m = Vec::new();
    member(&mut m, "type", jstr(ty));
    member(&mut m, "description", jstr(d));
    object(m)
}

fn typed_default_exec(ty: &str, dflt: JsonValue) -> (r: JsonValue)
    ensures
        tree_of(r) == typed_default(ty@, tree_of(dflt)),
{
    let mut m = Vec::new();
    member(&mut m, "type", jstr(ty));
    member(&mut m, "default", dflt);
    object(m)
}

fn schema_exec(props: Vec<(String, JsonValue)>, req: Option<JsonValue>) -> (r: JsonValue)
    ensures
        tree_of(r) == schema(
            members_of(props@),
            match req {
                Some(n) => Some(tree_of(n)),
                None => None,
            },
        ),
{
    let mut m = Vec::new();
    member(&mut m, "type", jstr("object"));
    member(&mut m, "properties", object(props));
    match req {
        Some(names) => {
            member(&mut m, "required", names);
        },
        None => {},
    }
    object(m)
}

fn tool_exec(n: &str, d: &str, s: JsonValue) -> (r: JsonValue)
    ensures
        tree_of(r) == tool(n@, d@, tree_of(s)),
{
    let mut m = Vec::new();
    member(&mut m, "name", jstr(n));
    member(&mut m, "description", jstr(d));
    member(&mut m, "inputSchema", s);
    object(m)
}

// ---------------------------------------------------------------------------
// The tools
// ---------------------------------------------------------------------------

/// `fast_view`: whole-file and sliced reading.
pub open spec fn fast_view_tool() -> JsonTree {
    tool(
        "fast_view"@,
        "High-performance whole-file reader with line numbers, outline mode, and safety caps."@,
        schema(
            seq![("path"@, typed_described("string"@, "Path to file"@))]
                .push(("start_line"@, typed_described("integer"@, "Optional 1-indexed start line"@)))
                .push(("end_line"@, typed_described("integer"@, "Optional 1-indexed end line"@)))
                .push(("line_numbers"@, typed_default("boolean"@, JsonTree::Bool(true))))
                .push(("outline"@, typed_default("boolean"@, JsonTree::Bool(false))))
                .push(("force_all"@, typed_default("boolean"@, JsonTree::Bool(false)))),
            Some(JsonTree::Array(seq![jtext("path"@)])),
        ),
    )
}

/// `grep_context`: boundary-clamped search.
pub open spec fn grep_context_tool() -> JsonTree {
    tool(
        "grep_context"@,
        "Boundary-clamped search returning matching lines with surrounding context."@,
        schema(
            seq![
                (
                    "paths"@,
                    JsonTree::Object(
                        seq![("type"@, jtext("array"@))].push(("items"@, typed("string"@))),
                    ),
                ),
            ]
                .push(("pattern"@, typed("string"@)))
                .push(("context_lines"@, typed_default("integer"@, JsonTree::Number(JsonNumber::PosInt(10)))))
                .push(("max_matches"@, typed_default("integer"@, JsonTree::Number(JsonNumber::PosInt(5)))))
                .push(("is_regex"@, typed_default("boolean"@, JsonTree::Bool(false))))
                .push(("case_sensitive"@, typed_default("boolean"@, JsonTree::Bool(false)))),
            Some(JsonTree::Array(seq![jtext("paths"@)].push(jtext("pattern"@)))),
        ),
    )
}

/// `poll_service`: process and port liveness polling.
pub open spec fn poll_service_tool() -> JsonTree {
    tool(
        "poll_service"@,
        "Deterministic process or port liveness poller with timeout."@,
        schema(
            seq![("pid"@, typed("integer"@))]
                .push(("port"@, typed("integer"@)))
                .push(
                    (
                        "state"@,
                        JsonTree::Object(
                            seq![("type"@, jtext("string"@))]
                                .push(
                                    (
                                        "enum"@,
                                        JsonTree::Array(
                                            seq![jtext("alive"@)].push(jtext("terminated"@)).push(jtext("ready"@)),
                                        ),
                                    ),
                                )
                                .push(("default"@, jtext("ready"@))),
                        ),
                    ),
                )
                .push(("timeout_ms"@, typed_default("integer"@, JsonTree::Number(JsonNumber::PosInt(5000)))))
                .push(("interval_ms"@, typed_default("integer"@, JsonTree::Number(JsonNumber::PosInt(200))))),
            None,
        ),
    )
}

/// `edit_and_verify`: transactional edit with verification and rollback.
pub open spec fn edit_and_verify_tool() -> JsonTree {
    tool(
        "edit_and_verify"@,
        "Applies a file edit and executes a verification command, auto-rolling back if verification fails."@,
        schema(
            seq![("target_file"@, typed("string"@))]
                .push(("target_content"@, typed("string"@)))
                .push(("replacement_content"@, typed("string"@)))
                .push(("allow_multiple"@, typed_default("boolean"@, JsonTree::Bool(false))))
                .push(("verify_command"@, typed("string"@)))
                .push(("rollback_on_failure"@, typed_default("boolean"@, JsonTree::Bool(true))))
                .push(("cwd"@, typed("string"@))),
            Some(
                JsonTree::Array(
                    seq![jtext("target_file"@)].push(jtext("target_content"@)).push(
                        jtext("replacement_content"@),
                    ),
                ),
            ),
        ),
    )
}

/// `git_snapshot`: working tree status and diff summary.
pub open spec fn git_snapshot_tool() -> JsonTree {
    tool(
        "git_snapshot"@,
        "Sub-3ms working tree status and diff summary."@,
        schema(seq![("repo_dir"@, typed_default("string"@, jtext("."@)))], None),
    )
}

/// The `tools/list` result: `{"tools": [...]}` with the five tools, in this order.
pub open spec fn tool_catalog_spec() -> JsonTree {
    JsonTree::Object(
        seq![
            (
                "tools"@,
                JsonTree::Array(
                    seq![fast_view_tool()]
                        .push(grep_context_tool())
                        .push(poll_service_tool())
                        .push(edit_and_verify_tool())
                        .push(git_snapshot_tool()),
                ),
            ),
        ],
    )
}

/// The `initialize` result: protocol version, tool capability and server info.
pub open spec fn initialize_result_spec() -> JsonTree {
    JsonTree::Object(
        seq![("protocolVersion"@, jtext("2024-11-05"@))]
            .push(("capabilities"@, JsonTree::Object(seq![("tools"@, JsonTree::Object(seq![]))])))
            .push(
                (
                    "serverInfo"@,
                    JsonTree::Object(
                        seq![("name"@, jtext("fast-tools"@))].push(("version"@, jtext("0.1.0"@))),
                    ),
                ),
            ),
    )
}

fn fast_view_exec() -> (r: JsonValue)
    ensures
        tree_of(r) == fast_view_tool(),
{
    let mut p = Vec::new();
    member(&mut p, "path", typed_described_exec("string", "Path to file"));
    member(&mut p, "start_line", typed_described_exec("integer", "Optional 1-indexed start line"));
    member(&mut p, "end_line", typed_described_exec("integer", "Optional 1-indexed end line"));
    member(&mut p, "line_numbers", typed_default_exec("boolean", jbool(true)));
    member(&mut p, "outline", typed_default_exec("boolean", jbool(false)));
    member(&mut p, "force_all", typed_default_exec("boolean", jbool(false)));
    let mut req = Vec::new();
    item(&mut req, jstr("path"));
    let s = schema_exec(p, Some(array(req)));
    tool_exec(
        "fast_view",
        "High-performance whole-file reader with line numbers, outline mode, and safety caps.",
        s,
    )
}

fn grep_context_exec() -> (r: JsonValue)
    ensures
        tree_of(r) == grep_context_tool(),
{
    let mut arr = Vec::new();
    member(&mut arr, "type", jstr("array"));
    member(&mut arr, "items", typed_exec("string"));
    let mut p = Vec::new();
    member(&mut p, "paths", object(arr));
    member(&mut p, "pattern", typed_exec("string"));
    member(&mut p, "context_lines", typed_default_exec("integer", jnum(10)));
    member(&mut p, "max_matches", typed_default_exec("integer", jnum(5)));
    member(&mut p, "is_regex", typed_default_exec("boolean", jbool(false)));
    member(&mut p, "case_sensitive", typed_default_exec("boolean", jbool(false)));
    let mut req = Vec::new();
    item(&mut req, jstr("paths"));
    item(&mut req, jstr("pattern"));
    let s = schema_exec(p, Some(array(req)));
    tool_exec("grep_context", "Boundary-clamped search returning matching lines with surrounding context.", s)
}

fn poll_service_exec() -> (r: JsonValue)
    ensures
        tree_of(r) == poll_service_tool(),
{
    let mut states = Vec::new();
    item(&mut states, jstr("alive"));
    item(&mut states, jstr("terminated"));
    item(&mut states, jstr("ready"));
    let mut st = Vec::new();
    member(&mut st, "type", jstr("string"));
    member(&mut st, "enum", array(states));
    member(&mut st, "default", jstr("ready"));
    let mut p = Vec::new();
    member(&mut p, "pid", typed_exec("integer"));
    member(&mut p, "port", typed_exec("integer"));
    member(&mut p, "state", object(st));
    member(&mut p, "timeout_ms", typed_default_exec("integer", jnum(5000)));
    member(&mut p, "interval_ms", typed_default_exec("integer", jnum(200)));
    let s = schema_exec(p, None);
    tool_exec("poll_service", "Deterministic process or port liveness poller with timeout.", s)
}

fn edit_and_verify_exec() -> (r: JsonValue)
    ensures
        tree_of(r) == edit_and_verify_tool(),
{
    let mut p = Vec::new();
    member(&mut p, "target_file", typed_exec("string"));
    member(&mut p, "target_content", typed_exec("string"));
    member(&mut p, "replacement_content", typed_exec("string"));
    member(&mut p, "allow_multiple", typed_default_exec("boolean", jbool(false)));
    member(&mut p, "verify_command", typed_exec("string"));
    member(&mut p, "rollback_on_failure", typed_default_exec("boolean", jbool(true)));
    member(&mut p, "cwd", typed_exec("string"));
    let mut req = Vec::new();
    item(&mut req, jstr("target_file"));
    item(&mut req, jstr("target_content"));
    item(&mut req, jstr("replacement_content"));
    let s = schema_exec(p, Some(array(req)));
    tool_exec(
        "edit_and_verify",
        "Applies a file edit and executes a verification command, auto-rolling back if verification fails.",
        s,
    )
}

fn git_snapshot_exec() -> (r: JsonValue)
    ensures
        tree_of(r) == git_snapshot_tool(),
{
    let mut p = Vec::new();
    member(&mut p, "repo_dir", typed_default_exec("string", jstr(".")));
    let s = schema_exec(p, None);
    tool_exec("git_snapshot", "Sub-3ms working tree status and diff summary.", s)
}

/// The `tools/list` result.
pub fn tool_catalog() -> (r: JsonValue)
    ensures
        tree_of(r) == tool_catalog_spec(),
{
    let mut tools = Vec::new();
    item(&mut tools, fast_view_exec());
    item(&mut tools, grep_context_exec());
    item(&mut tools, poll_service_exec());
    item(&mut tools, edit_and_verify_exec());
    item(&mut tools, git_snapshot_exec());
    let mut m = Vec::new();
    member(&mut m, "tools", array(tools));
    object(m)
}

/// The `initialize` result.
pub fn initialize_result() -> (r: JsonValue)
    ensures
        tree_of(r) == initialize_result_spec(),
{
    let mut caps = Vec::new();
    member(&mut caps, "tools", object(Vec::new()));
    let mut info = Vec::new();
    member(&mut info, "name", jstr("fast-tools"));
    member(&mut info, "version", jstr("0.1.0"));
    let mut m = Vec::new();
    member(&mut m, "protocolVersion", jstr("2024-11-05"));
    member(&mut m, "capabilities", object(caps));
    member(&mut m, "serverInfo", object(info));
    object(m)
}

} // verus!
