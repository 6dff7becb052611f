//! Agent lifecycle hooks: rewriting slow shell commands to fast-tools before
//! they run, and holding the agent back when its artifacts break the style rules.

use vstd::prelude::*;
use crate::text::{
    chars_of, dec, eq_str, fmt_usize, push_all, push_str, slice_chars, starts_with,
    string_of, trim, trim_chars,
};
use crate::style::{
    StyleViolation, StyleViolationView, check_with_rules, findings_of, load_style_rules,
    rules_error, violations_view,
};

verus! {

/// The arguments of a tool call that the router reads.
#[derive(Debug, Clone)]
pub struct ToolArgs {
    /// The `CommandLine` argument, when it is a string.
    pub command_line: Option<String>,
}

/// The tool about to run.
#[derive(Debug, Clone)]
pub struct ToolCall {
    pub name: String,
    pub args: Option<ToolArgs>,
}

/// The payload of a pre-tool hook.
#[derive(Debug, Clone)]
pub struct PreToolPayload {
    pub tool_call: Option<ToolCall>,
    pub step_idx: Option<i64>,
    pub conversation_id: Option<String>,
    pub workspace_paths: Option<Vec<String>>,
}

/// New arguments for the tool call.
#[derive(Debug, Clone)]
pub struct CommandOverwrite {
    /// The replacement `CommandLine`.
    pub command_line: String,
}

/// The answer to a pre-tool hook.
#[derive(Debug, Clone)]
pub struct PreToolResponse {
    pub decision: String,
    pub reason: Option<String>,
    pub overwrite: Option<CommandOverwrite>,
}

// ---------------------------------------------------------------------------
// Command rewriting
// ---------------------------------------------------------------------------

/// An ASCII decimal digit.
pub open spec fn is_digit(c: char) -> bool {
    '0' <= c <= '9'
}

/// A non-empty run of ASCII digits.
pub open spec fn all_digits(s: Seq<char>) -> bool {
    s.len() > 0 && forall|i: int| 0 <= i < s.len() ==> is_digit(#[trigger] s[i])
}

/// A character that may appear in a plain path operand of `cat`.
pub open spec fn is_path_char(c: char) -> bool {
    ||| 'a' <= c <= 'z'
    ||| 'A' <= c <= 'Z'
    ||| '0' <= c <= '9'
    ||| c == '.' || c == '_' || c == '/' || c == '-' || c == '+' || c == '@' || c == '%' || c
        == ':' || c == ',' || c == '='
}

/// A single path operand: non-empty, plain characters only, not an option.
pub open spec fn is_plain_path(s: Seq<char>) -> bool {
    s.len() > 0 && s[0] != '-' && forall|i: int| 0 <= i < s.len() ==> is_path_char(#[trigger] s[i])
}

/// `s` ends with `p`.
pub open spec fn ends_with(s: Seq<char>, p: Seq<char>) -> bool {
    p.len() <= s.len() && s.skip(s.len() - p.len()) == p
}

/// The middle of `s` between `pre` and `post`, when `s` is `pre + middle + post`.
pub open spec fn between(s: Seq<char>, pre: Seq<char>, post: Seq<char>) -> Option<Seq<char>> {
    if pre.len() + post.len() <= s.len() && starts_with(s, pre) && ends_with(s, post) {
        Some(s.subrange(pre.len() as int, s.len() - post.len()))
    } else {
        None
    }
}

/// The middle of `s` between `pre` and `post` when it is a run of digits.
pub open spec fn digits_between(s: Seq<char>, pre: Seq<char>, post: Seq<char>) -> Option<Seq<char>> {
    match between(s, pre, post) {
        Some(d) => if all_digits(d) {
            Some(d)
        } else {
            None
        },
        None => None,
    }
}

/// The four accepted spellings of the Python liveness one-liner, as the text
/// before and after the pid.
pub open spec fn python_forms() -> Seq<(Seq<char>, Seq<char>)> {
    let body = "import os; os.kill("@;
    let tail = ", 0)"@;
    seq![
        ("python3 -c \""@ + body, tail + "\""@),
        ("python3 -c '"@ + body, tail + "'"@),
        ("python -c \""@ + body, tail + "\""@),
        ("python -c '"@ + body, tail + "'"@),
    ]
}

/// The pid of a one-shot Python liveness check, trying the spellings in order
/// from the `k`-th.
pub open spec fn python_kill_from(c: Seq<char>, k: int) -> Option<Seq<char>>
    decreases 4 - k,
{
    if k >= 4 || k < 0 {
        None
    } else {
        match digits_between(c, python_forms()[k].0, python_forms()[k].1) {
            Some(d) => Some(d),
            None => python_kill_from(c, k + 1),
        }
    }
}

/// The pid of a one-shot Python liveness check `python3 -c "import os; os.kill(PID, 0)"`
/// (also with `python`, and with single quotes).
pub open spec fn python_kill_pid(c: Seq<char>) -> Option<Seq<char>> {
    python_kill_from(c, 0)
}

/// The path operand of `cat PATH`.
pub open spec fn cat_path(c: Seq<char>) -> Option<Seq<char>> {
    match between(c, "cat "@, seq![]) {
        Some(p) => if is_plain_path(p) {
            Some(p)
        } else {
            None
        },
        None => None,
    }
}

/// The command that replaces a liveness check of `pid`.
pub open spec fn poll_command(pid: Seq<char>) -> Seq<char> {
    "fast-tools poll --pid "@ + pid + " --state alive --timeout 5000"@
}

/// The replacement command and the reason for a (trimmed) command line, when
/// one of the rewriting rules applies; the rules are tried in this order:
/// `git status` (plain, `-s`, `--short`), `cat PATH`, `lsof -p PID`, and the
/// Python `os.kill(PID, 0)` one-liner.
pub open spec fn rewrite_spec(cmd: Seq<char>) -> Option<(Seq<char>, Seq<char>)> {
    let c = trim(cmd);
    if c == "git status"@ || c == "git status -s"@ || c == "git status --short"@ {
        Some(("fast-tools git-snapshot"@, "Rewrote git status to fast-tools git-snapshot"@))
    } else if cat_path(c) is Some {
        Some(("fast-tools view "@ + cat_path(c)->Some_0, "Rewrote cat to fast-tools view"@))
    } else if digits_between(c, "lsof -p "@, seq![]) is Some {
        Some((poll_command(digits_between(c, "lsof -p "@, seq![])->Some_0), "Rewrote lsof liveness check to fast-tools poll"@))
    } else if python_kill_pid(c) is Some {
        Some((poll_command(python_kill_pid(c)->Some_0), "Rewrote os.kill liveness check to fast-tools poll"@))
    } else {
        None
    }
}

fn is_digit_char(c: char) -> (res: bool)
    ensures
        res == is_digit(c),
{
    '0' <= c && c <= '9'
}

fn digits_only(s: &[char]) -> (res: bool)
    ensures
        res == all_digits(s@),
{
    if s.len() == 0 {
        return false;
    }
    let mut i: usize = 0;
    while i < s.len()
        invariant
            i <= s@.len(),
            forall|k: int| 0 <= k < i ==> is_digit(#[trigger] s@[k]),
        decreases s@.len() - i,
    {
        if !is_digit_char(s[i]) {
            return false;
        }
        i = i + 1;
    }
    true
}

fn plain_path(s: &[char]) -> (res: bool)
    ensures
        res == is_plain_path(s@),
{
    if s.len() == 0 || s[0] == '-' {
        return false;
    }
    let mut i: usize = 0;
    while i < s.len()
        invariant
            i <= s@.len(),
            forall|k: int| 0 <= k < i ==> is_path_char(#[trigger] s@[k]),
        decreases s@.len() - i,
    {
        let c = s[i];
        let ok = ('a' <= c && c <= 'z') || ('A' <= c && c <= 'Z') || ('0' <= c && c <= '9') || c
            == '.' || c == '_' || c == '/' || c == '-' || c == '+' || c == '@' || c == '%' || c
            == ':' || c == ',' || c == '=';
        if !ok {
            return false;
        }
        i = i + 1;
    }
    true
}

fn middle_of(s: &[char], pre: &[char], post: &[char]) -> (res: Option<Vec<char>>)
    ensures
        match between(s@, pre@, post@) {
            Some(m) => res matches Some(r) && r@ == m,
            None => res is None,
        },
{
    if pre.len() > s.len() || post.len() > s.len() - pre.len() {
        return None;
    }
    let p = slice_chars(s, 0, pre.len());
    let q = slice_chars(s, s.len() - post.len(), s.len());
    if !crate::text::chars_eq(p.as_slice(), pre) || !crate::text::chars_eq(q.as_slice(), post) {
        proof {
            assert(s@.take(pre@.len() as int) == s@.subrange(0, pre@.len() as int));
            assert(s@.skip(s@.len() - post@.len()) == s@.subrange(s@.len() - post@.len(), s@.len() as int));
        }
        return None;
    }
    proof {
        assert(s@.take(pre@.len() as int) == s@.subrange(0, pre@.len() as int));
        assert(s@.skip(s@.len() - post@.len()) == s@.subrange(s@.len() - post@.len(), s@.len() as int));
    }
    Some(slice_chars(s, pre.len(), s.len() - post.len()))
}

fn middle_of_str(s: &[char], pre: &str, post: &str) -> (res: Option<Vec<char>>)
    ensures
        match between(s@, pre@, post@) {
            Some(m) => res matches Some(r) && r@ == m,
            None => res is None,
        },
{
    let p = chars_of(pre);
    let q = chars_of(post);
    middle_of(s, p.as_slice(), q.as_slice())
}

fn python_pid(c: &[char]) -> (res: Option<Vec<char>>)
    ensures
        match python_kill_pid(c@) {
            Some(d) => res matches Some(r) && r@ == d,
            None => res is None,
        },
{
    let forms = [
        ("python3 -c \"import os; os.kill(", ", 0)\""),
        ("python3 -c 'import os; os.kill(", ", 0)'"),
        ("python -c \"import os; os.kill(", ", 0)\""),
        ("python -c 'import os; os.kill(", ", 0)'"),
    ];
    proof {
        reveal_strlit("python3 -c \"import os; os.kill(");
        reveal_strlit("python3 -c 'import os; os.kill(");
        reveal_strlit("python -c \"import os; os.kill(");
        reveal_strlit("python -c 'import os; os.kill(");
        reveal_strlit("import os; os.kill(");
        reveal_strlit(", 0)\"");
        reveal_strlit(", 0)'");
        reveal_strlit(", 0)");
        reveal_strlit("python3 -c \"");
        reveal_strlit("python3 -c '");
        reveal_strlit("python -c \"");
        reveal_strlit("python -c '");
        reveal_strlit("\"");
        reveal_strlit("'");
        let pf = python_forms();
        assert(forms[0].0@ =~= pf[0].0);
        assert(forms[1].0@ =~= pf[1].0);
        assert(forms[2].0@ =~= pf[2].0);
        assert(forms[3].0@ =~= pf[3].0);
        assert(forms[0].1@ =~= pf[0].1);
        assert(forms[1].1@ =~= pf[1].1);
        assert(forms[2].1@ =~= pf[2].1);
        assert(forms[3].1@ =~= pf[3].1);
    }
    let mut k: usize = 0;
    while k < 4
        invariant
            k <= 4,
            forall|j: int| 0 <= j < 4 ==> (#[trigger] forms@[j]).0@ == python_forms()[j].0 && forms@[j].1@ == python_forms()[j].1,
            python_kill_pid(c@) == python_kill_from(c@, k as int),
        decreases 4 - k,
    {
        let d = middle_of_str(c, forms[k].0, forms[k].1);
        proof {
            assert(forms@[k as int] == forms[k as int]);
        }
        if let Some(d) = d {
            if digits_only(d.as_slice()) {
                return Some(d);
            }
        }
        k = k + 1;
    }
    None
}

/// The replacement command and reason for `cmd`, if a rewriting rule applies.
pub fn rewrite_command(cmd: &str) -> (res: Option<(String, String)>)
    ensures
        match rewrite_spec(cmd@) {
            Some((c, r)) => res matches Some(x) && x.0@ == c && x.1@ == r,
            None => res is None,
        },
{
    let raw = chars_of(cmd);
    let c = trim_chars(raw.as_slice());
    if eq_str(c.as_slice(), "git status") || eq_str(c.as_slice(), "git status -s") || eq_str(
        c.as_slice(),
        "git status --short",
    ) {
        let a = chars_of("fast-tools git-snapshot");
        let b = chars_of("Rewrote git status to fast-tools git-snapshot");
        return Some((string_of(a.as_slice()), string_of(b.as_slice())));
    }
    proof {
        reveal_strlit("");
        assert(""@ =~= Seq::<char>::empty());
    }
    if let Some(p) = middle_of_str(c.as_slice(), "cat ", "") {
        if plain_path(p.as_slice()) {
            let mut a = chars_of("fast-tools view ");
            push_all(&mut a, p.as_slice());
            let b = chars_of("Rewrote cat to fast-tools view");
            return Some((string_of(a.as_slice()), string_of(b.as_slice())));
        }
    }
    proof {
        reveal_strlit("");
        assert(""@ =~= Seq::<char>::empty());
    }
    if let Some(d) = middle_of_str(c.as_slice(), "lsof -p ", "") {
        if digits_only(d.as_slice()) {
            let mut a = chars_of("fast-tools poll --pid ");
            push_all(&mut a, d.as_slice());
            push_str(&mut a, " --state alive --timeout 5000");
            let b = chars_of("Rewrote lsof liveness check to fast-tools poll");
            return Some((string_of(a.as_slice()), string_of(b.as_slice())));
        }
    }
    if let Some(d) = python_pid(c.as_slice()) {
        let mut a = chars_of("fast-tools poll --pid ");
        push_all(&mut a, d.as_slice());
        push_str(&mut a, " --state alive --timeout 5000");
        let b = chars_of("Rewrote os.kill liveness check to fast-tools poll");
        return Some((string_of(a.as_slice()), string_of(b.as_slice())));
    }
    None
}

/// The command line a payload asks to run through `run_command`, if any.
pub open spec fn routed_command(payload: Option<&PreToolPayload>) -> Option<Seq<char>> {
    match payload {
        Some(p) => match p.tool_call {
            Some(tc) => if tc.name@ == "run_command"@ {
                match tc.args {
                    Some(a) => match a.command_line {
                        Some(c) => Some(c@),
                        None => Some(seq![]),
                    },
                    None => None,
                }
            } else {
                None
            },
            None => None,
        },
        None => None,
    }
}

/// Routes a pre-tool hook. `None` stands for input that is not a valid payload.
/// Every call is allowed; a `run_command` whose command line matches a
/// rewriting rule gets the replacement command and the reason.
pub fn route_pre_tool(payload: Option<&PreToolPayload>) -> (res: PreToolResponse)
    ensures
        res.decision@ == "allow"@,
        match routed_command(payload) {
            Some(c) => match rewrite_spec(c) {
                Some((cmd, why)) => (res.overwrite matches Some(o) && o.command_line@ == cmd) && (
                res.reason matches Some(r) && r@ == why),
                None => res.overwrite is None && res.reason is None,
            },
            None => res.overwrite is None && res.reason is None,
        },
{
    let allow = string_of(chars_of("allow").as_slice());
    let plain = PreToolResponse { decision: allow, reason: None, overwrite: None };
    let p = match payload {
        Some(p) => p,
        None => return plain,
    };
    let tc = match &p.tool_call {
        Some(tc) => tc,
        None => return plain,
    };
    let name = chars_of(tc.name.as_str());
    if !eq_str(name.as_slice(), "run_command") {
        return plain;
    }
    let args = match &tc.args {
        Some(a) => a,
        None => return plain,
    };
    let rewritten = match &args.command_line {
        Some(c) => rewrite_command(c.as_str()),
        None => {
            proof {
                reveal_strlit("");
                assert(""@ =~= Seq::<char>::empty());
            }
            rewrite_command("")
        },
    };
    match rewritten {
        Some((cmd, why)) => PreToolResponse {
            decision: plain.decision,
            reason: Some(why),
            overwrite: Some(CommandOverwrite { command_line: cmd }),
        },
        None => plain,
    }
}

// ---------------------------------------------------------------------------
// Stop hook
// ---------------------------------------------------------------------------

/// An artifact written by the agent: its path and text.
#[derive(Debug, Clone)]
pub struct Artifact {
    pub path: String,
    pub text: String,
}

/// The answer to a stop hook.
#[derive(Debug, Clone)]
pub struct StopResponse {
    pub decision: String,
    pub reason: Option<String>,
}

/// One reported finding: `path:line: [rule] "term" in: snippet`.
pub open spec fn finding_line(path: Seq<char>, v: StyleViolationView) -> Seq<char> {
    path + ":"@ + dec(v.line_number as nat) + ": ["@ + v.rule + "] \""@ + v.term + "\" in: "@
        + v.snippet + "\n"@
}

/// The report lines for the first `n` findings of one artifact.
pub open spec fn finding_lines(path: Seq<char>, vs: Seq<StyleViolationView>, n: int) -> Seq<char>
    decreases n,
{
    if n <= 0 {
        seq![]
    } else {
        finding_lines(path, vs, n - 1) + finding_line(path, vs[n - 1])
    }
}

/// The report lines and the number of findings for the first `n` artifacts.
pub open spec fn stop_report(files: Seq<Artifact>, n: int) -> (Seq<char>, int)
    decreases n,
{
    if n <= 0 {
        (seq![], 0)
    } else {
        let (text, count) = stop_report(files, n - 1);
        let f = files[n - 1];
        let vs = findings_of(f.text@, false);
        (text + finding_lines(f.path@, vs, vs.len() as int), count + vs.len())
    }
}

/// The heading of a stop refusal.
pub open spec fn stop_heading() -> Seq<char> {
    "Style violations found in artifacts; fix them before stopping:\n"@
}

fn report_findings(out: &mut Vec<char>, path: &[char], vs: &Vec<StyleViolation>)
    ensures
        final(out)@ == old(out)@ + finding_lines(
            path@,
            violations_view(vs@),
            vs@.len() as int,
        ),
{
    let ghost vv = violations_view(vs@);
    let ghost start = out@;
    let mut k: usize = 0;
    while k < vs.len()
        invariant
            k <= vs@.len(),
            vv == violations_view(vs@),
            out@ == start + finding_lines(path@, vv, k as int),
        decreases vs@.len() - k,
    {
        let v = &vs[k];
        push_all(out, path);
        push_str(out, ":");
        let n = fmt_usize(v.line_number);
        push_all(out, n.as_slice());
        push_str(out, ": [");
        push_str(out, v.rule.as_str());
        push_str(out, "] \"");
        push_str(out, v.term.as_str());
        push_str(out, "\" in: ");
        push_str(out, v.snippet.as_str());
        push_str(out, "\n");
        proof {
            assert(vv[k as int] == v@);
        }
        assert(out@ =~= start + finding_lines(path@, vv, k + 1));
        k = k + 1;
    }
}

/// Routes a stop hook over the agent's artifacts: when any artifact breaks the
/// style rules the agent is told to continue, with every finding listed;
/// otherwise stopping is allowed. Should the rules fail to compile, stopping is
/// allowed and the reason carries the error.
pub fn route_stop_hook(artifacts: &[Artifact]) -> (res: StopResponse)
    ensures
        match rules_error() {
            Some(e) => res.decision@ == "allow"@ && (res.reason matches Some(r) && r@ == e),
            None => {
                let (text, count) = stop_report(artifacts@, artifacts@.len() as int);
                if count > 0 {
                    res.decision@ == "continue"@ && (res.reason matches Some(r) && r@
                        == stop_heading() + text)
                } else {
                    res.decision@ == "allow"@ && res.reason is None
                }
            },
        },
{
    let rules = match load_style_rules() {
        Ok(r) => r,
        Err(e) => {
            return StopResponse { decision: string_of(chars_of("allow").as_slice()), reason: Some(e) };
        },
    };
    let mut text: Vec<char> = Vec::new();
    let mut count: usize = 0;
    let mut i: usize = 0;
    while i < artifacts.len()
        invariant
            i <= artifacts@.len(),
            rules.wf(),
            text@ == stop_report(artifacts@, i as int).0,
            count as int == stop_report(artifacts@, i as int).1 || (count == usize::MAX
                && stop_report(artifacts@, i as int).1 >= usize::MAX),
            stop_report(artifacts@, i as int).1 >= 0,
            (count > 0) == (stop_report(artifacts@, i as int).1 > 0),
        decreases artifacts@.len() - i,
    {
        let a = &artifacts[i];
        let (_, _, vs) = check_with_rules(&rules, a.text.as_str(), false);
        proof {
            assert(crate::style::dash_fix(a.text@, false).0 == a.text@);
        }
        let path = chars_of(a.path.as_str());
        report_findings(&mut text, path.as_slice(), &vs);
        count = count.saturating_add(vs.len());
        i = i + 1;
    }
    if count > 0 {
        let mut reason = chars_of("Style violations found in artifacts; fix them before stopping:\n");
        push_all(&mut reason, text.as_slice());
        StopResponse {
            decision: string_of(chars_of("continue").as_slice()),
            reason: Some(string_of(reason.as_slice())),
        }
    } else {
        StopResponse { decision: string_of(chars_of("allow").as_slice()), reason: None }
    }
}

} // verus!
