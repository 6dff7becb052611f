//! Transactional edits: a string replacement applied to a file, checked by a
//! verification command, and rolled back when the command fails.
//!
//! The surrounding program reads and writes the file and runs the command; the
//! decisions between those steps are made here.

use vstd::prelude::*;
use crate::text::{
    bool_text, chars_of, dec, dec_int, fmt_bool, fmt_i64, fmt_usize, matches_at, occurs_at,
    push_all, push_str, string_of, trim, trim_chars,
};

verus! {

/// What to replace, where, and how to check it.
#[derive(Debug, Clone)]
pub struct EditParams {
    pub target_file: String,
    pub target_content: String,
    pub replacement_content: String,
    pub allow_multiple: bool,
    pub verify_command: Option<String>,
    pub rollback_on_failure: bool,
    pub cwd: Option<String>,
}

/// The outcome of an edit.
#[derive(Debug, Clone)]
pub struct EditReport {
    pub success: bool,
    pub verified: bool,
    pub rolled_back: bool,
    pub replacements_made: usize,
    pub verify_output: String,
    pub message: String,
}

/// An edit outcome as the contracts see it.
pub struct EditReportView {
    pub success: bool,
    pub verified: bool,
    pub rolled_back: bool,
    pub replacements_made: int,
    pub verify_output: Seq<char>,
    pub message: Seq<char>,
}

impl View for EditReport {
    type V = EditReportView;

    open spec fn view(&self) -> EditReportView {
        EditReportView {
            success: self.success,
            verified: self.verified,
            rolled_back: self.rolled_back,
            replacements_made: self.replacements_made as int,
            verify_output: self.verify_output@,
            message: self.message@,
        }
    }
}

/// A failed edit that changed nothing.
pub open spec fn failure(message: Seq<char>) -> EditReportView {
    EditReportView {
        success: false,
        verified: false,
        rolled_back: false,
        replacements_made: 0,
        verify_output: seq![],
        message: message,
    }
}

// ---------------------------------------------------------------------------
// Occurrences and replacement (as `str::matches`, `replace` and `replacen` do them)
// ---------------------------------------------------------------------------

/// Non-overlapping occurrences of a non-empty `p` in `s` from position `i`, found
/// left to right.
pub open spec fn count_from(s: Seq<char>, p: Seq<char>, i: int) -> nat
    decreases s.len() - i,
{
    if p.len() == 0 || i < 0 || i + p.len() > s.len() {
        0
    } else if occurs_at(s, p, i) {
        1 + count_from(s, p, i + p.len())
    } else {
        count_from(s, p, i + 1)
    }
}

/// Occurrences of `p` in `s` (`s.matches(p).count()`); an empty `p` occurs at
/// every character boundary.
pub open spec fn count_occurrences(s: Seq<char>, p: Seq<char>) -> nat {
    if p.len() == 0 {
        s.len() + 1
    } else {
        count_from(s, p, 0)
    }
}

/// `s` from position `i` with every non-overlapping occurrence of a non-empty
/// `p` (left to right) replaced by `r`.
pub open spec fn replace_from(s: Seq<char>, p: Seq<char>, r: Seq<char>, i: int) -> Seq<char>
    decreases s.len() - i,
{
    if p.len() == 0 || i < 0 || i >= s.len() {
        seq![]
    } else if i + p.len() > s.len() {
        s.skip(i)
    } else if occurs_at(s, p, i) {
        r + replace_from(s, p, r, i + p.len())
    } else {
        seq![s[i]] + replace_from(s, p, r, i + 1)
    }
}

/// `r` after each character of `s` from position `i`.
pub open spec fn interleave_from(s: Seq<char>, r: Seq<char>, i: int) -> Seq<char>
    decreases s.len() - i,
{
    if i < 0 || i >= s.len() {
        seq![]
    } else {
        seq![s[i]] + r + interleave_from(s, r, i + 1)
    }
}

/// `s.replace(p, r)`.
pub open spec fn replace_all(s: Seq<char>, p: Seq<char>, r: Seq<char>) -> Seq<char> {
    if p.len() == 0 {
        r + interleave_from(s, r, 0)
    } else {
        replace_from(s, p, r, 0)
    }
}

/// Position of the first occurrence of a non-empty `p` in `s` at or after `i`.
pub open spec fn first_from(s: Seq<char>, p: Seq<char>, i: int) -> Option<int>
    decreases s.len() - i,
{
    if p.len() == 0 || i < 0 || i + p.len() > s.len() {
        None
    } else if occurs_at(s, p, i) {
        Some(i)
    } else {
        first_from(s, p, i + 1)
    }
}

/// `s.replacen(p, r, 1)`.
pub open spec fn replace_first(s: Seq<char>, p: Seq<char>, r: Seq<char>) -> Seq<char> {
    if p.len() == 0 {
        r + s
    } else {
        match first_from(s, p, 0) {
            Some(k) => s.take(k) + r + s.skip(k + p.len()),
            None => s,
        }
    }
}

/// Counts the occurrences of `p` in `s`, as `s.matches(p).count()` does.
pub fn count_matches(s: &[char], p: &[char]) -> (res: usize)
    requires
        s@.len() < usize::MAX,
    ensures
        res as nat == count_occurrences(s@, p@),
{
    if p.len() == 0 {
        return s.len() + 1;
    }
    let mut n: usize = 0;
    let mut i: usize = 0;
    while p.len() <= s.len() - i
        invariant
            p@.len() > 0,
            i <= s@.len(),
            n <= i,
            count_from(s@, p@, 0) == n + count_from(s@, p@, i as int),
        decreases s@.len() - i,
    {
        if matches_at(s, p, i) {
            n = n + 1;
            i = i + p.len();
        } else {
            i = i + 1;
        }
    }
    n
}

/// Replaces every occurrence of `p` in `s` by `r`, as `str::replace` does.
pub fn replace_all_chars(s: &[char], p: &[char], r: &[char]) -> (res: Vec<char>)
    ensures
        res@ == replace_all(s@, p@, r@),
{
    let mut out: Vec<char> = Vec::new();
    if p.len() == 0 {
        push_all(&mut out, r);
        let mut i: usize = 0;
        while i < s.len()
            invariant
                i <= s@.len(),
                r@ + interleave_from(s@, r@, 0) == out@ + interleave_from(s@, r@, i as int),
            decreases s@.len() - i,
        {
            out.push(s[i]);
            push_all(&mut out, r);
            i = i + 1;
            assert(out@ + interleave_from(s@, r@, i as int) =~= r@ + interleave_from(s@, r@, 0));
        }
        assert(out@ + interleave_from(s@, r@, i as int) =~= out@);
        return out;
    }
    let mut i: usize = 0;
    while i < s.len()
        invariant
            p@.len() > 0,
            i <= s@.len(),
            replace_from(s@, p@, r@, 0) == out@ + replace_from(s@, p@, r@, i as int),
        decreases s@.len() - i,
    {
        if p.len() > s.len() - i {
            let rest = crate::text::slice_chars(s, i, s.len());
            assert(rest@ == s@.skip(i as int));
            push_all(&mut out, rest.as_slice());
            assert(out@ =~= replace_from(s@, p@, r@, 0));
            return out;
        }
        if matches_at(s, p, i) {
            push_all(&mut out, r);
            assert(out@ + replace_from(s@, p@, r@, i + p@.len()) =~= replace_from(s@, p@, r@, 0));
            i = i + p.len();
        } else {
            out.push(s[i]);
            assert(out@ + replace_from(s@, p@, r@, i + 1) =~= replace_from(s@, p@, r@, 0));
            i = i + 1;
        }
    }
    assert(out@ + replace_from(s@, p@, r@, i as int) =~= out@);
    out
}

/// Replaces the first occurrence of `p` in `s` by `r`, as `str::replacen(p, r, 1)` does.
pub fn replace_first_chars(s: &[char], p: &[char], r: &[char]) -> (res: Vec<char>)
    ensures
        res@ == replace_first(s@, p@, r@),
{
    let mut out: Vec<char> = Vec::new();
    if p.len() == 0 {
        push_all(&mut out, r);
        push_all(&mut out, s);
        return out;
    }
    let mut i: usize = 0;
    while i < s.len() && p.len() <= s.len() - i
        invariant
            p@.len() > 0,
            i <= s@.len(),
            out@.len() == 0,
            first_from(s@, p@, 0) == first_from(s@, p@, i as int),
        decreases s@.len() - i,
    {
        if matches_at(s, p, i) {
            let a = crate::text::slice_chars(s, 0, i);
            let b = crate::text::slice_chars(s, i + p.len(), s.len());
            push_all(&mut out, a.as_slice());
            push_all(&mut out, r);
            push_all(&mut out, b.as_slice());
            assert(a@ == s@.take(i as int));
            assert(b@ == s@.skip(i + p@.len()));
            assert(first_from(s@, p@, i as int) == Some(i as int));
            assert(out@ =~= s@.take(i as int) + r@ + s@.skip(i + p@.len()));
            return out;
        }
        i = i + 1;
    }
    push_all(&mut out, s);
    assert(out@ =~= s@);
    out
}

// ---------------------------------------------------------------------------
// The edit, step by step
// ---------------------------------------------------------------------------

/// What reading the target file produced.
#[derive(Debug, Clone)]
pub enum FileProbe {
    /// The target file does not exist.
    Missing,
    /// Reading failed with this error text.
    ReadFailed(String),
    /// The file's text.
    Content(String),
}

/// What to do after reading the file.
#[derive(Debug)]
pub enum EditPlan {
    /// Stop with this report; the file is untouched.
    Stop(EditReport),
    /// Write `new_content` to the file; `replacements` occurrences were replaced.
    Write { new_content: String, replacements: usize },
}

/// The plan for `params` given what reading the target produced: stop when the
/// file is missing or unreadable, when the target does not occur, or when it
/// occurs several times without `allow_multiple`; otherwise write the content
/// with every occurrence (or, without `allow_multiple`, the only one) replaced.
pub open spec fn plan_spec(params: EditParams, probe: FileProbe) -> Result<(Seq<char>, int), EditReportView> {
    let file = params.target_file@;
    let target = params.target_content@;
    match probe {
        FileProbe::Missing => Err(failure("Target file does not exist: "@ + file)),
        FileProbe::ReadFailed(e) => Err(failure("Failed to read file: "@ + e@)),
        FileProbe::Content(c) => {
            let n = count_occurrences(c@, target);
            if n == 0 {
                Err(failure("Target content not found in "@ + file))
            } else if n > 1 && !params.allow_multiple {
                Err(failure("Target content found "@ + dec(n) + " times in "@ + file
                    + ". Set allow_multiple=true to replace all."@))
            } else if params.allow_multiple {
                Ok((replace_all(c@, target, params.replacement_content@), n as int))
            } else {
                Ok((replace_first(c@, target, params.replacement_content@), 1))
            }
        },
    }
}

fn failure_report(message: Vec<char>) -> (res: EditReport)
    ensures
        res@ == failure(message@),
{
    EditReport {
        success: false,
        verified: false,
        rolled_back: false,
        replacements_made: 0,
        verify_output: string_of(Vec::<char>::new().as_slice()),
        message: string_of(message.as_slice()),
    }
}

/// Decides what to do once the target file has been probed.
pub fn plan_edit(params: &EditParams, probe: &FileProbe) -> (res: EditPlan)
    requires
        probe matches FileProbe::Content(c) ==> c@.len() < usize::MAX,
    ensures
        match plan_spec(*params, *probe) {
            Ok((content, n)) => res matches EditPlan::Write { new_content, replacements }
                && new_content@ == content && replacements as int == n,
            Err(r) => res matches EditPlan::Stop(report) && report@ == r,
        },
{
    let file = chars_of(params.target_file.as_str());
    match probe {
        FileProbe::Missing => {
            let mut m = chars_of("Target file does not exist: ");
            push_all(&mut m, file.as_slice());
            EditPlan::Stop(failure_report(m))
        },
        FileProbe::ReadFailed(e) => {
            let mut m = chars_of("Failed to read file: ");
            push_str(&mut m, e.as_str());
            EditPlan::Stop(failure_report(m))
        },
        FileProbe::Content(c) => {
            let text = chars_of(c.as_str());
            let target = chars_of(params.target_content.as_str());
            let replacement = chars_of(params.replacement_content.as_str());
            let n = count_matches(text.as_slice(), target.as_slice());
            if n == 0 {
                let mut m = chars_of("Target content not found in ");
                push_all(&mut m, file.as_slice());
                return EditPlan::Stop(failure_report(m));
            }
            if n > 1 && !params.allow_multiple {
                let mut m = chars_of("Target content found ");
                let d = fmt_usize(n);
                push_all(&mut m, d.as_slice());
                push_str(&mut m, " times in ");
                push_all(&mut m, file.as_slice());
                push_str(&mut m, ". Set allow_multiple=true to replace all.");
                return EditPlan::Stop(failure_report(m));
            }
            if params.allow_multiple {
                let out = replace_all_chars(text.as_slice(), target.as_slice(), replacement.as_slice());
                EditPlan::Write { new_content: string_of(out.as_slice()), replacements: n }
            } else {
                let out = replace_first_chars(text.as_slice(), target.as_slice(), replacement.as_slice());
                EditPlan::Write { new_content: string_of(out.as_slice()), replacements: 1 }
            }
        },
    }
}

/// What to do after writing the new content.
#[derive(Debug)]
pub enum AfterWrite {
    /// Stop with this report.
    Stop(EditReport),
    /// Run this verification command.
    Verify(String),
}

/// The decision once the write was attempted (`write_error` is its error, if it
/// failed): report the failure, report an unverified success when there is no
/// verification command, or run the command.
pub open spec fn after_write_spec(params: EditParams, replacements: int, write_error: Option<Seq<char>>) -> Result<Seq<char>, EditReportView> {
    match write_error {
        Some(e) => Err(failure("Failed to write modified file: "@ + e)),
        None => match params.verify_command {
            Some(cmd) => Ok(cmd@),
            None => Err(EditReportView {
                success: true,
                verified: false,
                rolled_back: false,
                replacements_made: replacements,
                verify_output: seq![],
                message: "Edit applied ("@ + dec(replacements as nat)
                    + " replacement(s)). No verification command specified."@,
            }),
        },
    }
}

/// The text of an optional error.
pub open spec fn error_text(e: Option<&str>) -> Option<Seq<char>> {
    match e {
        Some(t) => Some(t@),
        None => None,
    }
}

/// Decides what to do once the new content has been written (or not).
pub fn after_write(params: &EditParams, replacements: usize, write_error: Option<&str>) -> (res: AfterWrite)
    ensures
        match after_write_spec(*params, replacements as int, error_text(write_error)) {
            Ok(cmd) => res matches AfterWrite::Verify(c) && c@ == cmd,
            Err(r) => res matches AfterWrite::Stop(report) && report@ == r,
        },
{
    if let Some(e) = write_error {
        let mut m = chars_of("Failed to write modified file: ");
        push_str(&mut m, e);
        return AfterWrite::Stop(failure_report(m));
    }
    match &params.verify_command {
        Some(cmd) => AfterWrite::Verify(string_of(chars_of(cmd.as_str()).as_slice())),
        None => {
            let mut m = chars_of("Edit applied (");
            let d = fmt_usize(replacements);
            push_all(&mut m, d.as_slice());
            push_str(&mut m, " replacement(s)). No verification command specified.");
            AfterWrite::Stop(
                EditReport {
                    success: true,
                    verified: false,
                    rolled_back: false,
                    replacements_made: replacements,
                    verify_output: string_of(Vec::<char>::new().as_slice()),
                    message: string_of(m.as_slice()),
                },
            )
        },
    }
}

/// What running the verification command produced.
#[derive(Debug, Clone)]
pub enum VerifyOutcome {
    /// The command could not be started; the error text.
    SpawnFailed(String),
    /// The command ran: whether it exited successfully, its exit code if it has
    /// one, and its output decoded as text.
    Exited { success: bool, code: Option<i32>, stdout: String, stderr: String },
}

/// The final report, and the original content to write back when the edit is
/// rolled back.
#[derive(Debug)]
pub struct VerifyDecision {
    pub report: EditReport,
    pub restore: Option<String>,
}

/// The final report after the verification command: success when it exits
/// successfully; otherwise failure, with the original content restored when
/// `rollback_on_failure` is set.
pub open spec fn after_verify_spec(params: EditParams, replacements: int, outcome: VerifyOutcome) -> EditReportView {
    let rb = params.rollback_on_failure;
    match outcome {
        VerifyOutcome::SpawnFailed(e) => EditReportView {
            success: false,
            verified: false,
            rolled_back: rb,
            replacements_made: 0,
            verify_output: "Execution error: "@ + e@,
            message: "Verification command failed to execute. File rolled back: "@ + bool_text(rb),
        },
        VerifyOutcome::Exited { success, code, stdout, stderr } => {
            let combined = trim(stdout@ + "\n"@ + stderr@);
            if success {
                EditReportView {
                    success: true,
                    verified: true,
                    rolled_back: false,
                    replacements_made: replacements,
                    verify_output: combined,
                    message: "Edit applied and verified successfully (exit 0)."@,
                }
            } else {
                EditReportView {
                    success: false,
                    verified: false,
                    rolled_back: rb,
                    replacements_made: 0,
                    verify_output: combined,
                    message: "Verification command exited with status "@ + dec_int(
                        match code {
                            Some(c) => c as int,
                            None => -1,
                        },
                    ) + ". Changes rolled back: "@ + bool_text(rb) + "."@,
                }
            }
        },
    }
}

/// Decides the final report once the verification command has run, and whether
/// the original content must be written back.
pub fn after_verify(params: &EditParams, replacements: usize, original: &str, outcome: &VerifyOutcome) -> (res: VerifyDecision)
    ensures
        res.report@ == after_verify_spec(*params, replacements as int, *outcome),
        match res.restore {
            Some(c) => res.report.rolled_back && c@ == original@,
            None => !res.report.rolled_back,
        },
{
    let rb = params.rollback_on_failure;
    let restore = if rb {
        Some(string_of(chars_of(original).as_slice()))
    } else {
        None
    };
    match outcome {
        VerifyOutcome::SpawnFailed(e) => {
            let mut out = chars_of("Execution error: ");
            push_str(&mut out, e.as_str());
            let mut m = chars_of("Verification command failed to execute. File rolled back: ");
            let b = fmt_bool(rb);
            push_all(&mut m, b.as_slice());
            VerifyDecision {
                report: EditReport {
                    success: false,
                    verified: false,
                    rolled_back: rb,
                    replacements_made: 0,
                    verify_output: string_of(out.as_slice()),
                    message: string_of(m.as_slice()),
                },
                restore,
            }
        },
        VerifyOutcome::Exited { success, code, stdout, stderr } => {
            let mut both = chars_of(stdout.as_str());
            push_str(&mut both, "\n");
            push_str(&mut both, stderr.as_str());
            let combined = trim_chars(both.as_slice());
            if *success {
                let m = chars_of("Edit applied and verified successfully (exit 0).");
                VerifyDecision {
                    report: EditReport {
                        success: true,
                        verified: true,
                        rolled_back: false,
                        replacements_made: replacements,
                        verify_output: string_of(combined.as_slice()),
                        message: string_of(m.as_slice()),
                    },
                    restore: None,
                }
            } else {
                let status: i64 = match code {
                    Some(c) => *c as i64,
                    None => -1,
                };
                let mut m = chars_of("Verification command exited with status ");
                let d = fmt_i64(status);
                push_all(&mut m, d.as_slice());
                push_str(&mut m, ". Changes rolled back: ");
                let b = fmt_bool(rb);
                push_all(&mut m, b.as_slice());
                push_str(&mut m, ".");
                VerifyDecision {
                    report: EditReport {
                        success: false,
                        verified: false,
                        rolled_back: rb,
                        replacements_made: 0,
                        verify_output: string_of(combined.as_slice()),
                        message: string_of(m.as_slice()),
                    },
                    restore,
                }
            }
        },
    }
}

} // verus!
