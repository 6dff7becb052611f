//! Working-tree snapshots built from the output of `git status --porcelain=v1 -b`
//! and `git diff --stat`.

use vstd::prelude::*;
use crate::text::{
    chars_of, lines_of, push_all, push_str, seqs_of, slice_chars, split_lines, starts_with,
    string_of, trim, trim_chars, has_prefix_str, occurs_at, matches_at,
};

verus! {

/// Branch, cleanliness, status lines and diff summary of a working tree.
#[derive(Debug, Clone)]
pub struct GitSnapshot {
    pub branch: String,
    pub clean: bool,
    pub status_lines: Vec<String>,
    pub diff_stat: String,
}

/// What running a git command produced.
#[derive(Debug, Clone)]
pub enum GitRun {
    /// The command could not be started; the error text.
    SpawnFailed(String),
    /// The command ran: whether it exited successfully, and its output decoded
    /// as text (invalid UTF-8 replaced).
    Finished { success: bool, stdout: String, stderr: String },
}

/// The branch and status lines read from `git status`.
#[derive(Debug, Clone)]
pub struct StatusSummary {
    pub branch: String,
    pub status_lines: Vec<String>,
}

/// `s` with every leading copy of `p` removed (`str::trim_start_matches`), for a
/// non-empty `p`.
pub open spec fn strip_all_prefixes(s: Seq<char>, p: Seq<char>) -> Seq<char>
    decreases s.len(),
{
    if p.len() > 0 && starts_with(s, p) {
        strip_all_prefixes(s.skip(p.len() as int), p)
    } else {
        s
    }
}

/// Position of the first occurrence of `p` in `s` at or after `i`.
pub open spec fn find_from(s: Seq<char>, p: Seq<char>, i: int) -> Option<int>
    decreases s.len() - i,
{
    if p.len() == 0 || i < 0 || i + p.len() > s.len() {
        None
    } else if occurs_at(s, p, i) {
        Some(i)
    } else {
        find_from(s, p, i + 1)
    }
}

/// The branch named by the first line of porcelain status output.
pub open spec fn branch_of(line: Seq<char>) -> Seq<char> {
    let raw = trim(strip_all_prefixes(line, "## "@));
    let fresh = "No commits yet on "@;
    if starts_with(raw, fresh) {
        raw.skip(fresh.len() as int)
    } else {
        match find_from(raw, "..."@, 0) {
            Some(k) => raw.take(k),
            None => raw,
        }
    }
}

/// Branch and status lines read from the standard output of `git status`.
pub open spec fn status_spec(stdout: Seq<char>) -> (Seq<char>, Seq<Seq<char>>) {
    let lines = split_lines(stdout);
    if lines.len() == 0 {
        (branch_of("## unknown"@), seq![])
    } else {
        (branch_of(lines[0]), lines.drop_first())
    }
}

fn strip_prefixes(s: &[char], p: &str) -> (res: Vec<char>)
    requires
        p@.len() > 0,
    ensures
        res@ == strip_all_prefixes(s@, p@),
{
    let pc = chars_of(p);
    let mut i: usize = 0;
    assert(s@.skip(0) == s@);
    loop
        invariant
            pc@ == p@,
            pc@.len() > 0,
            i <= s@.len(),
            strip_all_prefixes(s@, p@) == strip_all_prefixes(s@.skip(i as int), p@),
        ensures
            i <= s@.len(),
            strip_all_prefixes(s@, p@) == s@.skip(i as int),
        decreases s@.len() - i,
    {
        let t = Ghost(s@.skip(i as int));
        if pc.len() > s.len() - i {
            assert(!starts_with(t@, p@));
            break;
        }
        proof {
            assert(t@.take(pc@.len() as int) == s@.subrange(i as int, i + pc@.len()));
        }
        if !matches_at(s, pc.as_slice(), i) {
            assert(!starts_with(t@, p@));
            break;
        }
        proof {
            assert(t@.skip(pc@.len() as int) == s@.skip(i + pc@.len()));
        }
        i = i + pc.len();
    }
    slice_chars(s, i, s.len())
}

fn find_seq(s: &[char], p: &[char]) -> (res: Option<usize>)
    requires
        p@.len() > 0,
    ensures
        match find_from(s@, p@, 0) {
            Some(k) => res matches Some(r) && r == k && r + p@.len() <= s@.len(),
            None => res is None,
        },
{
    let mut i: usize = 0;
    while i <= s.len() && p.len() <= s.len() - i
        invariant
            p@.len() > 0,
            i <= s@.len(),
            find_from(s@, p@, 0) == find_from(s@, p@, i as int),
        decreases s@.len() - i,
    {
        if matches_at(s, p, i) {
            assert(find_from(s@, p@, i as int) == Some(i as int));
            return Some(i);
        }
        i = i + 1;
    }
    None
}

fn branch_name(line: &[char]) -> (res: Vec<char>)
    ensures
        res@ == branch_of(line@),
{
    proof {
        reveal_strlit("## ");
        reveal_strlit("...");
    }
    let stripped = strip_prefixes(line, "## ");
    let raw = trim_chars(stripped.as_slice());
    if has_prefix_str(raw.as_slice(), "No commits yet on ") {
        let fresh = chars_of("No commits yet on ");
        return slice_chars(raw.as_slice(), fresh.len(), raw.len());
    }
    let dots = chars_of("...");
    match find_seq(raw.as_slice(), dots.as_slice()) {
        Some(k) => {
            let r = slice_chars(raw.as_slice(), 0, k);
            assert(r@ == raw@.take(k as int));
            r
        },
        None => raw,
    }
}

/// Reads the branch and the status lines from the output of
/// `git status --porcelain=v1 -b`: the first line names the branch (a fresh
/// repository's "No commits yet on" and an upstream after `...` are dropped);
/// the other lines are the status lines.
pub fn parse_status(stdout: &str) -> (res: StatusSummary)
    ensures
        res.branch@ == status_spec(stdout@).0,
        res.status_lines@.map_values(|l: String| l@) == status_spec(stdout@).1,
{
    let text = chars_of(stdout);
    let lines = lines_of(text.as_slice());
    let ghost ls = seqs_of(lines@);
    let branch = if lines.len() == 0 {
        let d = chars_of("## unknown");
        branch_name(d.as_slice())
    } else {
        proof {
            assert(ls[0] == lines@[0]@);
        }
        branch_name(lines[0].as_slice())
    };
    let mut rest: Vec<String> = Vec::new();
    if lines.len() > 0 {
        let mut i: usize = 1;
        assert(rest@.map_values(|l: String| l@) =~= ls.subrange(1, 1));
        while i < lines.len()
            invariant
                1 <= i <= lines@.len(),
                ls == seqs_of(lines@),
                rest@.map_values(|l: String| l@) == ls.subrange(1, i as int),
            decreases lines@.len() - i,
        {
            let ghost before = rest@;
            let line = string_of(lines[i].as_slice());
            rest.push(line);
            proof {
                assert(rest@ == before.push(line));
                assert(rest@.map_values(|l: String| l@) =~= before.map_values(|l: String| l@).push(line@));
                assert(ls[i as int] == lines@[i as int]@);
                assert(rest@.map_values(|l: String| l@) =~= ls.subrange(1, i + 1));
            }
            i = i + 1;
        }
        assert(ls.drop_first() =~= ls.subrange(1, ls.len() as int));
    } else {
        assert(rest@.map_values(|l: String| l@) =~= Seq::<Seq<char>>::empty());
    }
    StatusSummary { branch: string_of(branch.as_slice()), status_lines: rest }
}

/// The outcome of `git status`: its summary, or the error to report.
pub open spec fn status_outcome(run: GitRun) -> Result<(Seq<char>, Seq<Seq<char>>), Seq<char>> {
    match run {
        GitRun::SpawnFailed(e) => Err("Failed to run git status: "@ + e@),
        GitRun::Finished { success, stdout, stderr } => if success {
            Ok(status_spec(stdout@))
        } else {
            Err("git status failed: "@ + trim(stderr@))
        },
    }
}

/// Decides on the outcome of `git status`.
pub fn read_status(run: &GitRun) -> (res: Result<StatusSummary, String>)
    ensures
        match status_outcome(*run) {
            Ok((b, ls)) => res matches Ok(s) && s.branch@ == b && s.status_lines@.map_values(
                |l: String| l@,
            ) == ls,
            Err(e) => res matches Err(m) && m@ == e,
        },
{
    match run {
        GitRun::SpawnFailed(e) => {
            let mut m = chars_of("Failed to run git status: ");
            push_str(&mut m, e.as_str());
            Err(string_of(m.as_slice()))
        },
        GitRun::Finished { success, stdout, stderr } => {
            if *success {
                Ok(parse_status(stdout.as_str()))
            } else {
                let mut m = chars_of("git status failed: ");
                let err = chars_of(stderr.as_str());
                let t = trim_chars(err.as_slice());
                push_all(&mut m, t.as_slice());
                Err(string_of(m.as_slice()))
            }
        },
    }
}

/// Completes a snapshot with the outcome of `git diff --stat`: its trimmed
/// output (whatever its exit status), or the error when it could not run. The
/// tree is clean when there is no status line.
pub fn finish_snapshot(status: StatusSummary, diff: &GitRun) -> (res: Result<GitSnapshot, String>)
    ensures
        match diff {
            GitRun::SpawnFailed(e) => res matches Err(m) && m@ == "Failed to run git diff: "@ + e@,
            GitRun::Finished { stdout, .. } => res matches Ok(s) && s.branch@ == status.branch@
                && s.status_lines@ == status.status_lines@ && s.clean == (status.status_lines@.len()
                == 0) && s.diff_stat@ == trim(stdout@),
        },
{
    match diff {
        GitRun::SpawnFailed(e) => {
            let mut m = chars_of("Failed to run git diff: ");
            push_str(&mut m, e.as_str());
            Err(string_of(m.as_slice()))
        },
        GitRun::Finished { stdout, .. } => {
            let out = chars_of(stdout.as_str());
            let t = trim_chars(out.as_slice());
            let clean = status.status_lines.len() == 0;
            Ok(
                GitSnapshot {
                    branch: status.branch,
                    clean,
                    status_lines: status.status_lines,
                    diff_stat: string_of(t.as_slice()),
                },
            )
        },
    }
}

} // verus!
