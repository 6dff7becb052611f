//! Boundary-clamped search: matching lines with their surrounding context.

use vstd::prelude::*;
use crate::text::{chars_of, eq_str, has_prefix_str, starts_with, dec, fmt_usize, lines_of, pad_left, pad_left_chars, push_all, push_str, seqs_of, split_lines, string_of};
use crate::matcher::{compile_matcher, escape_pattern, matcher_hits, regex_build_error, regex_escaped, regex_is_match};

verus! {

/// One match: where it is, which lines the snippet covers, and the snippet.
#[derive(Debug, Clone)]
pub struct GrepMatch {
    pub path: String,
    pub line_number: usize,
    pub start_line: usize,
    pub end_line: usize,
    pub snippet: String,
}

/// A match as the contracts see it.
pub struct GrepMatchView {
    pub path: Seq<char>,
    pub line_number: int,
    pub start_line: int,
    pub end_line: int,
    pub snippet: Seq<char>,
}

impl View for GrepMatch {
    type V = GrepMatchView;

    open spec fn view(&self) -> GrepMatchView {
        GrepMatchView {
            path: self.path@,
            line_number: self.line_number as int,
            start_line: self.start_line as int,
            end_line: self.end_line as int,
            snippet: self.snippet@,
        }
    }
}

/// A file to search: the path as it is shown, and its text.
#[derive(Debug, Clone)]
pub struct SourceFile {
    pub path: String,
    pub content: String,
}

/// The context window of a match on line `m` (1-based) with `c` lines of
/// context in a file of `t` lines.
pub open spec fn clamp_spec(m: int, c: int, t: int) -> (int, int) {
    if t == 0 {
        (1, 1)
    } else {
        (if m - c < 1 {
            1
        } else {
            m - c
        }, if m + c > t {
            t
        } else {
            m + c
        })
    }
}

/// The first and last line of the context window around `match_line`.
pub fn clamp_range(match_line: usize, context: usize, total_lines: usize) -> (res: (usize, usize))
    ensures
        (res.0 as int, res.1 as int) == clamp_spec(
            match_line as int,
            context as int,
            total_lines as int,
        ),
        1 <= match_line <= total_lines ==> 1 <= res.0 <= match_line <= res.1 <= total_lines,
{
    if total_lines == 0 {
        return (1, 1);
    }
    let s = match_line.saturating_sub(context);
    let start = if s < 1 {
        1
    } else {
        s
    };
    let e = match_line.saturating_add(context);
    let end = if e > total_lines {
        total_lines
    } else {
        e
    };
    (start, end)
}

/// Width of the line-number column of a snippet ending at `end`.
pub open spec fn number_width(end: int) -> nat {
    let w = dec(end as nat).len();
    if w < 4 {
        4
    } else {
        w
    }
}

/// One snippet line: a `>` marker on the matching line, the right-aligned line
/// number, `": "` and the text.
pub open spec fn snippet_line(cur: int, match_line: int, text: Seq<char>, width: nat) -> Seq<char> {
    (if cur == match_line {
        seq!['>']
    } else {
        seq![' ']
    }) + pad_left(dec(cur as nat), width) + ": "@ + text
}

/// Lines `start..=start+count-1` rendered as snippet lines, joined by `'\n'`.
pub open spec fn snippet_from(
    lines: Seq<Seq<char>>,
    start: int,
    count: int,
    match_line: int,
    width: nat,
) -> Seq<char>
    decreases count,
{
    if count <= 0 {
        seq![]
    } else if count == 1 {
        snippet_line(start, match_line, lines[start - 1], width)
    } else {
        snippet_from(lines, start, count - 1, match_line, width) + seq!['\n'] + snippet_line(
            start + count - 1,
            match_line,
            lines[start + count - 2],
            width,
        )
    }
}

/// The snippet for a match on `match_line` with `context` lines around it.
pub open spec fn snippet_spec(lines: Seq<Seq<char>>, match_line: int, context: int) -> Seq<char> {
    let (start, end) = clamp_spec(match_line, context, lines.len() as int);
    snippet_from(lines, start, end - start + 1, match_line, number_width(end))
}

/// The match record for line `match_line` of a file.
pub open spec fn match_spec(path: Seq<char>, lines: Seq<Seq<char>>, match_line: int, context: int) -> GrepMatchView {
    let (start, end) = clamp_spec(match_line, context, lines.len() as int);
    GrepMatchView {
        path: path,
        line_number: match_line,
        start_line: start,
        end_line: end,
        snippet: snippet_spec(lines, match_line, context),
    }
}

/// The matches among the first `upto` lines of a file, in line order.
pub open spec fn file_matches(
    path: Seq<char>,
    lines: Seq<Seq<char>>,
    pattern: Seq<char>,
    ci: bool,
    context: int,
    upto: int,
) -> Seq<GrepMatchView>
    decreases upto,
{
    if upto <= 0 {
        seq![]
    } else {
        let before = file_matches(path, lines, pattern, ci, context, upto - 1);
        if regex_is_match(pattern, ci, lines[upto - 1]) {
            before.push(match_spec(path, lines, upto, context))
        } else {
            before
        }
    }
}

/// The matches in the first `n` files, file by file.
pub open spec fn all_matches(
    files: Seq<(Seq<char>, Seq<char>)>,
    pattern: Seq<char>,
    ci: bool,
    context: int,
    n: int,
) -> Seq<GrepMatchView>
    decreases n,
{
    if n <= 0 {
        seq![]
    } else {
        let f = files[n - 1];
        let lines = split_lines(f.1);
        all_matches(files, pattern, ci, context, n - 1) + file_matches(
            f.0,
            lines,
            pattern,
            ci,
            context,
            lines.len() as int,
        )
    }
}

/// At most `max` leading elements of `s`.
pub open spec fn first_n<A>(s: Seq<A>, max: int) -> Seq<A> {
    if s.len() <= max {
        s
    } else {
        s.take(max)
    }
}

/// The path and text of each file.
pub open spec fn files_view(files: Seq<SourceFile>) -> Seq<(Seq<char>, Seq<char>)> {
    files.map_values(|f: SourceFile| (f.path@, f.content@))
}

/// The pattern actually compiled: the pattern itself for a regex search, its
/// escaped form for a literal search.
pub open spec fn effective_pattern(pattern: Seq<char>, is_regex: bool) -> Seq<char> {
    if is_regex {
        pattern
    } else {
        regex_escaped(pattern)
    }
}

/// The error reported when the pattern does not compile.
pub open spec fn matcher_error_text(pattern: Seq<char>, is_regex: bool, err: Seq<char>) -> Seq<char> {
    if is_regex {
        "Invalid regex '"@ + pattern + "': "@ + err
    } else {
        "Failed to build matcher: "@ + err
    }
}

/// Renders the snippet lines `start..=end` around `match_line`.
fn render_snippet(lines: &Vec<Vec<char>>, start: usize, end: usize, match_line: usize) -> (res: Vec<char>)
    requires
        1 <= start <= end <= lines@.len(),
    ensures
        res@ == snippet_from(
            seqs_of(lines@),
            start as int,
            end - start + 1,
            match_line as int,
            number_width(end as int),
        ),
{
    let ghost ls = seqs_of(lines@);
    let end_digits = fmt_usize(end);
    let width: usize = if end_digits.len() < 4 {
        4
    } else {
        end_digits.len()
    };
    let mut out: Vec<char> = Vec::new();
    let mut cur: usize = start;
    while cur <= end
        invariant
            1 <= start <= cur <= end + 1,
            end <= lines@.len(),
            ls == seqs_of(lines@),
            width as nat == number_width(end as int),
            out@ == snippet_from(ls, start as int, cur - start, match_line as int, width as nat),
        decreases end + 1 - cur,
    {
        if cur > start {
            out.push('\n');
        }
        if cur == match_line {
            out.push('>');
        } else {
            out.push(' ');
        }
        let num = fmt_usize(cur);
        let padded = pad_left_chars(num.as_slice(), width);
        push_all(&mut out, padded.as_slice());
        push_str(&mut out, ": ");
        push_all(&mut out, lines[cur - 1].as_slice());
        proof {
            assert(ls[cur - 1] == lines@[cur - 1]@);
            let head = if cur as int == match_line as int {
                seq!['>']
            } else {
                seq![' ']
            };
            assert(snippet_line(cur as int, match_line as int, ls[cur - 1], width as nat) == head
                + pad_left(dec(cur as nat), width as nat) + ": "@ + ls[cur - 1]);
        }
        assert(out@ =~= snippet_from(ls, start as int, cur - start + 1, match_line as int, width as nat));
        if cur == end {
            return out;
        }
        cur = cur + 1;
    }
    out
}

/// Builds the match record for line `match_line` of a file.
fn make_match(path: &String, lines: &Vec<Vec<char>>, match_line: usize, context: usize) -> (res: GrepMatch)
    requires
        1 <= match_line <= lines@.len(),
    ensures
        res@ == match_spec(path@, seqs_of(lines@), match_line as int, context as int),
{
    let (start, end) = clamp_range(match_line, context, lines.len());
    let snippet = render_snippet(lines, start, end, match_line);
    GrepMatch {
        path: path.clone(),
        line_number: match_line,
        start_line: start,
        end_line: end,
        snippet: string_of(snippet.as_slice()),
    }
}

proof fn lemma_first_n_push<A>(s: Seq<A>, x: A, max: int)
    requires
        0 <= max,
    ensures
        s.len() < max ==> first_n(s.push(x), max) == first_n(s, max).push(x),
        s.len() >= max ==> first_n(s.push(x), max) == first_n(s, max),
{
    if s.len() >= max {
        assert(s.push(x).take(max) =~= s.take(max));
    }
}

/// Searches `files` for `pattern` and returns up to `max_matches` matches, each
/// with `context_lines` lines of context clamped to the file's bounds. A literal
/// search escapes the pattern first; `case_sensitive == false` folds case.
pub fn search_context(
    files: &[SourceFile],
    pattern: &str,
    context_lines: usize,
    max_matches: usize,
    is_regex: bool,
    case_sensitive: bool,
) -> (res: Result<Vec<GrepMatch>, String>)
    ensures
        ({
            let eff = effective_pattern(pattern@, is_regex);
            match regex_build_error(eff, !case_sensitive) {
                Some(err) => res matches Err(e) && e@ == matcher_error_text(pattern@, is_regex, err),
                None => res matches Ok(v) && v@.map_values(|m: GrepMatch| m@) == first_n(
                    all_matches(
                        files_view(files@),
                        eff,
                        !case_sensitive,
                        context_lines as int,
                        files@.len() as int,
                    ),
                    max_matches as int,
                ),
            }
        }),
{
    let compiled = if is_regex {
        compile_matcher(pattern, !case_sensitive)
    } else {
        let escaped = escape_pattern(pattern);
        compile_matcher(escaped.as_str(), !case_sensitive)
    };
    let m = match compiled {
        Ok(m) => m,
        Err(e) => {
            let mut msg: Vec<char> = Vec::new();
            if is_regex {
                push_str(&mut msg, "Invalid regex '");
                push_str(&mut msg, pattern);
                push_str(&mut msg, "': ");
                push_str(&mut msg, e.as_str());
            } else {
                push_str(&mut msg, "Failed to build matcher: ");
                push_str(&mut msg, e.as_str());
            }
            return Err(string_of(msg.as_slice()));
        },
    };
    let ghost eff = effective_pattern(pattern@, is_regex);
    let ghost ci = !case_sensitive;
    let ghost fv = files_view(files@);
    let mut found: Vec<GrepMatch> = Vec::new();
    let mut f: usize = 0;
    while f < files.len()
        invariant
            f <= files@.len(),
            fv == files_view(files@),
            m.pattern() == eff,
            m.folds_case() == ci,
            found@.map_values(|g: GrepMatch| g@) == first_n(
                all_matches(fv, eff, ci, context_lines as int, f as int),
                max_matches as int,
            ),
        decreases files@.len() - f,
    {
        let file = &files[f];
        let content = chars_of(file.content.as_str());
        let lines = lines_of(content.as_slice());
        let ghost ls = seqs_of(lines@);
        let ghost before = all_matches(fv, eff, ci, context_lines as int, f as int);
        proof {
            assert(fv[f as int] == (files@[f as int].path@, files@[f as int].content@));
        }
        let mut i: usize = 0;
        while i < lines.len()
            invariant
                i <= lines@.len(),
                ls == seqs_of(lines@),
                ls == split_lines(fv[f as int].1),
                fv[f as int].0 == file.path@,
                m.pattern() == eff,
                m.folds_case() == ci,
                found@.map_values(|g: GrepMatch| g@) == first_n(
                    before + file_matches(
                        fv[f as int].0,
                        ls,
                        eff,
                        ci,
                        context_lines as int,
                        i as int,
                    ),
                    max_matches as int,
                ),
            decreases lines@.len() - i,
        {
            let ghost fm = file_matches(fv[f as int].0, ls, eff, ci, context_lines as int, i as int);
            let ghost shown = found@.map_values(|g: GrepMatch| g@);
            if found.len() < max_matches {
                let hit = matcher_hits(&m, lines[i].as_slice());
                proof {
                    assert(ls[i as int] == lines@[i as int]@);
                }
                if hit {
                    let g = make_match(&file.path, &lines, i + 1, context_lines);
                    found.push(g);
                    proof {
                        assert((before + fm).push(g@) == before + fm.push(g@));
                        lemma_first_n_push(before + fm, g@, max_matches as int);
                        assert(found@.map_values(|g: GrepMatch| g@) =~= shown.push(g@));
                    }
                } else {
                    assert(before + file_matches(fv[f as int].0, ls, eff, ci, context_lines as int, i + 1) == before + fm);
                }
            } else {
                proof {
                    let nxt = file_matches(fv[f as int].0, ls, eff, ci, context_lines as int, i + 1);
                    if regex_is_match(eff, ci, ls[i as int]) {
                        let g = match_spec(fv[f as int].0, ls, i + 1, context_lines as int);
                        assert(nxt == fm.push(g));
                        assert((before + fm).push(g) == before + nxt);
                        lemma_first_n_push(before + fm, g, max_matches as int);
                    } else {
                        assert(nxt == fm);
                    }
                }
            }
            i = i + 1;
        }
        proof {
            assert(all_matches(fv, eff, ci, context_lines as int, f + 1) == before + file_matches(
                fv[f as int].0,
                ls,
                eff,
                ci,
                context_lines as int,
                ls.len() as int,
            ));
        }
        f = f + 1;
    }
    Ok(found)
}

/// Whether a directory met while walking a tree is searched: hidden
/// directories, `target` and `node_modules` are skipped.
pub open spec fn descend_into(name: Seq<char>) -> bool {
    !starts_with(name, "."@) && name != "target"@ && name != "node_modules"@
}

/// Whether the directory named `name` is searched.
pub fn should_descend(name: &str) -> (res: bool)
    ensures
        res == descend_into(name@),
{
    let n = chars_of(name);
    !has_prefix_str(n.as_slice(), ".") && !eq_str(n.as_slice(), "target") && !eq_str(
        n.as_slice(),
        "node_modules",
    )
}

} // verus!
