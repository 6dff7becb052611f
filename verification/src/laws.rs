//! Properties the tools keep across all inputs, proved over the specifications
//! that the functions' contracts use.

use vstd::prelude::*;
use crate::text::{starts_with, trim};
use crate::grep::{snippet_from, clamp_spec, match_spec, first_n, GrepMatchView, file_matches, all_matches};
use crate::text::split_lines;
use crate::matcher::regex_is_match;

use crate::view::{
    ViewOptions, should_cap, range_start, range_end, batch_state, batch_entry, outline_entry,
    DEFAULT_MAX_LINES, CAPPED_PREVIEW_LINES, view_spec, ViewFile, outline_spec, outline_of, is_decl,
    batch_header, batch_error, with_outline, FileSource, sat, minified_verdict, total_len, max_len, text_view, view_body, };
use crate::text::{pad_left, dec};
use crate::text::{utf8_len, trim_start};
use crate::style::{StyleViolationView, additionally_pattern, not_just_pattern, its_not_pattern};
use crate::style::{
    EM_DASH, dash_fix, dashes_replaced, count_char, scan_lines, is_fence, line_findings, finding,
    findings_of, banned_words_pattern,
    };
use crate::matcher::regex_find_texts;
use crate::edit::{after_write_spec, after_verify_spec, EditParams, VerifyOutcome, plan_spec, FileProbe, count_occurrences, replace_all, replace_first, replace_from, count_from, first_from, interleave_from};
use crate::text::occurs_at;
use crate::hooks::{stop_report, Artifact, rewrite_spec, is_plain_path, digits_between, python_kill_pid, python_kill_from, python_forms, cat_path};
use crate::poll::{PollConfig, poll_decision, condition_met};
use crate::git::{GitRun, status_outcome, branch_of, find_from, strip_all_prefixes};
use crate::poll::TargetState;
use crate::mcp::{JsonValue, McpAction, ToolInvocation, tool_call_ok, arg_member, json_str, json_u64, json_i64};

verus! {

// ---------------------------------------------------------------------------
// Search
// ---------------------------------------------------------------------------

/// Context windows clamp to the file: a match on line `m` of a file of `t`
/// lines gets a window `start..=end` with `1 <= start <= m <= end <= t`,
/// however large the requested context.
pub proof fn context_window_is_clamped(m: int, c: int, t: int)
    requires
        1 <= m <= t,
        0 <= c,
    ensures
        1 <= clamp_spec(m, c, t).0 <= m <= clamp_spec(m, c, t).1 <= t,
{
}

/// Every match record covers its own line within the file.
pub proof fn match_window_covers_line(path: Seq<char>, lines: Seq<Seq<char>>, m: int, c: int)
    requires
        1 <= m <= lines.len(),
        0 <= c,
    ensures
        ({
            let g = match_spec(path, lines, m, c);
            1 <= g.start_line <= g.line_number <= g.end_line <= lines.len()
        }),
{
}

/// A search never returns more than `max_matches` matches, and what it
/// returns is a prefix of all the matches in file and line order.
pub proof fn search_respects_limit(all: Seq<GrepMatchView>, max: int)
    requires
        0 <= max,
    ensures
        first_n(all, max).len() <= max,
        first_n(all, max).len() <= all.len(),
        forall|i: int| 0 <= i < first_n(all, max).len() ==> #[trigger] first_n(all, max)[i] == all[i],
{
}

proof fn lemma_file_matches(
    path: Seq<char>,
    lines: Seq<Seq<char>>,
    pattern: Seq<char>,
    ci: bool,
    c: int,
    upto: int,
)
    requires
        0 <= upto <= lines.len(),
    ensures
        ({
            let fm = file_matches(path, lines, pattern, ci, c, upto);
            &&& forall|k: int| 0 <= k < fm.len() ==> {
                let m = #[trigger] fm[k];
                &&& 1 <= m.line_number <= upto
                &&& regex_is_match(pattern, ci, lines[m.line_number - 1])
                &&& m == match_spec(path, lines, m.line_number, c)
            }
            &&& forall|a: int, b: int| 0 <= a < b < fm.len() ==> #[trigger] fm[a].line_number
                < #[trigger] fm[b].line_number
            &&& forall|i: int| 0 <= i < upto && #[trigger] regex_is_match(pattern, ci, lines[i]) ==> exists|k: int|
                0 <= k < fm.len() && #[trigger] fm[k] == match_spec(path, lines, i + 1, c)
        }),
    decreases upto,
{
    if upto > 0 {
        lemma_file_matches(path, lines, pattern, ci, c, upto - 1);
        let before = file_matches(path, lines, pattern, ci, c, upto - 1);
        let fm = file_matches(path, lines, pattern, ci, c, upto);
        if regex_is_match(pattern, ci, lines[upto - 1]) {
            assert(fm == before.push(match_spec(path, lines, upto, c)));
            assert forall|k: int| 0 <= k < before.len() implies #[trigger] fm[k] == before[k] by {}
            assert forall|i: int| 0 <= i < upto && #[trigger] regex_is_match(pattern, ci, lines[i]) implies exists|k: int|
                0 <= k < fm.len() && #[trigger] fm[k] == match_spec(path, lines, i + 1, c) by {
                if i == upto - 1 {
                    assert(fm[before.len() as int] == match_spec(path, lines, i + 1, c));
                } else {
                    let k = choose|k: int| 0 <= k < before.len() && #[trigger] before[k] == match_spec(path, lines, i + 1, c);
                    assert(fm[k] == before[k]);
                }
            }
        }
    }
}

proof fn lemma_all_matches(files: Seq<(Seq<char>, Seq<char>)>, pattern: Seq<char>, ci: bool, c: int, n: int)
    requires
        0 <= n <= files.len(),
    ensures
        ({
            let all = all_matches(files, pattern, ci, c, n);
            &&& forall|k: int| 0 <= k < all.len() ==> exists|f: int| {
                let lines = split_lines((#[trigger] files[f]).1);
                let m = #[trigger] all[k];
                &&& 0 <= f < n
                &&& m.path == files[f].0
                &&& 1 <= m.line_number <= lines.len()
                &&& regex_is_match(pattern, ci, lines[m.line_number - 1])
                &&& m == match_spec(files[f].0, lines, m.line_number, c)
            }
            &&& forall|f: int, i: int|
                0 <= f < n && 0 <= i < split_lines(files[f].1).len() && #[trigger] regex_is_match(
                    pattern,
                    ci,
                    split_lines(files[f].1)[i],
                ) ==> exists|k: int|
                    0 <= k < all.len() && #[trigger] all[k] == match_spec(
                        files[f].0,
                        split_lines(files[f].1),
                        i + 1,
                        c,
                    )
        }),
    decreases n,
{
    if n > 0 {
        lemma_all_matches(files, pattern, ci, c, n - 1);
        let before = all_matches(files, pattern, ci, c, n - 1);
        let f0 = files[n - 1];
        let lines0 = split_lines(f0.1);
        let fm = file_matches(f0.0, lines0, pattern, ci, c, lines0.len() as int);
        lemma_file_matches(f0.0, lines0, pattern, ci, c, lines0.len() as int);
        let all = all_matches(files, pattern, ci, c, n);
        assert(all == before + fm);
        assert forall|k: int| 0 <= k < all.len() implies exists|f: int| {
            let lines = split_lines((#[trigger] files[f]).1);
            let m = #[trigger] all[k];
            &&& 0 <= f < n
            &&& m.path == files[f].0
            &&& 1 <= m.line_number <= lines.len()
            &&& regex_is_match(pattern, ci, lines[m.line_number - 1])
            &&& m == match_spec(files[f].0, lines, m.line_number, c)
        } by {
            if k < before.len() {
                assert(all[k] == before[k]);
                let f = choose|f: int| {
                    let lines = split_lines((#[trigger] files[f]).1);
                    let m = #[trigger] before[k];
                    &&& 0 <= f < n - 1
                    &&& m.path == files[f].0
                    &&& 1 <= m.line_number <= lines.len()
                    &&& regex_is_match(pattern, ci, lines[m.line_number - 1])
                    &&& m == match_spec(files[f].0, lines, m.line_number, c)
                };
                assert(0 <= f < n);
            } else {
                assert(all[k] == fm[k - before.len()]);
                let m = fm[k - before.len()];
                assert(m == match_spec(f0.0, lines0, m.line_number, c));
                assert(m.path == f0.0);
            }
        }
        assert forall|f: int, i: int|
            0 <= f < n && 0 <= i < split_lines(files[f].1).len() && #[trigger] regex_is_match(
                pattern,
                ci,
                split_lines(files[f].1)[i],
            ) implies exists|k: int|
                0 <= k < all.len() && #[trigger] all[k] == match_spec(
                    files[f].0,
                    split_lines(files[f].1),
                    i + 1,
                    c,
                ) by {
            let target = match_spec(files[f].0, split_lines(files[f].1), i + 1, c);
            if f < n - 1 {
                let k = choose|k: int| 0 <= k < before.len() && #[trigger] before[k] == target;
                assert(all[k] == before[k]);
            } else {
                assert(regex_is_match(pattern, ci, lines0[i]));
                let k = choose|k: int| 0 <= k < fm.len() && #[trigger] fm[k] == match_spec(f0.0, lines0, i + 1, c);
                assert(all[before.len() + k] == fm[k]);
            }
        }
    }
}

/// What a search returns, in full: at most `max` matches; each names a file of
/// the search and a line of it that the pattern matches, with its window
/// clamped to the file and its snippet; within a file the lines rise; and when
/// fewer than `max` matches come back, every matching line of every file is
/// among them.
pub proof fn search_finds_exactly_the_matching_lines(
    files: Seq<(Seq<char>, Seq<char>)>,
    pattern: Seq<char>,
    ci: bool,
    c: int,
    max: int,
)
    requires
        0 <= max,
        0 <= c,
    ensures
        ({
            let r = first_n(all_matches(files, pattern, ci, c, files.len() as int), max);
            &&& r.len() <= max
            &&& forall|k: int| 0 <= k < r.len() ==> exists|f: int| {
                let lines = split_lines((#[trigger] files[f]).1);
                let m = #[trigger] r[k];
                &&& 0 <= f < files.len()
                &&& m.path == files[f].0
                &&& 1 <= m.line_number <= lines.len()
                &&& regex_is_match(pattern, ci, lines[m.line_number - 1])
                &&& (m.start_line, m.end_line) == clamp_spec(m.line_number, c, lines.len() as int)
                &&& m == match_spec(files[f].0, lines, m.line_number, c)
            }
            &&& forall|f: int, a: int, b: int|
                0 <= f < files.len() && 0 <= a < b < file_matches(
                    files[f].0,
                    split_lines(files[f].1),
                    pattern,
                    ci,
                    c,
                    split_lines(files[f].1).len() as int,
                ).len() ==> #[trigger] file_matches(
                    files[f].0,
                    split_lines(files[f].1),
                    pattern,
                    ci,
                    c,
                    split_lines(files[f].1).len() as int,
                )[a].line_number < #[trigger] file_matches(
                    files[f].0,
                    split_lines(files[f].1),
                    pattern,
                    ci,
                    c,
                    split_lines(files[f].1).len() as int,
                )[b].line_number
            &&& r.len() < max ==> forall|f: int, i: int|
                0 <= f < files.len() && 0 <= i < split_lines(files[f].1).len() && #[trigger] regex_is_match(
                    pattern,
                    ci,
                    split_lines(files[f].1)[i],
                ) ==> exists|k: int|
                    0 <= k < r.len() && #[trigger] r[k] == match_spec(
                        files[f].0,
                        split_lines(files[f].1),
                        i + 1,
                        c,
                    )
        }),
{
    let all = all_matches(files, pattern, ci, c, files.len() as int);
    lemma_all_matches(files, pattern, ci, c, files.len() as int);
    let r = first_n(all, max);
    assert forall|k: int| 0 <= k < r.len() implies exists|f: int| {
        let lines = split_lines((#[trigger] files[f]).1);
        let m = #[trigger] r[k];
        &&& 0 <= f < files.len()
        &&& m.path == files[f].0
        &&& 1 <= m.line_number <= lines.len()
        &&& regex_is_match(pattern, ci, lines[m.line_number - 1])
        &&& (m.start_line, m.end_line) == clamp_spec(m.line_number, c, lines.len() as int)
        &&& m == match_spec(files[f].0, lines, m.line_number, c)
    } by {
        assert(r[k] == all[k]);
        let f = choose|f: int| {
            let lines = split_lines((#[trigger] files[f]).1);
            let m = #[trigger] all[k];
            &&& 0 <= f < files.len()
            &&& m.path == files[f].0
            &&& 1 <= m.line_number <= lines.len()
            &&& regex_is_match(pattern, ci, lines[m.line_number - 1])
            &&& m == match_spec(files[f].0, lines, m.line_number, c)
        };
        let lines = split_lines(files[f].1);
        assert(r[k] == match_spec(files[f].0, lines, r[k].line_number, c));
    }
    assert forall|f: int, a: int, b: int|
        0 <= f < files.len() && 0 <= a < b < file_matches(
            files[f].0,
            split_lines(files[f].1),
            pattern,
            ci,
            c,
            split_lines(files[f].1).len() as int,
        ).len() implies #[trigger] file_matches(
            files[f].0,
            split_lines(files[f].1),
            pattern,
            ci,
            c,
            split_lines(files[f].1).len() as int,
        )[a].line_number < #[trigger] file_matches(
            files[f].0,
            split_lines(files[f].1),
            pattern,
            ci,
            c,
            split_lines(files[f].1).len() as int,
        )[b].line_number by {
        lemma_file_matches(
            files[f].0,
            split_lines(files[f].1),
            pattern,
            ci,
            c,
            split_lines(files[f].1).len() as int,
        );
    }
    if r.len() < max {
        assert(r == all);
    }
}

// ---------------------------------------------------------------------------
// Viewing
// ---------------------------------------------------------------------------

/// A capped preview shows at most `CAPPED_PREVIEW_LINES` lines.
pub proof fn capped_preview_is_bounded(n: int, opts: ViewOptions)
    requires
        should_cap(n, opts),
    ensures
        range_end(n, opts) - range_start(opts) + 1 <= CAPPED_PREVIEW_LINES,
{
}

/// A file of more than `DEFAULT_MAX_LINES` lines viewed with the default
/// options shows its first `CAPPED_PREVIEW_LINES` lines.
pub proof fn long_file_default_view_is_first_lines(n: int, opts: ViewOptions)
    requires
        n > DEFAULT_MAX_LINES,
        opts.start_line is None,
        opts.end_line is None,
        !opts.force_all,
    ensures
        should_cap(n, opts),
        range_start(opts) == 1,
        range_end(n, opts) == CAPPED_PREVIEW_LINES,
{
}

/// An explicit range within the file is shown exactly, whatever the file's length.
pub proof fn explicit_range_is_exact(n: int, opts: ViewOptions, s: usize, e: usize)
    requires
        opts.start_line == Some(s),
        opts.end_line == Some(e),
        1 <= s <= e <= n,
    ensures
        !should_cap(n, opts),
        range_start(opts) == s,
        range_end(n, opts) == e,
{
}

/// A binary file is reported as such whatever the options.
pub proof fn binary_files_ignore_options(f: ViewFile, a: ViewOptions, b: ViewOptions)
    requires
        f.source is Binary,
    ensures
        view_spec(f, a) == view_spec(f, b),
{
}

/// Once a batch has spent its byte budget, every further file is shown in
/// outline mode (or as its error).
pub proof fn spent_budget_degrades_to_outline(files: Seq<ViewFile>, opts: ViewOptions, max: int, k: int)
    requires
        0 <= k < files.len(),
        batch_state(files, opts, max, k).1 >= max,
    ensures
        batch_entry(files[k], opts, max, batch_state(files, opts, max, k).1) == outline_entry(
            files[k],
            opts,
        ),
{
}

/// The bytes a batch counts against its budget never decrease from one file
/// to the next.
pub proof fn batch_spending_is_monotone(files: Seq<ViewFile>, opts: ViewOptions, max: int, k: int)
    requires
        0 <= k < files.len(),
    ensures
        batch_state(files, opts, max, k).1 <= batch_state(files, opts, max, k + 1).1,
{
    let (out, total) = batch_state(files, opts, max, k);
    let e = batch_entry(files[k], opts, max, total);
    assert(e.1 >= 0);
}

proof fn lemma_outline_upto(lines: Seq<Seq<char>>, upto: int)
    requires
        0 <= upto <= lines.len(),
    ensures
        ({
            let o = outline_spec(lines, upto);
            &&& forall|k: int| 0 <= k < o.len() ==> {
                let e = #[trigger] o[k];
                &&& 1 <= e.0 <= upto
                &&& e.1 == trim(lines[e.0 - 1])
                &&& is_decl(e.1)
            }
            &&& forall|a: int, b: int| 0 <= a < b < o.len() ==> #[trigger] o[a].0 < #[trigger] o[b].0
            &&& forall|i: int| 0 <= i < upto && is_decl(#[trigger] trim(lines[i])) ==> exists|k: int|
                0 <= k < o.len() && #[trigger] o[k] == (i + 1, trim(lines[i]))
        }),
    decreases upto,
{
    if upto > 0 {
        lemma_outline_upto(lines, upto - 1);
        let before = outline_spec(lines, upto - 1);
        let o = outline_spec(lines, upto);
        let t = trim(lines[upto - 1]);
        if is_decl(t) {
            assert(o == before.push((upto, t)));
            assert forall|k: int| 0 <= k < before.len() implies #[trigger] o[k] == before[k] by {}
            assert forall|i: int| 0 <= i < upto && is_decl(#[trigger] trim(lines[i])) implies exists|k: int|
                0 <= k < o.len() && #[trigger] o[k] == (i + 1, trim(lines[i])) by {
                if i == upto - 1 {
                    assert(o[before.len() as int] == (i + 1, trim(lines[i])));
                } else {
                    let k = choose|k: int| 0 <= k < before.len() && #[trigger] before[k] == (i + 1, trim(lines[i]));
                    assert(o[k] == before[k]);
                }
            }
        }
    }
}

/// An outline lists exactly the declaration lines, in order: every entry is a
/// line's 1-based number with that line's trimmed text, which starts with a
/// declaration keyword; numbers strictly increase; and every line whose trimmed
/// text starts with a declaration keyword is listed.
pub proof fn outline_lists_exactly_the_declarations(lines: Seq<Seq<char>>)
    ensures
        ({
            let o = outline_of(lines);
            &&& forall|k: int| 0 <= k < o.len() ==> {
                let e = #[trigger] o[k];
                &&& 1 <= e.0 <= lines.len()
                &&& e.1 == trim(lines[e.0 - 1])
                &&& is_decl(e.1)
            }
            &&& forall|a: int, b: int| 0 <= a < b < o.len() ==> #[trigger] o[a].0 < #[trigger] o[b].0
            &&& forall|i: int| 0 <= i < lines.len() && is_decl(#[trigger] trim(lines[i])) ==> exists|k: int|
                0 <= k < o.len() && #[trigger] o[k] == (i + 1, trim(lines[i]))
        }),
{
    lemma_outline_upto(lines, lines.len() as int);
    let o = outline_of(lines);
    assert(o == outline_spec(lines, lines.len() as int));
    assert forall|i: int| 0 <= i < lines.len() && is_decl(#[trigger] trim(lines[i])) implies exists|k: int|
        0 <= k < o.len() && #[trigger] o[k] == (i + 1, trim(lines[i])) by {
        assert(0 <= i < lines.len() as int);
    }
}

/// A batch writes, file after file, the header `=== File [i/n]: path ===` and
/// that file's section, starting from nothing: a file that cannot be read gets
/// `Error reading path: error` (`File not found: path` when it is missing) and
/// the files after it are still shown. With outline mode off, a readable file is
/// shown in full when budget remains and its full view fits in what remains,
/// and otherwise as `[Aggregate budget reached; displaying outline]` followed by
/// its outline; the budget spent grows by the byte length of what was shown.
pub proof fn batch_is_headed_sections_in_order(files: Seq<ViewFile>, opts: ViewOptions, max: int, k: int)
    requires
        0 <= k < files.len(),
    ensures
        batch_state(files, opts, max, 0).0 == Seq::<char>::empty(),
        ({
            let (out, acc) = batch_state(files, opts, max, k);
            let f = files[k];
            let (next, acc2) = batch_state(files, opts, max, k + 1);
            let section = next.skip((out.len() + batch_header(k + 1, files.len() as int, f.path@).len()) as int);
            &&& next == out + batch_header(k + 1, files.len() as int, f.path@) + section
            &&& (f.source is NotFound ==> section == batch_error(f.path@, "File not found: "@ + f.path@)
                && acc2 == acc)
            &&& (view_spec(f, opts) is Err && acc < max ==> section == batch_error(
                f.path@,
                view_spec(f, opts)->Err_0,
            ) && acc2 == acc)
            &&& (!opts.outline && view_spec(f, opts) is Ok && view_spec(f, with_outline(opts)) is Ok ==> {
                let full = view_spec(f, opts)->Ok_0;
                let outline = view_spec(f, with_outline(opts))->Ok_0;
                if acc < max && acc + sat(utf8_len(full) as int) <= max {
                    section == full + "\n\n"@ && acc2 == acc + sat(utf8_len(full) as int)
                } else {
                    section == "[Aggregate budget reached; displaying outline]\n"@ + outline + "\n\n"@
                        && acc2 == acc + sat(utf8_len(outline) as int)
                }
            })
        }),
{
    let (out, acc) = batch_state(files, opts, max, k);
    let f = files[k];
    let h = batch_header(k + 1, files.len() as int, f.path@);
    let (next, acc2) = batch_state(files, opts, max, k + 1);
    let e = crate::view::batch_entry(f, opts, max, acc);
    assert(next == out + h + e.0);
    assert(next.skip((out.len() + h.len()) as int) =~= e.0);
    assert(next == out + h + next.skip((out.len() + h.len()) as int));
    if f.source is NotFound {
        assert(view_spec(f, with_outline(opts)) == view_spec(f, opts));
    }
}

// ---------------------------------------------------------------------------
// Style
// ---------------------------------------------------------------------------

/// Repairing em dashes leaves none, keeps the text's length, changes nothing
/// but the dashes, and counts every dash it replaced.
pub proof fn em_dash_repair_is_complete(s: Seq<char>)
    ensures
        !dash_fix(s, true).0.contains(EM_DASH),
        dash_fix(s, true).0.len() == s.len(),
        forall|i: int| 0 <= i < s.len() && s[i] != EM_DASH ==> #[trigger] dash_fix(s, true).0[i] == s[i],
        s.contains(EM_DASH) ==> dash_fix(s, true).1 == count_char(s, EM_DASH),
{
    if s.contains(EM_DASH) {
        let t = dashes_replaced(s);
        assert forall|i: int| 0 <= i < t.len() implies t[i] != EM_DASH by {}
    }
}

/// Repairing em dashes twice repairs nothing the second time.
pub proof fn em_dash_repair_is_idempotent(s: Seq<char>)
    ensures
        dash_fix(dash_fix(s, true).0, true) == (dash_fix(s, true).0, 0nat),
{
    em_dash_repair_is_complete(s);
}

proof fn lemma_line_findings_layout(line: Seq<char>, n: int, auto_fix: bool)
    ensures
        forall|j: int| 0 <= j < line_findings(line, n, auto_fix).len() ==> {
            let v = #[trigger] line_findings(line, n, auto_fix)[j];
            &&& v.line_number == n
            &&& v.snippet == trim(line)
            &&& auto_fix ==> v.rule != "em-dash"@
        },
{
    reveal_strlit("em-dash");
    reveal_strlit("banned-word");
    reveal_strlit("banned-construction");
    assert("em-dash"@[0] != "banned-word"@[0]);
    assert("em-dash"@[0] != "banned-construction"@[0]);
    let lf = line_findings(line, n, auto_fix);
    let words = regex_find_texts("(?i)\\b(delve|delves|delved|delving|tapestry|tapestries|testament|underscore|underscores|underscored|underscoring|pivotal|crucial|intricate|meticulous|vibrant|foster|fosters|fostered|fostering|garner|garners|garnered|garnering|bolster|bolsters|bolstered|bolstering|interplay|robust|enduring|showcase|showcases|showcased|showcasing|leverage|leverages|leveraged|leveraging|seamless)\\b"@, false, line);
    assert(banned_words_pattern() == "(?i)\\b(delve|delves|delved|delving|tapestry|tapestries|testament|underscore|underscores|underscored|underscoring|pivotal|crucial|intricate|meticulous|vibrant|foster|fosters|fostered|fostering|garner|garners|garnered|garnering|bolster|bolsters|bolstered|bolstering|interplay|robust|enduring|showcase|showcases|showcased|showcasing|leverage|leverages|leveraged|leveraging|seamless)\\b"@);
    let dash_len: int = if !auto_fix && line.contains(EM_DASH) { 1 } else { 0 };
    assert forall|j: int| 0 <= j < lf.len() implies {
        let v = #[trigger] lf[j];
        &&& v.line_number == n
        &&& v.snippet == trim(line)
        &&& auto_fix ==> v.rule != "em-dash"@
    } by {
        if dash_len <= j < dash_len + words.len() {
            assert(lf[j] == finding(n, "banned-word"@, words[j - dash_len], line));
        }
    }
}

/// Findings are laid out line by line: each points at an existing line that is
/// neither a fence nor inside a fenced code block (an even number of fences
/// come before it), carries that line's trimmed text as its snippet, line
/// numbers never decrease, and when em dashes are repaired none is reported.
pub proof fn findings_skip_code_blocks(lines: Seq<Seq<char>>, auto_fix: bool, n: int)
    requires
        0 <= n <= lines.len(),
    ensures
        forall|i: int| 0 <= i < scan_lines(lines, auto_fix, n).0.len() ==> {
            let v = #[trigger] scan_lines(lines, auto_fix, n).0[i];
            let k = v.line_number;
            &&& 1 <= k <= n
            &&& !is_fence(lines[k - 1])
            &&& !scan_lines(lines, auto_fix, k - 1).1
            &&& v.snippet == trim(lines[k - 1])
            &&& auto_fix ==> v.rule != "em-dash"@
        },
        forall|a: int, b: int| 0 <= a < b < scan_lines(lines, auto_fix, n).0.len() ==> (#[trigger] scan_lines(
            lines,
            auto_fix,
            n,
        ).0[a]).line_number <= (#[trigger] scan_lines(lines, auto_fix, n).0[b]).line_number,
    decreases n,
{
    if n > 0 {
        findings_skip_code_blocks(lines, auto_fix, n - 1);
        let (found, in_code) = scan_lines(lines, auto_fix, n - 1);
        let line = lines[n - 1];
        if !is_fence(line) && !in_code {
            let lf = line_findings(line, n, auto_fix);
            lemma_line_findings_layout(line, n, auto_fix);
            let all = found + lf;
            assert(all == scan_lines(lines, auto_fix, n).0);
            assert forall|i: int| 0 <= i < all.len() implies {
                let v = #[trigger] all[i];
                let k = v.line_number;
                &&& 1 <= k <= n
                &&& !is_fence(lines[k - 1])
                &&& !scan_lines(lines, auto_fix, k - 1).1
                &&& v.snippet == trim(lines[k - 1])
                &&& auto_fix ==> v.rule != "em-dash"@
            } by {
                if i >= found.len() {
                    assert(all[i] == lf[i - found.len()]);
                } else {
                    assert(all[i] == found[i]);
                }
            }
            assert forall|a: int, b: int| 0 <= a < b < all.len() implies (#[trigger] all[a]).line_number
                <= (#[trigger] all[b]).line_number by {
                if b >= found.len() {
                    assert(all[b] == lf[b - found.len()]);
                    if a >= found.len() {
                        assert(all[a] == lf[a - found.len()]);
                    } else {
                        assert(all[a] == found[a]);
                    }
                } else {
                    assert(all[a] == found[a]);
                    assert(all[b] == found[b]);
                }
            }
        }
    }
}

proof fn lemma_no_dash_count(s: Seq<char>)
    requires
        !s.contains(EM_DASH),
    ensures
        count_char(s, EM_DASH) == 0,
        dashes_replaced(s) == s,
    decreases s.len(),
{
    if s.len() > 0 {
        assert(!s.drop_last().contains(EM_DASH)) by {
            if s.drop_last().contains(EM_DASH) {
                let i = choose|i: int| 0 <= i < s.drop_last().len() && s.drop_last()[i] == EM_DASH;
                assert(s[i] == EM_DASH);
            }
        }
        lemma_no_dash_count(s.drop_last());
        assert(s.last() == s[s.len() - 1]);
    }
    assert(dashes_replaced(s) =~= s);
}

/// A style check with em-dash repair returns the text with every em dash
/// replaced by `-`, the number of em dashes it held, and no em-dash finding;
/// without repair it returns the text unchanged and a count of zero.
pub proof fn style_check_repairs_every_em_dash(content: Seq<char>, auto_fix: bool)
    ensures
        ({
            let (fixed, n) = dash_fix(content, auto_fix);
            let fs = findings_of(fixed, auto_fix);
            &&& auto_fix ==> fixed == dashes_replaced(content) && n == count_char(content, EM_DASH)
                && forall|i: int| 0 <= i < fs.len() ==> (#[trigger] fs[i]).rule != "em-dash"@
            &&& !auto_fix ==> fixed == content && n == 0
        }),
{
    if !content.contains(EM_DASH) {
        lemma_no_dash_count(content);
    }
    let fixed = dash_fix(content, auto_fix).0;
    let lines = split_lines(fixed);
    findings_skip_code_blocks(lines, auto_fix, lines.len() as int);
}

// ---------------------------------------------------------------------------
// Editing
// ---------------------------------------------------------------------------

/// The final report of an edit is consistent: a rolled-back edit failed, a
/// successful edit was verified and kept, and a failed edit reports no
/// replacement; a failed command rolls back exactly when asked to.
pub proof fn verified_edit_report_is_consistent(params: EditParams, n: int, outcome: VerifyOutcome)
    ensures
        ({
            let r = after_verify_spec(params, n, outcome);
            &&& r.rolled_back ==> !r.success
            &&& r.success ==> r.verified && !r.rolled_back && r.replacements_made == n
            &&& !r.success ==> r.replacements_made == 0 && r.rolled_back == params.rollback_on_failure
        }),
{
}

/// An edit only writes when the target occurs, and without `allow_multiple`
/// only when it occurs exactly once.
pub proof fn edit_writes_only_on_unique_or_allowed_match(params: EditParams, probe: FileProbe)
    ensures
        plan_spec(params, probe) is Ok ==> (probe matches FileProbe::Content(c) && {
            let n = count_occurrences(c@, params.target_content@);
            n >= 1 && (!params.allow_multiple ==> n == 1) && plan_spec(params, probe)->Ok_0.1 == (
            if params.allow_multiple {
                n as int
            } else {
                1
            })
        }),
{
}

// ---------------------------------------------------------------------------
// Hooks
// ---------------------------------------------------------------------------

proof fn lemma_trim_identity(c: Seq<char>)
    requires
        c.len() > 0,
        !crate::text::is_ws(c[0]),
        !crate::text::is_ws(c.last()),
    ensures
        trim(c) == c,
{
    assert(crate::text::lead_ws(c) == 0);
    assert(c.skip(0) == c);
    assert(crate::text::trail_ws(c) == 0);
    assert(c.take(c.len() as int) == c);
}

proof fn lemma_python_needs_p(c: Seq<char>, k: int)
    requires
        c.len() > 0,
        c[0] != 'p',
        0 <= k,
    ensures
        python_kill_from(c, k) is None,
    decreases 4 - k,
{
    if k < 4 {
        let f = python_forms()[k];
        reveal_strlit("python3 -c \"");
        reveal_strlit("python3 -c '");
        reveal_strlit("python -c \"");
        reveal_strlit("python -c '");
        assert(f.0[0] == 'p');
        if starts_with(c, f.0) {
            assert(c[0] == c.take(f.0.len() as int)[0]);
        }
        assert(digits_between(c, f.0, f.1) is None);
        lemma_python_needs_p(c, k + 1);
    }
}

proof fn lemma_fast_tools_command_is_final(c: Seq<char>)
    requires
        starts_with(c, "fast-tools "@),
        !crate::text::is_ws(c.last()),
    ensures
        rewrite_spec(c) is None,
{
    reveal_strlit("fast-tools ");
    reveal_strlit("git status");
    reveal_strlit("git status -s");
    reveal_strlit("git status --short");
    reveal_strlit("cat ");
    reveal_strlit("lsof -p ");
    assert(c[0] == c.take(11)[0]);
    assert(c[0] == 'f');
    lemma_trim_identity(c);
    assert(c != "git status"@ && c != "git status -s"@ && c != "git status --short"@) by {
        assert("git status"@[0] == 'g');
        assert("git status -s"@[0] == 'g');
        assert("git status --short"@[0] == 'g');
    }
    if starts_with(c, "cat "@) {
        assert(c[0] == c.take(4)[0]);
    }
    assert(cat_path(c) is None);
    if starts_with(c, "lsof -p "@) {
        assert(c[0] == c.take(8)[0]);
    }
    assert(digits_between(c, "lsof -p "@, seq![]) is None);
    lemma_python_needs_p(c, 0);
}

/// A command that the pre-tool hook has rewritten is never rewritten again:
/// every replacement is a `fast-tools` command that no rule matches.
pub proof fn rewritten_commands_are_final(cmd: Seq<char>)
    requires
        rewrite_spec(cmd) is Some,
    ensures
        rewrite_spec(rewrite_spec(cmd)->Some_0.0) is None,
{
    let c = trim(cmd);
    let new_cmd = rewrite_spec(cmd)->Some_0.0;
    reveal_strlit("fast-tools ");
    reveal_strlit("fast-tools git-snapshot");
    reveal_strlit("fast-tools view ");
    reveal_strlit("fast-tools poll --pid ");
    reveal_strlit(" --state alive --timeout 5000");
    if c == "git status"@ || c == "git status -s"@ || c == "git status --short"@ {
        assert(new_cmd == "fast-tools git-snapshot"@);
        assert(new_cmd.take(11) =~= "fast-tools "@);
    } else if cat_path(c) is Some {
        let p = cat_path(c)->Some_0;
        assert(new_cmd == "fast-tools view "@ + p);
        assert(new_cmd.take(11) =~= "fast-tools "@);
        assert(new_cmd.last() == p.last());
        assert(is_plain_path(p));
        assert(crate::hooks::is_path_char(p[p.len() - 1]));
    } else {
        let d = if digits_between(c, "lsof -p "@, seq![]) is Some {
            digits_between(c, "lsof -p "@, seq![])->Some_0
        } else {
            python_kill_pid(c)->Some_0
        };
        assert(new_cmd == crate::hooks::poll_command(d));
        assert(new_cmd.take(11) =~= "fast-tools "@);
        assert(new_cmd.last() == '0');
    }
    lemma_fast_tools_command_is_final(new_cmd);
}

// ---------------------------------------------------------------------------
// Polling
// ---------------------------------------------------------------------------

/// Polling never busy-waits: a wait is at least 10 ms; it reports success
/// only when the awaited condition holds; and with nothing to poll it stops at once.
pub proof fn polling_is_well_paced(config: PollConfig, elapsed: u64, pid_alive: bool, port_open: bool)
    ensures
        ({
            let (done, report, wait) = poll_decision(config, elapsed, pid_alive, port_open);
            &&& !done ==> wait >= 10
            &&& (report matches Some((ok, _)) && ok) ==> crate::poll::condition_met(
                config,
                pid_alive,
                port_open,
            ) && (config.pid is Some || config.port is Some)
            &&& (config.pid is None && config.port is None) ==> done
            &&& (elapsed >= config.timeout_ms) ==> done
        }),
{
}

/// A polling run, observed at `obs` (elapsed ms, pid alive, port open) and
/// stopped at the first observation where the decision is to finish, succeeds
/// exactly when that observation saw the awaited condition: every earlier
/// observation saw neither the condition nor the timeout and was followed by a
/// wait of at least 10 ms; a success reports "Target condition ..." and a
/// failure happens only once the timeout has passed and reports "Timeout after ...".
pub proof fn polling_run_succeeds_iff_target_seen_before_timeout(
    config: PollConfig,
    obs: Seq<(u64, bool, bool)>,
    k: int,
)
    requires
        config.pid is Some || config.port is Some,
        0 <= k < obs.len(),
        forall|j: int| 0 <= j < k ==> !(#[trigger] poll_decision(config, obs[j].0, obs[j].1, obs[j].2)).0,
        poll_decision(config, obs[k].0, obs[k].1, obs[k].2).0,
    ensures
        ({
            let (_, report, _) = poll_decision(config, obs[k].0, obs[k].1, obs[k].2);
            &&& report is Some
            &&& report->Some_0.0 <==> condition_met(config, obs[k].1, obs[k].2)
            &&& !report->Some_0.0 ==> obs[k].0 >= config.timeout_ms && starts_with(
                report->Some_0.1,
                "Timeout after "@,
            )
            &&& report->Some_0.0 ==> starts_with(report->Some_0.1, "Target condition "@)
        }),
        forall|j: int| 0 <= j < k ==> {
            let o = #[trigger] obs[j];
            &&& !condition_met(config, o.1, o.2)
            &&& o.0 < config.timeout_ms
            &&& poll_decision(config, o.0, o.1, o.2).2 >= 10
        },
{
    assert forall|j: int| 0 <= j < k implies {
        let o = #[trigger] obs[j];
        &&& !condition_met(config, o.1, o.2)
        &&& o.0 < config.timeout_ms
        &&& poll_decision(config, o.0, o.1, o.2).2 >= 10
    } by {
        assert(!poll_decision(config, obs[j].0, obs[j].1, obs[j].2).0);
    }
    let (_, report, _) = poll_decision(config, obs[k].0, obs[k].1, obs[k].2);
    let msg = report->Some_0.1;
    if condition_met(config, obs[k].1, obs[k].2) {
        assert(msg.take(("Target condition "@).len() as int) =~= "Target condition "@);
    } else {
        assert(msg.take(("Timeout after "@).len() as int) =~= "Timeout after "@);
    }
}

// ---------------------------------------------------------------------------
// Git
// ---------------------------------------------------------------------------

/// `git status` is read from its output: a failed run reports
/// `git status failed: ` and its trimmed error output; a successful one names
/// the branch from the first line and keeps every later line, in order, as a
/// status line (none when the output is empty).
pub proof fn git_status_is_read_from_its_output(run: GitRun)
    requires
        run is Finished,
    ensures
        ({
            let lines = split_lines(run->stdout@);
            if run->success {
                &&& status_outcome(run) is Ok
                &&& status_outcome(run)->Ok_0.1 == (if lines.len() == 0 {
                    Seq::<Seq<char>>::empty()
                } else {
                    lines.skip(1)
                })
                &&& lines.len() > 0 ==> status_outcome(run)->Ok_0.0 == branch_of(lines[0])
            } else {
                status_outcome(run) == Err::<(Seq<char>, Seq<Seq<char>>), Seq<char>>(
                    "git status failed: "@ + trim(run->stderr@),
                )
            }
        }),
{
    let lines = split_lines(run->stdout@);
    if lines.len() > 0 {
        assert(lines.drop_first() =~= lines.skip(1));
    }
}

// ---------------------------------------------------------------------------
// Polling, with the awaited states spelled out
// ---------------------------------------------------------------------------

/// Whether an observation satisfies the awaited state on every configured
/// target: for `Alive` and `Ready` the process is alive and the port is open,
/// for `Terminated` the process is gone and the port is closed.
pub open spec fn all_targets_in_state(config: PollConfig, pid_alive: bool, port_open: bool) -> bool {
    let want_up = !(config.state is Terminated);
    &&& (config.pid is Some ==> pid_alive == want_up)
    &&& (config.port is Some ==> port_open == want_up)
}

/// One polling decision, stated over what was observed: with something to
/// poll, it finishes with success exactly when every configured target is in
/// the awaited state; otherwise it times out once `elapsed` reaches the
/// timeout, and before that it waits the interval (at least 10 ms). With
/// nothing to poll it fails at once.
pub proof fn poll_decision_follows_every_target(config: PollConfig, elapsed: u64, pid_alive: bool, port_open: bool)
    ensures
        ({
            let (done, report, wait) = poll_decision(config, elapsed, pid_alive, port_open);
            if config.pid is None && config.port is None {
                done && report is Some && !report->Some_0.0
            } else if all_targets_in_state(config, pid_alive, port_open) {
                done && report is Some && report->Some_0.0
            } else if elapsed >= config.timeout_ms {
                done && report is Some && !report->Some_0.0
            } else {
                !done && report is None && wait == (if config.interval_ms < 10 {
                    10
                } else {
                    config.interval_ms
                })
            }
        }),
{
}

// ---------------------------------------------------------------------------
// The poll_service tool's arguments
// ---------------------------------------------------------------------------

/// A `poll_service` call maps its arguments one to one: `"alive"` waits for
/// `Alive`, `"terminated"` for `Terminated`, and `"ready"`, any other text or
/// no state for `Ready`; the pid and port are those given (as integers, when
/// in range), and the timeout and interval default to 5000 ms and 200 ms.
pub proof fn poll_call_maps_its_arguments(args: Option<JsonValue>, act: McpAction)
    requires
        tool_call_ok("poll_service"@, args, act),
        act matches McpAction::Call(ToolInvocation::Poll(_)),
    ensures
        ({
            let c = act->Call_0->Poll_0;
            let st = json_str(arg_member(args, "state"@));
            &&& st == Some("alive"@) ==> c.state is Alive
            &&& st == Some("terminated"@) ==> c.state is Terminated
            &&& st == Some("ready"@) ==> c.state is Ready
            &&& st is None ==> c.state is Ready
            &&& (st matches Some(x) && x != "alive"@ && x != "terminated"@) ==> c.state is Ready
            &&& arg_member(args, "pid"@) is None ==> c.pid is None
            &&& (json_i64(arg_member(args, "pid"@)) is Some && i32::MIN <= json_i64(
                arg_member(args, "pid"@),
            )->Some_0 <= i32::MAX) ==> c.pid == Some(json_i64(arg_member(args, "pid"@))->Some_0 as i32)
            &&& arg_member(args, "port"@) is None ==> c.port is None
            &&& (json_u64(arg_member(args, "port"@)) is Some && json_u64(arg_member(args, "port"@))->Some_0
                <= u16::MAX) ==> c.port == Some(json_u64(arg_member(args, "port"@))->Some_0 as u16)
            &&& c.timeout_ms == (match json_u64(arg_member(args, "timeout_ms"@)) {
                Some(n) => n,
                None => 5000,
            })
            &&& c.interval_ms == (match json_u64(arg_member(args, "interval_ms"@)) {
                Some(n) => n,
                None => 200,
            })
        }),
{
    crate::mcp::lemma_tool_names_distinct();
    reveal_strlit("alive");
    reveal_strlit("terminated");
    reveal_strlit("ready");
    assert("alive"@ != "terminated"@) by {
        assert("alive"@[0] != "terminated"@[0]);
    }
    assert("ready"@ != "terminated"@) by {
        assert("ready"@[0] != "terminated"@[0]);
    }
    assert("ready"@ != "alive"@) by {
        assert("ready"@[0] != "alive"@[0]);
    }
}

// ---------------------------------------------------------------------------
// Outline keywords
// ---------------------------------------------------------------------------

/// Whether a trimmed line opens a top-level declaration: it starts with one of
/// `fn `, `pub fn `, `async fn `, `pub async fn `, `function `,
/// `export function `, `export async function `, `class `, `export class `,
/// `struct `, `pub struct `, `enum `, `pub enum `, `trait `, `pub trait `,
/// `interface `, `export interface `, `type `, `export type `, `impl `, `def `.
pub open spec fn opens_declaration(t: Seq<char>) -> bool {
    let kws: Seq<Seq<char>> = seq![
        "fn "@,
        "pub fn "@,
        "async fn "@,
        "pub async fn "@,
        "function "@,
        "export function "@,
        "export async function "@,
        "class "@,
        "export class "@,
        "struct "@,
        "pub struct "@,
        "enum "@,
        "pub enum "@,
        "trait "@,
        "pub trait "@,
        "interface "@,
        "export interface "@,
        "type "@,
        "export type "@,
        "impl "@,
        "def "@,
    ];
    exists|j: int| 0 <= j < kws.len() && t.len() >= kws[j].len() && #[trigger] t.take(kws[j].len() as int) == kws[j]
}

proof fn lemma_keyword_list(t: Seq<char>)
    ensures
        is_decl(t) == opens_declaration(t),
{
    let kws: Seq<Seq<char>> = seq![
        "fn "@,
        "pub fn "@,
        "async fn "@,
        "pub async fn "@,
        "function "@,
        "export function "@,
        "export async function "@,
        "class "@,
        "export class "@,
        "struct "@,
        "pub struct "@,
        "enum "@,
        "pub enum "@,
        "trait "@,
        "pub trait "@,
        "interface "@,
        "export interface "@,
        "type "@,
        "export type "@,
        "impl "@,
        "def "@,
    ];
    if is_decl(t) {
        if starts_with(t, "fn "@) { assert(t.take(kws[0].len() as int) == kws[0]); }
        if starts_with(t, "pub fn "@) { assert(t.take(kws[1].len() as int) == kws[1]); }
        if starts_with(t, "async fn "@) { assert(t.take(kws[2].len() as int) == kws[2]); }
        if starts_with(t, "pub async fn "@) { assert(t.take(kws[3].len() as int) == kws[3]); }
        if starts_with(t, "function "@) { assert(t.take(kws[4].len() as int) == kws[4]); }
        if starts_with(t, "export function "@) { assert(t.take(kws[5].len() as int) == kws[5]); }
        if starts_with(t, "export async function "@) { assert(t.take(kws[6].len() as int) == kws[6]); }
        if starts_with(t, "class "@) { assert(t.take(kws[7].len() as int) == kws[7]); }
        if starts_with(t, "export class "@) { assert(t.take(kws[8].len() as int) == kws[8]); }
        if starts_with(t, "struct "@) { assert(t.take(kws[9].len() as int) == kws[9]); }
        if starts_with(t, "pub struct "@) { assert(t.take(kws[10].len() as int) == kws[10]); }
        if starts_with(t, "enum "@) { assert(t.take(kws[11].len() as int) == kws[11]); }
        if starts_with(t, "pub enum "@) { assert(t.take(kws[12].len() as int) == kws[12]); }
        if starts_with(t, "trait "@) { assert(t.take(kws[13].len() as int) == kws[13]); }
        if starts_with(t, "pub trait "@) { assert(t.take(kws[14].len() as int) == kws[14]); }
        if starts_with(t, "interface "@) { assert(t.take(kws[15].len() as int) == kws[15]); }
        if starts_with(t, "export interface "@) { assert(t.take(kws[16].len() as int) == kws[16]); }
        if starts_with(t, "type "@) { assert(t.take(kws[17].len() as int) == kws[17]); }
        if starts_with(t, "export type "@) { assert(t.take(kws[18].len() as int) == kws[18]); }
        if starts_with(t, "impl "@) { assert(t.take(kws[19].len() as int) == kws[19]); }
        if starts_with(t, "def "@) { assert(t.take(kws[20].len() as int) == kws[20]); }
    }
    if opens_declaration(t) {
        let j = choose|j: int| 0 <= j < kws.len() && t.len() >= kws[j].len() && #[trigger] t.take(kws[j].len() as int) == kws[j];
        assert(starts_with(t, kws[j]));
    }
}

/// An outline lists a line exactly when its trimmed text opens a declaration
/// (one of the keywords above, each followed by a space), with the line's
/// number and trimmed text, and lists nothing else.
pub proof fn outline_keeps_every_keyword_line(lines: Seq<Seq<char>>)
    ensures
        ({
            let o = outline_of(lines);
            &&& forall|k: int| 0 <= k < o.len() ==> {
                let e = #[trigger] o[k];
                &&& 1 <= e.0 <= lines.len()
                &&& e.1 == trim(lines[e.0 - 1])
                &&& opens_declaration(e.1)
            }
            &&& forall|i: int| 0 <= i < lines.len() && opens_declaration(#[trigger] trim(lines[i])) ==> exists|k: int|
                0 <= k < o.len() && #[trigger] o[k] == (i + 1, trim(lines[i]))
        }),
{
    outline_lists_exactly_the_declarations(lines);
    let o = outline_of(lines);
    assert forall|k: int| 0 <= k < o.len() implies opens_declaration((#[trigger] o[k]).1) by {
        lemma_keyword_list(o[k].1);
    }
    assert forall|i: int| 0 <= i < lines.len() && opens_declaration(#[trigger] trim(lines[i])) implies exists|k: int|
        0 <= k < o.len() && #[trigger] o[k] == (i + 1, trim(lines[i])) by {
        lemma_keyword_list(trim(lines[i]));
    }
}

// ---------------------------------------------------------------------------
// Style rules, spelled out
// ---------------------------------------------------------------------------

/// A line that opens or closes a fenced code block: after leading whitespace it
/// starts with three backticks or three tildes.
pub open spec fn fence_line(line: Seq<char>) -> bool {
    starts_with(trim_start(line), "```"@) || starts_with(trim_start(line), "~~~"@)
}

/// How many of the first `i` lines are fence lines.
pub open spec fn fences_before(lines: Seq<Seq<char>>, i: int) -> nat
    decreases i,
{
    if i <= 0 {
        0
    } else {
        fences_before(lines, i - 1) + if fence_line(lines[i - 1]) {
            1nat
        } else {
            0nat
        }
    }
}

/// The finding a rule reports on line `i` (0-based) of `lines`.
pub open spec fn rule_finding(lines: Seq<Seq<char>>, i: int, rule: Seq<char>, term: Seq<char>) -> StyleViolationView {
    StyleViolationView { line_number: i + 1, rule: rule, term: term, snippet: trim(lines[i]) }
}

proof fn lemma_scan_state(lines: Seq<Seq<char>>, auto_fix: bool, n: int)
    requires
        0 <= n <= lines.len(),
    ensures
        scan_lines(lines, auto_fix, n).1 == (fences_before(lines, n) % 2 == 1),
    decreases n,
{
    if n > 0 {
        lemma_scan_state(lines, auto_fix, n - 1);
        assert(is_fence(lines[n - 1]) == fence_line(lines[n - 1]));
    }
}

proof fn lemma_scan_prefix(lines: Seq<Seq<char>>, auto_fix: bool, m: int, n: int)
    requires
        0 <= m <= n <= lines.len(),
    ensures
        scan_lines(lines, auto_fix, m).0.len() <= scan_lines(lines, auto_fix, n).0.len(),
        forall|k: int| 0 <= k < scan_lines(lines, auto_fix, m).0.len() ==> #[trigger] scan_lines(
            lines,
            auto_fix,
            n,
        ).0[k] == scan_lines(lines, auto_fix, m).0[k],
    decreases n - m,
{
    if m < n {
        lemma_scan_prefix(lines, auto_fix, m, n - 1);
        let prev = scan_lines(lines, auto_fix, n - 1).0;
        let cur = scan_lines(lines, auto_fix, n).0;
        let line = lines[n - 1];
        if !is_fence(line) && !scan_lines(lines, auto_fix, n - 1).1 {
            assert(cur == prev + line_findings(line, n, auto_fix));
            assert forall|k: int| 0 <= k < prev.len() implies #[trigger] cur[k] == prev[k] by {}
        }
    }
}

/// Whether the findings of `text` include the finding of `rule` with `term` on
/// line `i` (0-based).
pub open spec fn has_finding(text: Seq<char>, auto_fix: bool, i: int, rule: Seq<char>, term: Seq<char>) -> bool {
    exists|k: int|
        0 <= k < findings_of(text, auto_fix).len() && #[trigger] findings_of(text, auto_fix)[k] == rule_finding(
            split_lines(text),
            i,
            rule,
            term,
        )
}

/// The banned words found in `line`.
pub open spec fn banned_words_in(line: Seq<char>) -> Seq<Seq<char>> {
    regex_find_texts(
        "(?i)\\b(delve|delves|delved|delving|tapestry|tapestries|testament|underscore|underscores|underscored|underscoring|pivotal|crucial|intricate|meticulous|vibrant|foster|fosters|fostered|fostering|garner|garners|garnered|garnering|bolster|bolsters|bolstered|bolstering|interplay|robust|enduring|showcase|showcases|showcased|showcasing|leverage|leverages|leveraged|leveraging|seamless)\\b"@,
        false,
        line,
    )
}

/// Style checking reports every rule that a line outside fenced code breaks:
/// for each line that is not a fence and has an even number of fence lines
/// before it, the findings of the whole text include, with that line's number
/// and trimmed text, an `em-dash` finding when em dashes are not repaired and
/// the line holds one, a `banned-word` finding for each banned word found in
/// it, and a `banned-construction` finding for a sentence opening with
/// "Additionally", for "not just X, but Y" and for "it's not X, it's Y".
pub proof fn style_check_reports_every_broken_rule(text: Seq<char>, auto_fix: bool, i: int)
    requires
        0 <= i < split_lines(text).len(),
        !fence_line(split_lines(text)[i]),
        fences_before(split_lines(text), i) % 2 == 0,
    ensures
        (!auto_fix && split_lines(text)[i].contains('\u{2014}')) ==> has_finding(
            text,
            auto_fix,
            i,
            "em-dash"@,
            seq!['\u{2014}'],
        ),
        forall|j: int| 0 <= j < banned_words_in(split_lines(text)[i]).len() ==> has_finding(
            text,
            auto_fix,
            i,
            "banned-word"@,
            #[trigger] banned_words_in(split_lines(text)[i])[j],
        ),
        regex_is_match("(?i)(?:^|[.!?]\\s+)\\badditionally\\b"@, false, split_lines(text)[i]) ==> has_finding(
            text,
            auto_fix,
            i,
            "banned-construction"@,
            "Additionally"@,
        ),
        regex_is_match("(?i)\\bnot\\s+just\\b.+\\bbut\\b"@, false, split_lines(text)[i]) ==> has_finding(
            text,
            auto_fix,
            i,
            "banned-construction"@,
            "not just X, but Y"@,
        ),
        regex_is_match("(?i)\\bit's\\s+not\\b.+\\bit's\\b"@, false, split_lines(text)[i]) ==> has_finding(
            text,
            auto_fix,
            i,
            "banned-construction"@,
            "it's not X, it's Y"@,
        ),
{
    let lines = split_lines(text);
    let line = lines[i];
    let n = lines.len() as int;
    lemma_scan_state(lines, auto_fix, i);
    assert(is_fence(line) == fence_line(line));
    lemma_scan_prefix(lines, auto_fix, i + 1, n);
    let prev = scan_lines(lines, auto_fix, i).0;
    let lf = line_findings(line, i + 1, auto_fix);
    let cur = scan_lines(lines, auto_fix, i + 1).0;
    assert(cur == prev + lf);
    let fs = findings_of(text, auto_fix);
    assert(fs == scan_lines(lines, auto_fix, n).0);
    assert(EM_DASH == '\u{2014}');
    let words = regex_find_texts("(?i)\\b(delve|delves|delved|delving|tapestry|tapestries|testament|underscore|underscores|underscored|underscoring|pivotal|crucial|intricate|meticulous|vibrant|foster|fosters|fostered|fostering|garner|garners|garnered|garnering|bolster|bolsters|bolstered|bolstering|interplay|robust|enduring|showcase|showcases|showcased|showcasing|leverage|leverages|leveraged|leveraging|seamless)\\b"@, false, line);
    assert(banned_words_pattern() == "(?i)\\b(delve|delves|delved|delving|tapestry|tapestries|testament|underscore|underscores|underscored|underscoring|pivotal|crucial|intricate|meticulous|vibrant|foster|fosters|fostered|fostering|garner|garners|garnered|garnering|bolster|bolsters|bolstered|bolstering|interplay|robust|enduring|showcase|showcases|showcased|showcasing|leverage|leverages|leveraged|leveraging|seamless)\\b"@);
    let dash_len: int = if !auto_fix && line.contains(EM_DASH) { 1 } else { 0 };
    let add_len: int = if regex_is_match(additionally_pattern(), false, line) { 1 } else { 0 };
    let nj_len: int = if regex_is_match(not_just_pattern(), false, line) { 1 } else { 0 };
    let base = prev.len() as int;
    // every element of this line's findings appears in the whole list
    assert forall|j: int| 0 <= j < lf.len() implies fs[base + j] == lf[j] by {
        assert(cur[base + j] == lf[j]);
        assert(fs[base + j] == cur[base + j]);
    }
    assert((!auto_fix && line.contains('\u{2014}')) ==> exists|k: int|
        0 <= k < fs.len() && #[trigger] fs[k] == rule_finding(lines, i, "em-dash"@, seq!['\u{2014}'])) by {
        if !auto_fix && line.contains('\u{2014}') {
            assert(lf[0] == finding(i + 1, "em-dash"@, seq![EM_DASH], line));
            assert(fs[base] == rule_finding(lines, i, "em-dash"@, seq!['\u{2014}']));
            assert(0 <= base < fs.len());
        }
    }
    assert(not_just_pattern() == "(?i)\\bnot\\s+just\\b.+\\bbut\\b"@);
    assert(additionally_pattern() == "(?i)(?:^|[.!?]\\s+)\\badditionally\\b"@);
    assert(its_not_pattern() == "(?i)\\bit's\\s+not\\b.+\\bit's\\b"@);
    assert forall|j: int| 0 <= j < words.len() implies exists|k: int|
        0 <= k < fs.len() && #[trigger] fs[k] == rule_finding(lines, i, "banned-word"@, #[trigger] words[j]) by {
        assert(words == regex_find_texts(banned_words_pattern(), false, line));
        assert(lf[dash_len + j] == finding(i + 1, "banned-word"@, words[j], line));
        assert(fs[base + dash_len + j] == lf[dash_len + j]);
        assert(fs[base + dash_len + j] == rule_finding(lines, i, "banned-word"@, words[j]));
        assert(0 <= base + dash_len + j < fs.len());
    }
    assert(regex_is_match(additionally_pattern(), false, line) ==> exists|k: int|
        0 <= k < fs.len() && #[trigger] fs[k] == rule_finding(lines, i, "banned-construction"@, "Additionally"@)) by {
        if regex_is_match(additionally_pattern(), false, line) {
            let k = dash_len + words.len();
            assert(lf[k] == finding(i + 1, "banned-construction"@, "Additionally"@, line));
            assert(fs[base + k] == lf[k]);
            assert(fs[base + k] == rule_finding(lines, i, "banned-construction"@, "Additionally"@));
            assert(0 <= base + k < fs.len());
            assert(exists|k: int| 0 <= k < fs.len() && #[trigger] fs[k] == rule_finding(lines, i, "banned-construction"@, "Additionally"@));
        }
    }
    assert(regex_is_match(not_just_pattern(), false, line) ==> exists|k: int|
        0 <= k < fs.len() && #[trigger] fs[k] == rule_finding(lines, i, "banned-construction"@, "not just X, but Y"@)) by {
        if regex_is_match(not_just_pattern(), false, line) {
            let k = dash_len + words.len() + add_len;
            assert(lf[k] == finding(i + 1, "banned-construction"@, "not just X, but Y"@, line));
            assert(fs[base + k] == lf[k]);
            assert(fs[base + k] == rule_finding(lines, i, "banned-construction"@, "not just X, but Y"@));
            assert(0 <= base + k < fs.len());
            assert(exists|k: int| 0 <= k < fs.len() && #[trigger] fs[k] == rule_finding(lines, i, "banned-construction"@, "not just X, but Y"@));
        }
    }
    assert(regex_is_match(its_not_pattern(), false, line) ==> exists|k: int|
        0 <= k < fs.len() && #[trigger] fs[k] == rule_finding(lines, i, "banned-construction"@, "it's not X, it's Y"@)) by {
        if regex_is_match(its_not_pattern(), false, line) {
            let k = dash_len + words.len() + add_len + nj_len;
            assert(lf[k] == finding(i + 1, "banned-construction"@, "it's not X, it's Y"@, line));
            assert(fs[base + k] == lf[k]);
            assert(fs[base + k] == rule_finding(lines, i, "banned-construction"@, "it's not X, it's Y"@));
            assert(0 <= base + k < fs.len());
            assert(exists|k: int| 0 <= k < fs.len() && #[trigger] fs[k] == rule_finding(lines, i, "banned-construction"@, "it's not X, it's Y"@));
        }
    }
}

// ---------------------------------------------------------------------------
// Replacement, characterised by the first occurrence
// ---------------------------------------------------------------------------

proof fn lemma_occurs_shift(s: Seq<char>, p: Seq<char>, i: int, j: int)
    requires
        0 <= i <= s.len(),
        0 <= j,
    ensures
        occurs_at(s.skip(i), p, j) == occurs_at(s, p, i + j),
{
    if occurs_at(s, p, i + j) {
        assert(s.skip(i).subrange(j, j + p.len()) =~= s.subrange(i + j, i + j + p.len()));
    }
    if occurs_at(s.skip(i), p, j) {
        assert(s.skip(i).subrange(j, j + p.len()) =~= s.subrange(i + j, i + j + p.len()));
    }
}

proof fn lemma_replace_shift(s: Seq<char>, p: Seq<char>, r: Seq<char>, i: int, j: int)
    requires
        p.len() > 0,
        0 <= i <= s.len(),
        0 <= j,
    ensures
        replace_from(s, p, r, i + j) == replace_from(s.skip(i), p, r, j),
        count_from(s, p, i + j) == count_from(s.skip(i), p, j),
    decreases s.len() - (i + j),
{
    let t = s.skip(i);
    if i + j >= s.len() {
    } else if i + j + p.len() > s.len() {
        assert(s.skip(i + j) =~= t.skip(j));
    } else {
        lemma_occurs_shift(s, p, i, j);
        if occurs_at(s, p, i + j) {
            lemma_replace_shift(s, p, r, i, j + p.len());
        } else {
            assert(s[i + j] == t[j]);
            lemma_replace_shift(s, p, r, i, j + 1);
        }
    }
}

proof fn lemma_replace_none_from(s: Seq<char>, p: Seq<char>, r: Seq<char>, i: int)
    requires
        p.len() > 0,
        0 <= i <= s.len(),
        forall|j: int| i <= j ==> !#[trigger] occurs_at(s, p, j),
    ensures
        replace_from(s, p, r, i) == s.skip(i),
        count_from(s, p, i) == 0,
        first_from(s, p, i) is None,
    decreases s.len() - i,
{
    if i < s.len() && i + p.len() <= s.len() {
        assert(!occurs_at(s, p, i));
        lemma_replace_none_from(s, p, r, i + 1);
        assert(s.skip(i) =~= seq![s[i]] + s.skip(i + 1));
    } else if i >= s.len() {
        assert(s.skip(i) =~= Seq::<char>::empty());
    }
}

proof fn lemma_replace_upto_first(s: Seq<char>, p: Seq<char>, r: Seq<char>, i: int, k: int)
    requires
        p.len() > 0,
        0 <= i <= k,
        occurs_at(s, p, k),
        forall|j: int| i <= j < k ==> !#[trigger] occurs_at(s, p, j),
    ensures
        replace_from(s, p, r, i) == s.subrange(i, k) + r + replace_from(s, p, r, k + p.len()),
        count_from(s, p, i) == 1 + count_from(s, p, k + p.len()),
        first_from(s, p, i) == Some(k),
    decreases k - i,
{
    if i == k {
        assert(s.subrange(i, k) =~= Seq::<char>::empty());
    } else {
        assert(!occurs_at(s, p, i));
        lemma_replace_upto_first(s, p, r, i + 1, k);
        assert(s.subrange(i, k) =~= seq![s[i]] + s.subrange(i + 1, k));
    }
}

/// Replacing all occurrences (`str::replace`) of a non-empty target, read from
/// the left: text with no occurrence is returned unchanged; otherwise the text
/// before the first occurrence is kept, the occurrence becomes the
/// replacement, and the rest of the text after it is treated the same way.
/// The number of occurrences counts the same way, and replacing only the first
/// (`replacen(.., 1)`) keeps everything after the first occurrence unchanged.
pub proof fn replacement_works_from_the_first_occurrence(s: Seq<char>, p: Seq<char>, r: Seq<char>, k: int)
    requires
        p.len() > 0,
    ensures
        (forall|j: int| !#[trigger] occurs_at(s, p, j)) ==> replace_all(s, p, r) == s
            && replace_first(s, p, r) == s && count_occurrences(s, p) == 0,
        (occurs_at(s, p, k) && forall|j: int| 0 <= j < k ==> !#[trigger] occurs_at(s, p, j)) ==> {
            &&& replace_all(s, p, r) == s.take(k) + r + replace_all(s.skip(k + p.len()), p, r)
            &&& replace_first(s, p, r) == s.take(k) + r + s.skip(k + p.len())
            &&& count_occurrences(s, p) == 1 + count_occurrences(s.skip(k + p.len()), p)
        },
{
    if forall|j: int| !#[trigger] occurs_at(s, p, j) {
        lemma_replace_none_from(s, p, r, 0);
        assert(s.skip(0) =~= s);
    }
    if occurs_at(s, p, k) && forall|j: int| 0 <= j < k ==> !#[trigger] occurs_at(s, p, j) {
        lemma_replace_upto_first(s, p, r, 0, k);
        lemma_replace_shift(s, p, r, k + p.len(), 0);
        assert(s.subrange(0, k) =~= s.take(k));
    }
}

/// Replacing all occurrences of an empty target puts the replacement before
/// every character and at the end (`"ab".replace("", "-") == "-a-b-"`), and
/// it occurs once more than the text has characters.
pub proof fn replacing_the_empty_target_surrounds_each_character(c: char, t: Seq<char>, r: Seq<char>)
    ensures
        replace_all(Seq::<char>::empty(), Seq::<char>::empty(), r) == r,
        replace_all(seq![c] + t, Seq::<char>::empty(), r) == r + seq![c] + replace_all(t, Seq::<char>::empty(), r),
        count_occurrences(t, Seq::<char>::empty()) == t.len() + 1,
{
    assert(replace_all(Seq::<char>::empty(), Seq::<char>::empty(), r) =~= r);
    let s = seq![c] + t;
    lemma_interleave_shift(s, r, 1, 0);
    assert(s.skip(1) =~= t);
    assert(replace_all(s, Seq::<char>::empty(), r) =~= r + seq![c] + (r + interleave_from(t, r, 0)));
}

proof fn lemma_interleave_shift(s: Seq<char>, r: Seq<char>, i: int, j: int)
    requires
        0 <= i <= s.len(),
        0 <= j,
    ensures
        interleave_from(s, r, i + j) == interleave_from(s.skip(i), r, j),
    decreases s.len() - (i + j),
{
    if i + j < s.len() {
        lemma_interleave_shift(s, r, i, j + 1);
    }
}

/// Replacing every occurrence of a non-empty target changes the length by the
/// length difference once per occurrence: nothing outside the occurrences is
/// lost or added.
pub proof fn replacement_keeps_everything_else(s: Seq<char>, p: Seq<char>, r: Seq<char>)
    requires
        p.len() > 0,
    ensures
        replace_all(s, p, r).len() == s.len() + count_occurrences(s, p) * (r.len() - p.len()),
    decreases s.len(),
{
    if exists|k: int| #[trigger] occurs_at(s, p, k) {
        let k0 = choose|k: int| #[trigger] occurs_at(s, p, k);
        let k = lemma_first_occurrence(s, p, k0);
        replacement_works_from_the_first_occurrence(s, p, r, k);
        replacement_keeps_everything_else(s.skip(k + p.len()), p, r);
        let n = count_occurrences(s.skip(k + p.len()), p);
        assert((1 + n) * (r.len() - p.len()) == r.len() - p.len() + n * (r.len() - p.len())) by (nonlinear_arith);
    } else {
        replacement_works_from_the_first_occurrence(s, p, r, 0);
    }
}

proof fn lemma_first_occurrence(s: Seq<char>, p: Seq<char>, k0: int) -> (k: int)
    requires
        occurs_at(s, p, k0),
    ensures
        occurs_at(s, p, k),
        0 <= k <= k0,
        forall|j: int| 0 <= j < k ==> !#[trigger] occurs_at(s, p, j),
    decreases k0,
{
    if exists|j: int| 0 <= j < k0 && #[trigger] occurs_at(s, p, j) {
        let j = choose|j: int| 0 <= j < k0 && #[trigger] occurs_at(s, p, j);
        lemma_first_occurrence(s, p, j)
    } else {
        k0
    }
}

// ---------------------------------------------------------------------------
// Command rewriting, rule by rule
// ---------------------------------------------------------------------------

proof fn lemma_between_prefix(c: Seq<char>, pre: Seq<char>, mid: Seq<char>)
    requires
        c == pre + mid,
    ensures
        crate::hooks::between(c, pre, seq![]) == Some(mid),
{
    assert(c.take(pre.len() as int) =~= pre);
    assert(c.skip(c.len() as int) =~= Seq::<char>::empty());
    assert(c.subrange(pre.len() as int, c.len() as int) =~= mid);
}

proof fn lemma_first_char(a: Seq<char>, b: Seq<char>, c: Seq<char>)
    requires
        a.len() > 0,
        b.len() > 0,
        a[0] != b[0],
        c.len() > 0,
        c[0] == a[0],
    ensures
        c != b,
        !starts_with(c, b),
{
    if starts_with(c, b) {
        assert(c[0] == c.take(b.len() as int)[0]);
    }
}

/// The pre-tool hook rewrites exactly the forms it knows: a (trimmed) `git status`,
/// `git status -s` or `git status --short` becomes `fast-tools git-snapshot`;
/// `cat PATH` with a single plain path becomes `fast-tools view PATH`; and a
/// liveness check of a pid, `lsof -p PID` or `python3 -c "import os; os.kill(PID, 0)"`,
/// becomes `fast-tools poll --pid PID --state alive --timeout 5000`.
pub proof fn pre_tool_rewrites_each_known_form(cmd: Seq<char>, arg: Seq<char>)
    ensures
        (trim(cmd) == "git status"@ || trim(cmd) == "git status -s"@ || trim(cmd) == "git status --short"@)
            ==> rewrite_spec(cmd) is Some && rewrite_spec(cmd)->Some_0.0 == "fast-tools git-snapshot"@,
        (trim(cmd) == "cat "@ + arg && is_plain_path(arg)) ==> rewrite_spec(cmd) is Some && rewrite_spec(
            cmd,
        )->Some_0.0 == "fast-tools view "@ + arg,
        (trim(cmd) == "lsof -p "@ + arg && crate::hooks::all_digits(arg)) ==> rewrite_spec(cmd) is Some
            && rewrite_spec(cmd)->Some_0.0 == "fast-tools poll --pid "@ + arg
            + " --state alive --timeout 5000"@,
        (trim(cmd) == "python3 -c \"import os; os.kill("@ + arg + ", 0)\""@ && crate::hooks::all_digits(arg))
            ==> rewrite_spec(cmd) is Some && rewrite_spec(cmd)->Some_0.0 == "fast-tools poll --pid "@ + arg
            + " --state alive --timeout 5000"@,
{
    let c = trim(cmd);
    reveal_strlit("git status");
    reveal_strlit("git status -s");
    reveal_strlit("git status --short");
    reveal_strlit("cat ");
    reveal_strlit("lsof -p ");
    reveal_strlit("python3 -c \"import os; os.kill(");
    reveal_strlit(", 0)\"");
    reveal_strlit("import os; os.kill(");
    reveal_strlit(", 0)");
    reveal_strlit("python3 -c \"");
    reveal_strlit("\"");
    if c == "cat "@ + arg && is_plain_path(arg) {
        lemma_first_char("cat "@, "git status"@, c);
        lemma_first_char("cat "@, "git status -s"@, c);
        lemma_first_char("cat "@, "git status --short"@, c);
        lemma_between_prefix(c, "cat "@, arg);
    }
    if c == "lsof -p "@ + arg && crate::hooks::all_digits(arg) {
        lemma_first_char("lsof -p "@, "git status"@, c);
        lemma_first_char("lsof -p "@, "git status -s"@, c);
        lemma_first_char("lsof -p "@, "git status --short"@, c);
        lemma_first_char("lsof -p "@, "cat "@, c);
        assert(cat_path(c) is None);
        lemma_between_prefix(c, "lsof -p "@, arg);
    }
    if c == "python3 -c \"import os; os.kill("@ + arg + ", 0)\""@ && crate::hooks::all_digits(arg) {
        let pre = "python3 -c \"import os; os.kill("@;
        let post = ", 0)\""@;
        assert(c[0] == 'p');
        lemma_first_char("python3 -c \"import os; os.kill("@, "git status"@, c);
        lemma_first_char("python3 -c \"import os; os.kill("@, "git status -s"@, c);
        lemma_first_char("python3 -c \"import os; os.kill("@, "git status --short"@, c);
        lemma_first_char("python3 -c \"import os; os.kill("@, "cat "@, c);
        lemma_first_char("python3 -c \"import os; os.kill("@, "lsof -p "@, c);
        assert(cat_path(c) is None);
        assert(crate::hooks::between(c, "lsof -p "@, seq![]) is None);
        let f = python_forms()[0];
        assert(f.0 =~= pre);
        assert(f.1 =~= post);
        assert(c.take(pre.len() as int) =~= pre);
        assert(c.skip(c.len() - post.len()) =~= post);
        assert(c.subrange(pre.len() as int, c.len() - post.len()) =~= arg);
        assert(crate::hooks::between(c, f.0, f.1) == Some(arg));
        assert(python_kill_from(c, 0) == Some(arg));
    }
}

// ---------------------------------------------------------------------------
// Context windows, characterised
// ---------------------------------------------------------------------------

/// A match on line `m` of a `t`-line file with `c` lines of context gets the
/// widest window that stays within `c` lines of the match and inside the file:
/// it starts at line 1 or `c` lines before the match, whichever is later, and
/// ends at the last line or `c` lines after the match, whichever is earlier.
pub proof fn context_window_is_the_widest_within_reach(m: int, c: int, t: int)
    requires
        1 <= m <= t,
        0 <= c,
    ensures
        ({
            let (start, end) = clamp_spec(m, c, t);
            &&& 1 <= start && m - c <= start
            &&& (start == 1 || start == m - c)
            &&& end <= t && end <= m + c
            &&& (end == t || end == m + c)
        }),
{
}

// ---------------------------------------------------------------------------
// Tool arguments of the other tools
// ---------------------------------------------------------------------------

/// A `grep_context` call searches the given paths for the given pattern with
/// the given options, defaulting to 10 lines of context, at most 5 matches, a
/// literal pattern and case-insensitive matching.
pub proof fn grep_call_maps_its_arguments(args: Option<JsonValue>, act: McpAction)
    requires
        tool_call_ok("grep_context"@, args, act),
    ensures
        act matches McpAction::Call(ToolInvocation::Grep { .. }),
        ({
            let inv = act->Call_0;
            &&& inv->Grep_pattern@ == (match json_str(arg_member(args, "pattern"@)) {
                Some(p) => p,
                None => Seq::<char>::empty(),
            })
            &&& inv->Grep_context_lines == (match crate::mcp::json_usize(arg_member(args, "context_lines"@)) {
                Some(n) => n,
                None => 10,
            })
            &&& inv->Grep_max_matches == (match crate::mcp::json_usize(arg_member(args, "max_matches"@)) {
                Some(n) => n,
                None => 5,
            })
            &&& inv->Grep_is_regex == (match crate::mcp::json_bool(arg_member(args, "is_regex"@)) {
                Some(b) => b,
                None => false,
            })
            &&& inv->Grep_case_sensitive == (match crate::mcp::json_bool(arg_member(args, "case_sensitive"@)) {
                Some(b) => b,
                None => false,
            })
        }),
{
    crate::mcp::lemma_tool_names_distinct();
}

/// An `edit_and_verify` call edits the given file, replacing the given target
/// with the given replacement, once unless `allow_multiple` is set, and rolls
/// back on failure unless `rollback_on_failure` is false.
pub proof fn edit_call_maps_its_arguments(args: Option<JsonValue>, act: McpAction)
    requires
        tool_call_ok("edit_and_verify"@, args, act),
    ensures
        act matches McpAction::Call(ToolInvocation::Edit(_)),
        ({
            let p = act->Call_0->Edit_0;
            &&& json_str(arg_member(args, "target_file"@)) matches Some(f) ==> p.target_file@ == f
            &&& json_str(arg_member(args, "target_content"@)) matches Some(f) ==> p.target_content@ == f
            &&& json_str(arg_member(args, "replacement_content"@)) matches Some(f) ==> p.replacement_content@ == f
            &&& p.allow_multiple == (match crate::mcp::json_bool(arg_member(args, "allow_multiple"@)) {
                Some(b) => b,
                None => false,
            })
            &&& p.rollback_on_failure == (match crate::mcp::json_bool(arg_member(args, "rollback_on_failure"@)) {
                Some(b) => b,
                None => true,
            })
            &&& json_str(arg_member(args, "verify_command"@)) is None ==> p.verify_command is None
        }),
{
    crate::mcp::lemma_tool_names_distinct();
}

// ---------------------------------------------------------------------------
// The minified guard, characterised
// ---------------------------------------------------------------------------

/// The UTF-8 bytes of the first `n` lines.
pub open spec fn bytes_of_lines(lines: Seq<Seq<char>>, n: int) -> int
    decreases n,
{
    if n <= 0 {
        0
    } else {
        bytes_of_lines(lines, n - 1) + utf8_len(lines[n - 1])
    }
}

proof fn lemma_total_bytes(lines: Seq<Seq<char>>, n: int)
    requires
        0 <= n <= lines.len(),
        bytes_of_lines(lines, n) <= usize::MAX,
    ensures
        total_len(lines, n) == bytes_of_lines(lines, n),
        bytes_of_lines(lines, n) >= 0,
    decreases n,
{
    if n > 0 {
        assert(bytes_of_lines(lines, n - 1) >= 0) by {
            lemma_bytes_nonneg(lines, n - 1);
        }
        lemma_total_bytes(lines, n - 1);
    }
}

proof fn lemma_bytes_nonneg(lines: Seq<Seq<char>>, n: int)
    ensures
        bytes_of_lines(lines, n) >= 0,
    decreases n,
{
    if n > 0 {
        lemma_bytes_nonneg(lines, n - 1);
    }
}

proof fn lemma_longest_line(lines: Seq<Seq<char>>, n: int)
    requires
        0 <= n <= lines.len(),
    ensures
        max_len(lines, n) > 2000 <==> exists|i: int| 0 <= i < n && (#[trigger] lines[i]).len() > 2000,
    decreases n,
{
    if n > 0 {
        lemma_longest_line(lines, n - 1);
        if lines[n - 1].len() > 2000 {
            assert(sat(lines[n - 1].len() as int) > 2000);
        }
        if exists|i: int| 0 <= i < n && (#[trigger] lines[i]).len() > 2000 {
            let i = choose|i: int| 0 <= i < n && (#[trigger] lines[i]).len() > 2000;
            if i < n - 1 {
            } else {
                assert(sat(lines[n - 1].len() as int) > 2000);
            }
        }
    }
}

/// The minified guard stops a file exactly when one of its lines is longer
/// than 2000 characters or its lines average more than 400 bytes (the byte
/// total reaches 401 per line); outside outline mode and without `force_all`
/// such a file is shown as the guard's notice, and `force_all` bypasses it.
pub proof fn minified_guard_is_the_documented_thresholds(path: Seq<char>, text: Seq<char>, opts: ViewOptions)
    requires
        split_lines(text).len() > 0,
        bytes_of_lines(split_lines(text), split_lines(text).len() as int) <= usize::MAX,
    ensures
        ({
            let lines = split_lines(text);
            let n = lines.len() as int;
            let caught = (exists|i: int| 0 <= i < n && (#[trigger] lines[i]).len() > 2000) || bytes_of_lines(
                lines,
                n,
            ) >= 401 * n;
            &&& minified_verdict(lines) is Some <==> caught
            &&& (caught && !opts.outline && !opts.force_all) ==> text_view(path, text, opts) is Ok
                && starts_with(text_view(path, text, opts)->Ok_0, "[Minified Line Guard: "@)
            &&& (opts.force_all && !opts.outline) ==> text_view(path, text, opts) == crate::view::range_text(
                lines,
                opts,
            )
        }),
{
    let lines = split_lines(text);
    let n = lines.len() as int;
    lemma_total_bytes(lines, n);
    lemma_longest_line(lines, n);
    let total = bytes_of_lines(lines, n);
    assert(sat(total) == total);
    assert(total / n > 400 <==> total >= 401 * n) by (nonlinear_arith)
        requires
            n > 0,
            total >= 0,
    {
        if total >= 401 * n {
            assert(total / n >= 401 * n / n);
        }
    }
    if minified_verdict(lines) is Some {
        let v = minified_verdict(lines)->Some_0;
        assert(v.take(("[Minified Line Guard: "@).len() as int) =~= "[Minified Line Guard: "@);
    }
}

// ---------------------------------------------------------------------------
// Branch names
// ---------------------------------------------------------------------------

proof fn lemma_find_first(s: Seq<char>, p: Seq<char>, i: int, k: Option<int>)
    requires
        p.len() > 0,
        0 <= i,
        match k {
            Some(k) => i <= k && occurs_at(s, p, k) && forall|j: int| i <= j < k ==> !#[trigger] occurs_at(s, p, j),
            None => forall|j: int| i <= j ==> !#[trigger] occurs_at(s, p, j),
        },
    ensures
        find_from(s, p, i) == k,
    decreases s.len() - i,
{
    if i + p.len() <= s.len() {
        if !occurs_at(s, p, i) {
            lemma_find_first(s, p, i + 1, k);
        }
    } else {
        if k is Some {
            assert(!occurs_at(s, p, k->Some_0));
        }
    }
}

proof fn lemma_strip_header(b: Seq<char>)
    requires
        !starts_with(b, "## "@),
    ensures
        strip_all_prefixes("## "@ + b, "## "@) == b,
{
    reveal_strlit("## ");
    let c = "## "@ + b;
    assert(c.take(3) =~= "## "@);
    assert(c.skip(3) =~= b);
    assert(strip_all_prefixes(b, "## "@) == b);
    assert(strip_all_prefixes(c, "## "@) == strip_all_prefixes(c.skip(3), "## "@));
}

/// The branch of a porcelain status header `## BRANCH`: a plain branch name is
/// taken whole; the part before the first `...` when an upstream follows
/// (`## main...origin/main [ahead 1]` names `main`); and the name after
/// `No commits yet on ` for a branch without commits.
pub proof fn status_header_names_the_branch(b: Seq<char>, k: int, x: Seq<char>)
    requires
        b.len() > 0,
        !crate::text::is_ws(b[0]),
        !crate::text::is_ws(b.last()),
        !starts_with(b, "## "@),
    ensures
        (!starts_with(b, "No commits yet on "@) && forall|j: int| !#[trigger] occurs_at(b, "..."@, j))
            ==> branch_of("## "@ + b) == b,
        (!starts_with(b, "No commits yet on "@) && occurs_at(b, "..."@, k) && forall|j: int|
            0 <= j < k ==> !#[trigger] occurs_at(b, "..."@, j)) ==> branch_of("## "@ + b) == b.take(k),
        b == "No commits yet on "@ + x ==> branch_of("## "@ + b) == x,
{
    reveal_strlit("...");
    reveal_strlit("No commits yet on ");
    lemma_strip_header(b);
    lemma_trim_identity(b);
    if !starts_with(b, "No commits yet on "@) && forall|j: int| !#[trigger] occurs_at(b, "..."@, j) {
        lemma_find_first(b, "..."@, 0, None);
    }
    if !starts_with(b, "No commits yet on "@) && occurs_at(b, "..."@, k) && forall|j: int|
        0 <= j < k ==> !#[trigger] occurs_at(b, "..."@, j) {
        lemma_find_first(b, "..."@, 0, Some(k));
    }
    if b == "No commits yet on "@ + x {
        assert(b.take(("No commits yet on "@).len() as int) =~= "No commits yet on "@);
        assert(b.skip(("No commits yet on "@).len() as int) =~= x);
    }
}

// ---------------------------------------------------------------------------
// Line listings
// ---------------------------------------------------------------------------

/// Lines `s..=e` listed from the first: each line's text followed by a line
/// break, preceded, when numbered, by its number right-aligned to `w` columns
/// and `": "`.
pub open spec fn listing(lines: Seq<Seq<char>>, s: int, e: int, numbered: bool, w: nat) -> Seq<char>
    decreases e - s + 1,
{
    if s > e {
        seq![]
    } else {
        (if numbered {
            pad_left(dec(s as nat), w) + ": "@ + lines[s - 1] + "\n"@
        } else {
            lines[s - 1] + "\n"@
        }) + listing(lines, s + 1, e, numbered, w)
    }
}

proof fn lemma_listing_last(lines: Seq<Seq<char>>, s: int, e: int, numbered: bool, w: nat)
    requires
        s <= e,
    ensures
        listing(lines, s, e, numbered, w) == listing(lines, s, e - 1, numbered, w) + (if numbered {
            pad_left(dec(e as nat), w) + ": "@ + lines[e - 1] + "\n"@
        } else {
            lines[e - 1] + "\n"@
        }),
    decreases e - s,
{
    if s < e {
        lemma_listing_last(lines, s + 1, e, numbered, w);
        let head = if numbered {
            pad_left(dec(s as nat), w) + ": "@ + lines[s - 1] + "\n"@
        } else {
            lines[s - 1] + "\n"@
        };
        let last = if numbered {
            pad_left(dec(e as nat), w) + ": "@ + lines[e - 1] + "\n"@
        } else {
            lines[e - 1] + "\n"@
        };
        assert(head + (listing(lines, s + 1, e - 1, numbered, w) + last) =~= (head + listing(
            lines,
            s + 1,
            e - 1,
            numbered,
            w,
        )) + last);
    } else {
        assert(listing(lines, s, e - 1, numbered, w) == Seq::<char>::empty());
        assert(listing(lines, s + 1, e, numbered, w) == Seq::<char>::empty());
    }
}

/// A view of lines `s..=e` lists exactly those lines, in order, each once:
/// the text of each followed by a line break, numbered when asked.
pub proof fn view_lists_exactly_the_requested_lines(lines: Seq<Seq<char>>, s: int, e: int, numbered: bool, w: nat)
    requires
        1 <= s,
        s <= e + 1,
    ensures
        view_body(lines, s, e - s + 1, numbered, w) == listing(lines, s, e, numbered, w),
    decreases e - s + 1,
{
    if s <= e {
        view_lists_exactly_the_requested_lines(lines, s, e - 1, numbered, w);
        lemma_listing_last(lines, s, e, numbered, w);
    }
}

// ---------------------------------------------------------------------------
// Edit outcomes
// ---------------------------------------------------------------------------

/// An edit succeeds exactly when its verification command ran and exited
/// successfully; then it is verified, nothing is rolled back and every
/// replacement counts. Otherwise it reports no replacement and is rolled back
/// exactly when `rollback_on_failure` is set. After the write: a failed write
/// is a failure with no replacement, no command means an unverified success
/// with every replacement, and a command is run as given.
pub proof fn edit_succeeds_iff_verification_passes(
    params: EditParams,
    n: int,
    outcome: VerifyOutcome,
    write_error: Option<Seq<char>>,
)
    ensures
        ({
            let r = after_verify_spec(params, n, outcome);
            &&& r.success == (outcome matches VerifyOutcome::Exited { success, .. } && success)
            &&& r.success ==> r.verified && !r.rolled_back && r.replacements_made == n
            &&& !r.success ==> !r.verified && r.replacements_made == 0 && r.rolled_back
                == params.rollback_on_failure
        }),
        ({
            let w = after_write_spec(params, n, write_error);
            &&& write_error is Some ==> w is Err && !w->Err_0.success && w->Err_0.replacements_made == 0
                && !w->Err_0.rolled_back
            &&& (write_error is None && params.verify_command is None) ==> w is Err && w->Err_0.success
                && !w->Err_0.verified && w->Err_0.replacements_made == n
            &&& (write_error is None && params.verify_command is Some) ==> w == Ok::<Seq<char>, crate::edit::EditReportView>(
                params.verify_command->Some_0@,
            )
        }),
{
}

// ---------------------------------------------------------------------------
// Match snippets
// ---------------------------------------------------------------------------

/// One line of a snippet: `>` on the matching line and a space elsewhere, the
/// line number right-aligned to `w` columns, `": "` and the line's text.
pub open spec fn snippet_row(lines: Seq<Seq<char>>, k: int, m: int, w: nat) -> Seq<char> {
    (if k == m {
        seq!['>']
    } else {
        seq![' ']
    }) + pad_left(dec(k as nat), w) + ": "@ + lines[k - 1]
}

/// Rows `s..=e` from the first, separated by line breaks.
pub open spec fn snippet_rows(lines: Seq<Seq<char>>, s: int, e: int, m: int, w: nat) -> Seq<char>
    decreases e - s,
{
    if s >= e {
        snippet_row(lines, s, m, w)
    } else {
        snippet_row(lines, s, m, w) + "\n"@ + snippet_rows(lines, s + 1, e, m, w)
    }
}

proof fn lemma_rows_last(lines: Seq<Seq<char>>, s: int, e: int, m: int, w: nat)
    requires
        s < e,
    ensures
        snippet_rows(lines, s, e, m, w) == snippet_rows(lines, s, e - 1, m, w) + "\n"@ + snippet_row(lines, e, m, w),
    decreases e - s,
{
    if s + 1 < e {
        lemma_rows_last(lines, s + 1, e, m, w);
        let h = snippet_row(lines, s, m, w) + "\n"@;
        assert(h + (snippet_rows(lines, s + 1, e - 1, m, w) + "\n"@ + snippet_row(lines, e, m, w)) =~= (h
            + snippet_rows(lines, s + 1, e - 1, m, w)) + "\n"@ + snippet_row(lines, e, m, w));
    } else {
        assert(snippet_rows(lines, s + 1, e, m, w) == snippet_row(lines, e, m, w));
        assert(snippet_rows(lines, s, e - 1, m, w) == snippet_row(lines, s, m, w));
    }
}

/// A match snippet shows lines `s..=e` in order, one row each, separated by
/// line breaks (none after the last): the matching line is marked `>`, every
/// other line a space, and each row carries its line number and text.
pub proof fn snippet_shows_each_window_line_once(lines: Seq<Seq<char>>, s: int, e: int, m: int, w: nat)
    requires
        1 <= s <= e,
    ensures
        snippet_from(lines, s, e - s + 1, m, w) == snippet_rows(lines, s, e, m, w),
    decreases e - s,
{
    if s < e {
        snippet_shows_each_window_line_once(lines, s, e - 1, m, w);
        lemma_rows_last(lines, s, e, m, w);
        assert(snippet_from(lines, s, e - s + 1, m, w) == snippet_from(lines, s, e - s, m, w) + seq!['\n']
            + crate::grep::snippet_line(e, m, lines[e - 1], w));
        assert(crate::grep::snippet_line(e, m, lines[e - 1], w) == snippet_row(lines, e, m, w));
        assert(seq!['\n'] =~= "\n"@) by {
            reveal_strlit("\n");
        }
    } else {
        assert(snippet_from(lines, s, 1, m, w) == crate::grep::snippet_line(s, m, lines[s - 1], w));
    }
}

// ---------------------------------------------------------------------------
// The stop hook
// ---------------------------------------------------------------------------

/// The stop hook counts every finding of every artifact (checked without
/// em-dash repair, so em dashes count): the count is the sum over the artifacts,
/// and it is positive, refusing the stop, exactly when some artifact has a
/// finding.
pub proof fn stop_hook_counts_every_artifact_finding(files: Seq<Artifact>, n: int)
    requires
        0 <= n <= files.len(),
    ensures
        stop_report(files, n).1 >= 0,
        stop_report(files, n).1 > 0 <==> exists|i: int| 0 <= i < n && findings_of((#[trigger] files[i]).text@, false).len() > 0,
        n > 0 ==> stop_report(files, n).1 == stop_report(files, n - 1).1 + findings_of(files[n - 1].text@, false).len(),
    decreases n,
{
    if n > 0 {
        stop_hook_counts_every_artifact_finding(files, n - 1);
        if exists|i: int| 0 <= i < n && findings_of((#[trigger] files[i]).text@, false).len() > 0 {
            let i = choose|i: int| 0 <= i < n && findings_of((#[trigger] files[i]).text@, false).len() > 0;
            if i < n - 1 {
                assert(stop_report(files, n - 1).1 > 0);
            }
        }
        if stop_report(files, n).1 > 0 {
            if stop_report(files, n - 1).1 > 0 {
            } else {
                assert(findings_of(files[n - 1].text@, false).len() > 0);
            }
        }
    }
}

} // verus!
