//! Prose style checks: em-dash repair, banned words and banned constructions,
//! with fenced code blocks left alone.

use vstd::prelude::*;
use crate::text::{
    chars_of, has_char, has_prefix_str, lines_of, seqs_of, split_lines,
    starts_with, string_of, trim, trim_chars, trim_start, trim_start_chars,
};
use crate::matcher::{Matcher, compile_matcher, regex_build_error, regex_find_texts, regex_is_match};

verus! {

/// The em dash, U+2014.
pub const EM_DASH: char = '\u{2014}';

/// One style finding.
#[derive(Debug, Clone, PartialEq, Eq)]
pub struct StyleViolation {
    pub line_number: usize,
    pub rule: String,
    pub term: String,
    pub snippet: String,
}

/// A finding as the contracts see it.
pub struct StyleViolationView {
    pub line_number: int,
    pub rule: Seq<char>,
    pub term: Seq<char>,
    pub snippet: Seq<char>,
}

impl View for StyleViolation {
    type V = StyleViolationView;

    open spec fn view(&self) -> StyleViolationView {
        StyleViolationView {
            line_number: self.line_number as int,
            rule: self.rule@,
            term: self.term@,
            snippet: self.snippet@,
        }
    }
}

/// The result of checking one file.
#[derive(Debug, Clone, Default)]
pub struct StyleReport {
    pub file_path: String,
    pub em_dashes_fixed: usize,
    pub violations: Vec<StyleViolation>,
}

impl StyleReport {
    /// A report is clean when it holds no violation.
    pub fn is_clean(&self) -> (res: bool)
        ensures
            res == (self.violations@.len() == 0),
    {
        self.violations.len() == 0
    }
}

/// The views of a list of findings.
pub open spec fn violations_view(v: Seq<StyleViolation>) -> Seq<StyleViolationView> {
    v.map_values(|x: StyleViolation| x@)
}

// ---------------------------------------------------------------------------
// The rules
// ---------------------------------------------------------------------------

/// Words that read as filler.
pub open spec fn banned_words_pattern() -> Seq<char> {
    "(?i)\\b(delve|delves|delved|delving|tapestry|tapestries|testament|underscore|underscores|underscored|underscoring|pivotal|crucial|intricate|meticulous|vibrant|foster|fosters|fostered|fostering|garner|garners|garnered|garnering|bolster|bolsters|bolstered|bolstering|interplay|robust|enduring|showcase|showcases|showcased|showcasing|leverage|leverages|leveraged|leveraging|seamless)\\b"@
}

/// A sentence that opens with "Additionally".
pub open spec fn additionally_pattern() -> Seq<char> {
    "(?i)(?:^|[.!?]\\s+)\\badditionally\\b"@
}

/// "not just X, but Y".
pub open spec fn not_just_pattern() -> Seq<char> {
    "(?i)\\bnot\\s+just\\b.+\\bbut\\b"@
}

/// "it's not X, it's Y".
pub open spec fn its_not_pattern() -> Seq<char> {
    "(?i)\\bit's\\s+not\\b.+\\bit's\\b"@
}

/// Compiles the banned-words rule.
pub fn get_banned_words_regex() -> (res: Result<Matcher, String>)
    ensures
        match res {
            Ok(m) => m.pattern() == banned_words_pattern() && !m.folds_case() && regex_build_error(
                banned_words_pattern(),
                false,
            ) is None,
            Err(e) => regex_build_error(banned_words_pattern(), false) == Some(e@),
        },
{
    compile_matcher(
        "(?i)\\b(delve|delves|delved|delving|tapestry|tapestries|testament|underscore|underscores|underscored|underscoring|pivotal|crucial|intricate|meticulous|vibrant|foster|fosters|fostered|fostering|garner|garners|garnered|garnering|bolster|bolsters|bolstered|bolstering|interplay|robust|enduring|showcase|showcases|showcased|showcasing|leverage|leverages|leveraged|leveraging|seamless)\\b",
        false,
    )
}

/// Compiles the "Additionally" rule.
pub fn get_additionally_regex() -> (res: Result<Matcher, String>)
    ensures
        match res {
            Ok(m) => m.pattern() == additionally_pattern() && !m.folds_case() && regex_build_error(
                additionally_pattern(),
                false,
            ) is None,
            Err(e) => regex_build_error(additionally_pattern(), false) == Some(e@),
        },
{
    compile_matcher("(?i)(?:^|[.!?]\\s+)\\badditionally\\b", false)
}

/// Compiles the "not just X, but Y" rule.
pub fn get_not_just_regex() -> (res: Result<Matcher, String>)
    ensures
        match res {
            Ok(m) => m.pattern() == not_just_pattern() && !m.folds_case() && regex_build_error(
                not_just_pattern(),
                false,
            ) is None,
            Err(e) => regex_build_error(not_just_pattern(), false) == Some(e@),
        },
{
    compile_matcher("(?i)\\bnot\\s+just\\b.+\\bbut\\b", false)
}

/// Compiles the "it's not X, it's Y" rule.
pub fn get_its_not_regex() -> (res: Result<Matcher, String>)
    ensures
        match res {
            Ok(m) => m.pattern() == its_not_pattern() && !m.folds_case() && regex_build_error(
                its_not_pattern(),
                false,
            ) is None,
            Err(e) => regex_build_error(its_not_pattern(), false) == Some(e@),
        },
{
    compile_matcher("(?i)\\bit's\\s+not\\b.+\\bit's\\b", false)
}

/// The four compiled rules.
pub struct StyleRules {
    banned: Matcher,
    additionally: Matcher,
    not_just: Matcher,
    its_not: Matcher,
}

impl StyleRules {
    /// Each rule was compiled from its pattern, without case folding by the builder.
    pub closed spec fn wf(&self) -> bool {
        &&& self.banned.pattern() == banned_words_pattern() && !self.banned.folds_case()
        &&& self.additionally.pattern() == additionally_pattern() && !self.additionally.folds_case()
        &&& self.not_just.pattern() == not_just_pattern() && !self.not_just.folds_case()
        &&& self.its_not.pattern() == its_not_pattern() && !self.its_not.folds_case()
    }
}

/// The error of the first rule that fails to compile, if any.
pub open spec fn rules_error() -> Option<Seq<char>> {
    if regex_build_error(banned_words_pattern(), false) is Some {
        regex_build_error(banned_words_pattern(), false)
    } else if regex_build_error(additionally_pattern(), false) is Some {
        regex_build_error(additionally_pattern(), false)
    } else if regex_build_error(not_just_pattern(), false) is Some {
        regex_build_error(not_just_pattern(), false)
    } else {
        regex_build_error(its_not_pattern(), false)
    }
}

/// Compiles the four rules.
pub fn load_style_rules() -> (res: Result<StyleRules, String>)
    ensures
        match rules_error() {
            Some(e) => res matches Err(r) && r@ == e,
            None => res matches Ok(r) && r.wf(),
        },
{
    let banned = match get_banned_words_regex() {
        Ok(m) => m,
        Err(e) => return Err(e),
    };
    let additionally = match get_additionally_regex() {
        Ok(m) => m,
        Err(e) => return Err(e),
    };
    let not_just = match get_not_just_regex() {
        Ok(m) => m,
        Err(e) => return Err(e),
    };
    let its_not = match get_its_not_regex() {
        Ok(m) => m,
        Err(e) => return Err(e),
    };
    Ok(StyleRules { banned, additionally, not_just, its_not })
}

// ---------------------------------------------------------------------------
// Em dashes
// ---------------------------------------------------------------------------

/// How many times `c` occurs in `s`.
pub open spec fn count_char(s: Seq<char>, c: char) -> nat
    decreases s.len(),
{
    if s.len() == 0 {
        0
    } else {
        count_char(s.drop_last(), c) + if s.last() == c {
            1nat
        } else {
            0nat
        }
    }
}

/// `s` with every em dash replaced by `'-'` (what replacing `" — "` by `" - "`
/// and then `'—'` by `"-"` amounts to).
pub open spec fn dashes_replaced(s: Seq<char>) -> Seq<char> {
    s.map_values(|c: char| if c == EM_DASH {
        '-'
    } else {
        c
    })
}

/// The repaired text and the number of em dashes repaired.
pub open spec fn dash_fix(s: Seq<char>, auto_fix: bool) -> (Seq<char>, nat) {
    if auto_fix && s.contains(EM_DASH) {
        (dashes_replaced(s), count_char(s, EM_DASH))
    } else {
        (s, 0)
    }
}

fn fix_dashes(s: &[char]) -> (res: (Vec<char>, usize))
    ensures
        res.0@ == dashes_replaced(s@),
        res.1 as nat == count_char(s@, EM_DASH),
{
    let mut out: Vec<char> = Vec::new();
    let mut n: usize = 0;
    let mut i: usize = 0;
    while i < s.len()
        invariant
            i <= s@.len(),
            out@ == dashes_replaced(s@.take(i as int)),
            n as nat == count_char(s@.take(i as int), EM_DASH),
            n <= i,
        decreases s@.len() - i,
    {
        proof {
            assert(s@.take(i + 1).drop_last() == s@.take(i as int));
        }
        if s[i] == EM_DASH {
            out.push('-');
            n = n + 1;
        } else {
            out.push(s[i]);
        }
        i = i + 1;
        assert(out@ =~= dashes_replaced(s@.take(i as int)));
    }
    assert(s@.take(s@.len() as int) == s@);
    (out, n)
}

// ---------------------------------------------------------------------------
// Line scanning
// ---------------------------------------------------------------------------

/// A line that opens or closes a fenced code block.
pub open spec fn is_fence(line: Seq<char>) -> bool {
    starts_with(trim_start(line), "```"@) || starts_with(trim_start(line), "~~~"@)
}

/// A finding built from its parts.
pub open spec fn finding(n: int, rule: Seq<char>, term: Seq<char>, line: Seq<char>) -> StyleViolationView {
    StyleViolationView { line_number: n, rule: rule, term: term, snippet: trim(line) }
}

/// The findings on line number `n` outside code blocks, in rule order.
pub open spec fn line_findings(line: Seq<char>, n: int, auto_fix: bool) -> Seq<StyleViolationView> {
    let dash = if !auto_fix && line.contains(EM_DASH) {
        seq![finding(n, "em-dash"@, seq![EM_DASH], line)]
    } else {
        seq![]
    };
    let words = regex_find_texts(banned_words_pattern(), false, line).map_values(
        |t: Seq<char>| finding(n, "banned-word"@, t, line),
    );
    let add = if regex_is_match(additionally_pattern(), false, line) {
        seq![finding(n, "banned-construction"@, "Additionally"@, line)]
    } else {
        seq![]
    };
    let nj = if regex_is_match(not_just_pattern(), false, line) {
        seq![finding(n, "banned-construction"@, "not just X, but Y"@, line)]
    } else {
        seq![]
    };
    let itn = if regex_is_match(its_not_pattern(), false, line) {
        seq![finding(n, "banned-construction"@, "it's not X, it's Y"@, line)]
    } else {
        seq![]
    };
    dash + words + add + nj + itn
}

/// Findings among the first `n` lines, and whether line `n` ends inside a code
/// block.
pub open spec fn scan_lines(lines: Seq<Seq<char>>, auto_fix: bool, n: int) -> (Seq<StyleViolationView>, bool)
    decreases n,
{
    if n <= 0 {
        (seq![], false)
    } else {
        let (found, in_code) = scan_lines(lines, auto_fix, n - 1);
        let line = lines[n - 1];
        if is_fence(line) {
            (found, !in_code)
        } else if in_code {
            (found, true)
        } else {
            (found + line_findings(line, n, auto_fix), false)
        }
    }
}

/// All findings in `text`.
pub open spec fn findings_of(text: Seq<char>, auto_fix: bool) -> Seq<StyleViolationView> {
    let lines = split_lines(text);
    scan_lines(lines, auto_fix, lines.len() as int).0
}

fn make_violation(n: usize, rule: &str, term: &[char], snippet: &Vec<char>) -> (res: StyleViolation)
    ensures
        res@ == (StyleViolationView { line_number: n as int, rule: rule@, term: term@, snippet: snippet@ }),
{
    StyleViolation {
        line_number: n,
        rule: string_of(chars_of(rule).as_slice()),
        term: string_of(term),
        snippet: string_of(snippet.as_slice()),
    }
}

fn push_violation(out: &mut Vec<StyleViolation>, v: StyleViolation)
    ensures
        violations_view(final(out)@) == violations_view(old(out)@).push(v@),
{
    let ghost before = out@;
    out.push(v);
    assert(violations_view(out@) =~= violations_view(before).push(v@));
}

fn check_line(rules: &StyleRules, line: &Vec<char>, n: usize, auto_fix: bool, out: &mut Vec<StyleViolation>)
    requires
        rules.wf(),
    ensures
        violations_view(final(out)@) == violations_view(old(out)@) + line_findings(line@, n as int, auto_fix),
{
    let snippet = trim_chars(line.as_slice());
    let text = string_of(line.as_slice());
    let ghost start = violations_view(out@);
    if !auto_fix && has_char(line.as_slice(), EM_DASH) {
        let mut dash: Vec<char> = Vec::new();
        dash.push(EM_DASH);
        push_violation(out, make_violation(n, "em-dash", dash.as_slice(), &snippet));
    }
    let ghost after_dash = violations_view(out@);
    let words = rules.banned.find_texts(text.as_str());
    let mut k: usize = 0;
    while k < words.len()
        invariant
            k <= words@.len(),
            snippet@ == trim(line@),
            violations_view(out@) == after_dash + words@.map_values(|t: String| t@).take(k as int).map_values(
                |t: Seq<char>| finding(n as int, "banned-word"@, t, line@),
            ),
        decreases words@.len() - k,
    {
        let w = chars_of(words[k].as_str());
        let ghost prev = violations_view(out@);
        let v = make_violation(n, "banned-word", w.as_slice(), &snippet);
        let ghost vv = v@;
        push_violation(out, v);
        proof {
            let ws = words@.map_values(|t: String| t@);
            assert(ws.take(k + 1) == ws.take(k as int).push(ws[k as int]));
            let fk = finding(n as int, "banned-word"@, ws[k as int], line@);
            let mk = ws.take(k as int).map_values(|t: Seq<char>| finding(n as int, "banned-word"@, t, line@));
            assert(ws.take(k + 1).map_values(|t: Seq<char>| finding(n as int, "banned-word"@, t, line@))
                =~= mk.push(fk));
            assert(w@ == ws[k as int]);
            assert(prev == after_dash + mk);
            assert(vv.snippet == trim(line@));
            assert(vv == fk);
            assert(violations_view(out@) == prev.push(fk));
            assert(after_dash + mk.push(fk) =~= (after_dash + mk).push(fk));
        }
        k = k + 1;
    }
    proof {
        let ws = words@.map_values(|t: String| t@);
        assert(ws.take(words@.len() as int) == ws);
    }
    let ghost after_words = violations_view(out@);
    if rules.additionally.is_match(text.as_str()) {
        let term = chars_of("Additionally");
        push_violation(out, make_violation(n, "banned-construction", term.as_slice(), &snippet));
    }
    let ghost after_add = violations_view(out@);
    if rules.not_just.is_match(text.as_str()) {
        let term = chars_of("not just X, but Y");
        push_violation(out, make_violation(n, "banned-construction", term.as_slice(), &snippet));
    }
    let ghost after_nj = violations_view(out@);
    if rules.its_not.is_match(text.as_str()) {
        let term = chars_of("it's not X, it's Y");
        push_violation(out, make_violation(n, "banned-construction", term.as_slice(), &snippet));
    }
    proof {
        let lf = line_findings(line@, n as int, auto_fix);
        assert(violations_view(out@) =~= start + lf);
    }
}

/// Checks `text` against the style rules: with `auto_fix_em_dashes`, em dashes
/// become `'-'` first and their count is returned; then every line outside
/// fenced code blocks is checked.
pub fn check_with_rules(rules: &StyleRules, text: &str, auto_fix_em_dashes: bool) -> (res: (String, usize, Vec<StyleViolation>))
    requires
        rules.wf(),
    ensures
        res.0@ == dash_fix(text@, auto_fix_em_dashes).0,
        res.1 as nat == dash_fix(text@, auto_fix_em_dashes).1,
        violations_view(res.2@) == findings_of(dash_fix(text@, auto_fix_em_dashes).0, auto_fix_em_dashes),
{
    let content = chars_of(text);
    let (fixed, count) = if auto_fix_em_dashes && has_char(content.as_slice(), EM_DASH) {
        fix_dashes(content.as_slice())
    } else {
        (content, 0)
    };
    let lines = lines_of(fixed.as_slice());
    let ghost ls = seqs_of(lines@);
    let mut out: Vec<StyleViolation> = Vec::new();
    let mut in_code = false;
    let mut i: usize = 0;
    assert(violations_view(out@) =~= Seq::<StyleViolationView>::empty());
    while i < lines.len()
        invariant
            i <= lines@.len(),
            ls == seqs_of(lines@),
            rules.wf(),
            (violations_view(out@), in_code) == scan_lines(ls, auto_fix_em_dashes, i as int),
        decreases lines@.len() - i,
    {
        proof {
            assert(ls[i as int] == lines@[i as int]@);
        }
        let t = trim_start_chars(lines[i].as_slice());
        if has_prefix_str(t.as_slice(), "```") || has_prefix_str(t.as_slice(), "~~~") {
            in_code = !in_code;
        } else if !in_code {
            check_line(rules, &lines[i], i + 1, auto_fix_em_dashes, &mut out);
        }
        i = i + 1;
    }
    (string_of(fixed.as_slice()), count, out)
}

/// Checks `content` against the style rules (see `check_with_rules`). Fails only
/// when one of the fixed rule patterns does not compile, with that error.
pub fn check_and_fix_content(content: &str, auto_fix_em_dashes: bool) -> (res: Result<(String, usize, Vec<StyleViolation>), String>)
    ensures
        match rules_error() {
            Some(e) => res matches Err(r) && r@ == e,
            None => res matches Ok(t) && t.0@ == dash_fix(content@, auto_fix_em_dashes).0
                && t.1 as nat == dash_fix(content@, auto_fix_em_dashes).1 && violations_view(t.2@)
                == findings_of(dash_fix(content@, auto_fix_em_dashes).0, auto_fix_em_dashes),
        },
{
    match load_style_rules() {
        Ok(rules) => Ok(check_with_rules(&rules, content, auto_fix_em_dashes)),
        Err(e) => Err(e),
    }
}

} // verus!
