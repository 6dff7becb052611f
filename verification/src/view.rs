//! Whole-file and batch viewing with line numbers, an outline mode, a guard
//! against minified content, a preview cap on long files and an aggregate byte
//! budget across a batch.

use vstd::prelude::*;
use crate::text::{
    chars_of, dec, fmt_u64, fmt_usize, has_prefix_str, lines_of, pad_left, pad_left_chars,
    push_all, push_str, seqs_of, split_lines, starts_with, string_of, trim, trim_chars,
    utf8_len, utf8_size,
};

verus! {

/// Files longer than this are shown as a capped preview unless forced.
pub const DEFAULT_MAX_LINES: usize = 5000;

/// Byte budget of a batch read.
pub const DEFAULT_MAX_BYTES: usize = 500 * 1024;

/// Lines shown by a capped preview.
pub const CAPPED_PREVIEW_LINES: usize = 1000;

/// A line longer than this (in characters) marks a file as minified.
pub const MAX_LINE_CHAR_THRESHOLD: usize = 2000;

/// An average line length above this (in bytes) marks a file as minified.
pub const AVG_LINE_CHAR_THRESHOLD: usize = 400;

/// How a file is shown.
#[derive(Debug)]
pub struct ViewOptions {
    /// 1-based first line to show.
    pub start_line: Option<usize>,
    /// 1-based last line to show.
    pub end_line: Option<usize>,
    /// Prefix each line with its number.
    pub line_numbers: bool,
    /// Show top-level declarations only.
    pub outline: bool,
    /// Bypass the minified guard and the preview cap.
    pub force_all: bool,
}

impl Clone for ViewOptions {
    fn clone(&self) -> (res: Self)
        ensures
            res == *self,
    {
        ViewOptions {
            start_line: self.start_line,
            end_line: self.end_line,
            line_numbers: self.line_numbers,
            outline: self.outline,
            force_all: self.force_all,
        }
    }
}

impl Default for ViewOptions {
    fn default() -> (res: Self)
        ensures
            res.start_line is None,
            res.end_line is None,
            res.line_numbers,
            !res.outline,
            !res.force_all,
    {
        ViewOptions {
            start_line: None,
            end_line: None,
            line_numbers: true,
            outline: false,
            force_all: false,
        }
    }
}

/// What reading a file produced.
#[derive(Debug, Clone)]
pub enum FileSource {
    /// The path does not exist.
    NotFound,
    /// Reading failed with this error text.
    Unreadable(String),
    /// The file holds a NUL byte among its first 1024 bytes; its size in bytes.
    Binary(u64),
    /// The file's text.
    Text(String),
}

/// A file to view: its path as shown, and what reading it produced.
#[derive(Debug, Clone)]
pub struct ViewFile {
    pub path: String,
    pub source: FileSource,
}

/// `opts` with outline mode switched on.
pub open spec fn with_outline(opts: ViewOptions) -> ViewOptions {
    ViewOptions { outline: true, ..opts }
}

// ---------------------------------------------------------------------------
// Binary detection
// ---------------------------------------------------------------------------

/// A file is treated as binary when one of its first 1024 bytes is zero.
pub open spec fn looks_binary(bytes: Seq<u8>) -> bool {
    exists|i: int| 0 <= i < bytes.len() && i < 1024 && bytes[i] == 0
}

/// Whether one of the first 1024 bytes of `bytes` is zero.
pub fn is_binary_content(bytes: &[u8]) -> (res: bool)
    ensures
        res == looks_binary(bytes@),
{
    let mut i: usize = 0;
    while i < bytes.len() && i < 1024
        invariant
            i <= bytes@.len(),
            i <= 1024,
            forall|k: int| 0 <= k < i ==> bytes@[k] != 0,
        decreases bytes@.len() - i,
    {
        if bytes[i] == 0 {
            return true;
        }
        i = i + 1;
    }
    false
}

// ---------------------------------------------------------------------------
// Outline
// ---------------------------------------------------------------------------

/// A trimmed line that opens a top-level declaration.
pub open spec fn is_decl(t: Seq<char>) -> bool {
    ||| starts_with(t, "fn "@)
    ||| starts_with(t, "pub fn "@)
    ||| starts_with(t, "async fn "@)
    ||| starts_with(t, "pub async fn "@)
    ||| starts_with(t, "function "@)
    ||| starts_with(t, "export function "@)
    ||| starts_with(t, "export async function "@)
    ||| starts_with(t, "class "@)
    ||| starts_with(t, "export class "@)
    ||| starts_with(t, "struct "@)
    ||| starts_with(t, "pub struct "@)
    ||| starts_with(t, "enum "@)
    ||| starts_with(t, "pub enum "@)
    ||| starts_with(t, "trait "@)
    ||| starts_with(t, "pub trait "@)
    ||| starts_with(t, "interface "@)
    ||| starts_with(t, "export interface "@)
    ||| starts_with(t, "type "@)
    ||| starts_with(t, "export type "@)
    ||| starts_with(t, "impl "@)
    ||| starts_with(t, "def "@)
}

fn is_declaration(t: &[char]) -> (res: bool)
    ensures
        res == is_decl(t@),
{
    has_prefix_str(t, "fn ") || has_prefix_str(t, "pub fn ") || has_prefix_str(t, "async fn ")
        || has_prefix_str(t, "pub async fn ") || has_prefix_str(t, "function ") || has_prefix_str(
        t,
        "export function ",
    ) || has_prefix_str(t, "export async function ") || has_prefix_str(t, "class ")
        || has_prefix_str(t, "export class ") || has_prefix_str(t, "struct ") || has_prefix_str(
        t,
        "pub struct ",
    ) || has_prefix_str(t, "enum ") || has_prefix_str(t, "pub enum ") || has_prefix_str(
        t,
        "trait ",
    ) || has_prefix_str(t, "pub trait ") || has_prefix_str(t, "interface ") || has_prefix_str(
        t,
        "export interface ",
    ) || has_prefix_str(t, "type ") || has_prefix_str(t, "export type ") || has_prefix_str(
        t,
        "impl ",
    ) || has_prefix_str(t, "def ")
}

/// The declarations among the first `upto` lines: 1-based line number and the
/// trimmed line, in order.
pub open spec fn outline_spec(lines: Seq<Seq<char>>, upto: int) -> Seq<(int, Seq<char>)>
    decreases upto,
{
    if upto <= 0 {
        seq![]
    } else {
        let before = outline_spec(lines, upto - 1);
        let t = trim(lines[upto - 1]);
        if is_decl(t) {
            before.push((upto, t))
        } else {
            before
        }
    }
}

/// The declarations of `lines`.
pub open spec fn outline_of(lines: Seq<Seq<char>>) -> Seq<(int, Seq<char>)> {
    outline_spec(lines, lines.len() as int)
}

fn outline_chars(lines: &Vec<Vec<char>>) -> (res: Vec<(usize, Vec<char>)>)
    ensures
        res@.map_values(|e: (usize, Vec<char>)| (e.0 as int, e.1@)) == outline_of(seqs_of(lines@)),
{
    let ghost ls = seqs_of(lines@);
    let mut out: Vec<(usize, Vec<char>)> = Vec::new();
    let mut i: usize = 0;
    while i < lines.len()
        invariant
            i <= lines@.len(),
            ls == seqs_of(lines@),
            out@.map_values(|e: (usize, Vec<char>)| (e.0 as int, e.1@)) == outline_spec(ls, i as int),
        decreases lines@.len() - i,
    {
        let t = trim_chars(lines[i].as_slice());
        proof {
            assert(ls[i as int] == lines@[i as int]@);
        }
        if is_declaration(t.as_slice()) {
            let ghost before = out@;
            let ghost tv = t@;
            out.push((i + 1, t));
            proof {
                assert(out@.map_values(|e: (usize, Vec<char>)| (e.0 as int, e.1@)) =~= before.map_values(
                    |e: (usize, Vec<char>)| (e.0 as int, e.1@),
                ).push(((i + 1) as int, tv)));
            }
        }
        i = i + 1;
    }
    out
}

/// The strings held by a slice of strings.
pub open spec fn strings_view(v: Seq<String>) -> Seq<Seq<char>> {
    v.map_values(|s: String| s@)
}

/// The top-level declarations among `lines`: each declaration line's 1-based
/// number and its trimmed text.
pub fn extract_outline(lines: &[String]) -> (res: Vec<(usize, String)>)
    ensures
        res@.map_values(|e: (usize, String)| (e.0 as int, e.1@)) == outline_of(
            strings_view(lines@),
        ),
{
    let mut cl: Vec<Vec<char>> = Vec::new();
    let mut i: usize = 0;
    while i < lines.len()
        invariant
            i <= lines@.len(),
            seqs_of(cl@) == strings_view(lines@).take(i as int),
        decreases lines@.len() - i,
    {
        let ghost before = cl@;
        let c = chars_of(lines[i].as_str());
        cl.push(c);
        proof {
            crate::text::lemma_seqs_of_push(before, c);
            assert(c@ == strings_view(lines@)[i as int]);
            assert(seqs_of(cl@) =~= strings_view(lines@).take(i + 1));
        }
        i = i + 1;
    }
    assert(strings_view(lines@).take(lines@.len() as int) =~= strings_view(lines@));
    let o = outline_chars(&cl);
    let mut out: Vec<(usize, String)> = Vec::new();
    let mut k: usize = 0;
    while k < o.len()
        invariant
            k <= o@.len(),
            out@.len() == k,
            out@.map_values(|e: (usize, String)| (e.0 as int, e.1@)) == o@.map_values(
                |e: (usize, Vec<char>)| (e.0 as int, e.1@),
            ).take(k as int),
        decreases o@.len() - k,
    {
        let s = string_of(o[k].1.as_slice());
        let ghost before = out@;
        out.push((o[k].0, s));
        assert(out@ == before.push((o@[k as int].0, s)));
        proof {
            let om = o@.map_values(|e: (usize, Vec<char>)| (e.0 as int, e.1@));
            let bm = before.map_values(|e: (usize, String)| (e.0 as int, e.1@));
            let nm = out@.map_values(|e: (usize, String)| (e.0 as int, e.1@));
            assert(bm == om.take(k as int));
            assert forall|j: int| 0 <= j < k + 1 implies nm[j] == om.take(k + 1)[j] by {
                if j < k {
                    assert(out@[j] == before[j]);
                    assert(bm[j] == om.take(k as int)[j]);
                }
            }
            assert(nm =~= om.take(k + 1));
        }
        k = k + 1;
    }
    assert(o@.map_values(|e: (usize, Vec<char>)| (e.0 as int, e.1@)).take(o@.len() as int)
        =~= o@.map_values(|e: (usize, Vec<char>)| (e.0 as int, e.1@)));
    out
}

/// The outline entries from the first `n`, each as `"{:5}: {decl}\n"`.
pub open spec fn outline_entries(o: Seq<(int, Seq<char>)>, n: int) -> Seq<char>
    decreases n,
{
    if n <= 0 {
        seq![]
    } else {
        outline_entries(o, n - 1) + pad_left(dec(o[n - 1].0 as nat), 5) + ": "@ + o[n - 1].1 + "\n"@
    }
}

/// The text of outline mode for a file of `lines`.
pub open spec fn outline_text(path: Seq<char>, lines: Seq<Seq<char>>) -> Seq<char> {
    let o = outline_of(lines);
    let n = dec(lines.len());
    if o.len() == 0 {
        "File "@ + path + " ("@ + n + " lines): No top-level declarations found."@
    } else {
        "Outline for "@ + path + " ("@ + n + " lines):\n"@ + outline_entries(o, o.len() as int)
    }
}

fn render_outline(path: &[char], lines: &Vec<Vec<char>>) -> (res: Vec<char>)
    ensures
        res@ == outline_text(path@, seqs_of(lines@)),
{
    let o = outline_chars(lines);
    let ghost ov = o@.map_values(|e: (usize, Vec<char>)| (e.0 as int, e.1@));
    let n = fmt_usize(lines.len());
    let mut out: Vec<char> = Vec::new();
    proof {
        assert(seqs_of(lines@).len() == lines@.len());
    }
    if o.len() == 0 {
        push_str(&mut out, "File ");
        push_all(&mut out, path);
        push_str(&mut out, " (");
        push_all(&mut out, n.as_slice());
        push_str(&mut out, " lines): No top-level declarations found.");
        return out;
    }
    push_str(&mut out, "Outline for ");
    push_all(&mut out, path);
    push_str(&mut out, " (");
    push_all(&mut out, n.as_slice());
    push_str(&mut out, " lines):\n");
    let ghost head = out@;
    let mut k: usize = 0;
    while k < o.len()
        invariant
            k <= o@.len(),
            ov == o@.map_values(|e: (usize, Vec<char>)| (e.0 as int, e.1@)),
            out@ == head + outline_entries(ov, k as int),
        decreases o@.len() - k,
    {
        let num = fmt_usize(o[k].0);
        let padded = pad_left_chars(num.as_slice(), 5);
        push_all(&mut out, padded.as_slice());
        push_str(&mut out, ": ");
        push_all(&mut out, o[k].1.as_slice());
        push_str(&mut out, "\n");
        proof {
            assert(ov[k as int] == (o@[k as int].0 as int, o@[k as int].1@));
        }
        assert(out@ =~= head + outline_entries(ov, k + 1));
        k = k + 1;
    }
    out
}

// ---------------------------------------------------------------------------
// Minified guard
// ---------------------------------------------------------------------------

/// `x` saturated at `usize::MAX`.
pub open spec fn sat(x: int) -> int {
    if x > usize::MAX {
        usize::MAX as int
    } else {
        x
    }
}

/// Sum of the (saturated) byte lengths of the first `n` lines.
pub open spec fn total_len(lines: Seq<Seq<char>>, n: int) -> int
    decreases n,
{
    if n <= 0 {
        0
    } else {
        total_len(lines, n - 1) + sat(utf8_len(lines[n - 1]) as int)
    }
}

/// Largest (saturated) length in characters among the first `n` lines.
pub open spec fn max_len(lines: Seq<Seq<char>>, n: int) -> int
    decreases n,
{
    if n <= 0 {
        0
    } else {
        let m = max_len(lines, n - 1);
        let l = sat(lines[n - 1].len() as int);
        if l > m {
            l
        } else {
            m
        }
    }
}

/// The message of the minified guard.
pub open spec fn minified_notice(n: int, max: int, avg: int) -> Seq<char> {
    "[Minified Line Guard: "@ + dec(n as nat) + " lines, max line length "@ + dec(max as nat)
        + ", average line length "@ + dec(avg as nat)
        + ". File appears minified or bundled. Pass --force-all to bypass.]"@
}

/// The guard's verdict on `lines` (non-empty): `Some(notice)` when the longest
/// line exceeds 2000 characters or the average line exceeds 400 bytes.
pub open spec fn minified_verdict(lines: Seq<Seq<char>>) -> Option<Seq<char>> {
    let n = lines.len() as int;
    let total = sat(total_len(lines, n));
    let mx = max_len(lines, n);
    let avg = total / n;
    if mx > MAX_LINE_CHAR_THRESHOLD || avg > AVG_LINE_CHAR_THRESHOLD {
        Some(minified_notice(n, mx, avg))
    } else {
        None
    }
}

proof fn lemma_max_len_bound(lines: Seq<Seq<char>>, n: int)
    ensures
        0 <= max_len(lines, n) <= usize::MAX,
        0 <= total_len(lines, n),
    decreases n,
{
    if n > 0 {
        lemma_max_len_bound(lines, n - 1);
    }
}

fn minified_check(lines: &Vec<Vec<char>>) -> (res: Option<Vec<char>>)
    requires
        lines@.len() > 0,
    ensures
        match minified_verdict(seqs_of(lines@)) {
            Some(t) => res matches Some(r) && r@ == t,
            None => res is None,
        },
{
    let ghost ls = seqs_of(lines@);
    let mut total: usize = 0;
    let mut mx: usize = 0;
    let mut i: usize = 0;
    while i < lines.len()
        invariant
            i <= lines@.len(),
            ls == seqs_of(lines@),
            total as int == sat(total_len(ls, i as int)),
            mx as int == max_len(ls, i as int),
        decreases lines@.len() - i,
    {
        let l = utf8_size(lines[i].as_slice());
        let width = lines[i].len();
        proof {
            assert(ls[i as int] == lines@[i as int]@);
            lemma_max_len_bound(ls, i as int);
        }
        total = total.saturating_add(l);
        if width > mx {
            mx = width;
        }
        i = i + 1;
    }
    let n = lines.len();
    let avg = total / n;
    if mx > MAX_LINE_CHAR_THRESHOLD || avg > AVG_LINE_CHAR_THRESHOLD {
        let mut out: Vec<char> = Vec::new();
        push_str(&mut out, "[Minified Line Guard: ");
        let a = fmt_usize(n);
        push_all(&mut out, a.as_slice());
        push_str(&mut out, " lines, max line length ");
        let b = fmt_usize(mx);
        push_all(&mut out, b.as_slice());
        push_str(&mut out, ", average line length ");
        let c = fmt_usize(avg);
        push_all(&mut out, c.as_slice());
        push_str(&mut out, ". File appears minified or bundled. Pass --force-all to bypass.]");
        proof {
            assert(ls.len() == n);
        }
        Some(out)
    } else {
        None
    }
}

// ---------------------------------------------------------------------------
// Line rendering
// ---------------------------------------------------------------------------

/// Width of the line-number column for a file of `n` lines.
pub open spec fn view_width(n: int) -> nat {
    let w = dec(n as nat).len();
    if w < 4 {
        4
    } else {
        w
    }
}

/// One rendered line.
pub open spec fn view_line(k: int, text: Seq<char>, numbered: bool, width: nat) -> Seq<char> {
    if numbered {
        pad_left(dec(k as nat), width) + ": "@ + text + "\n"@
    } else {
        text + "\n"@
    }
}

/// Lines `start..start+count-1` rendered one after another.
pub open spec fn view_body(
    lines: Seq<Seq<char>>,
    start: int,
    count: int,
    numbered: bool,
    width: nat,
) -> Seq<char>
    decreases count,
{
    if count <= 0 {
        seq![]
    } else {
        view_body(lines, start, count - 1, numbered, width) + view_line(
            start + count - 1,
            lines[start + count - 2],
            numbered,
            width,
        )
    }
}

/// The footer of a capped preview.
pub open spec fn cap_footer(start: int, end: int, n: int) -> Seq<char> {
    if start == 1 {
        "\n[Showing first 1000 lines of "@ + dec(n as nat)
            + " lines. Pass --force-all to read entire file or specify -s and -e]\n"@
    } else {
        "\n[Showing lines "@ + dec(start as nat) + "-"@ + dec(end as nat) + " of "@ + dec(n as nat)
            + " lines (capped preview). Pass --force-all to read entire file or specify -s and -e]\n"@
    }
}

/// Whether the preview cap applies: not forced, more than 5000 lines, and no
/// explicit last line.
pub open spec fn should_cap(n: int, opts: ViewOptions) -> bool {
    !opts.force_all && n > DEFAULT_MAX_LINES && opts.end_line is None
}

/// First line shown.
pub open spec fn range_start(opts: ViewOptions) -> int {
    match opts.start_line {
        Some(s) => if s < 1 {
            1
        } else {
            s as int
        },
        None => 1,
    }
}

/// Last line shown (before the range checks).
pub open spec fn range_end(n: int, opts: ViewOptions) -> int {
    if should_cap(n, opts) {
        let e = range_start(opts) + CAPPED_PREVIEW_LINES - 1;
        if e > n {
            n
        } else {
            e
        }
    } else {
        match opts.end_line {
            Some(e) => if e > n {
                n
            } else {
                e as int
            },
            None => n,
        }
    }
}

/// The text shown for a file of non-empty `lines` outside outline mode and past
/// the minified guard.
pub open spec fn range_text(lines: Seq<Seq<char>>, opts: ViewOptions) -> Result<Seq<char>, Seq<char>> {
    let n = lines.len() as int;
    let start = range_start(opts);
    let end = range_end(n, opts);
    if start > n {
        Err("start_line "@ + dec(start as nat) + " exceeds total lines "@ + dec(n as nat))
    } else if start > end {
        Err("start_line "@ + dec(start as nat) + " is greater than end_line "@ + dec(end as nat))
    } else {
        let body = view_body(lines, start, end - start + 1, opts.line_numbers, view_width(n));
        if should_cap(n, opts) && end < n {
            Ok(body + cap_footer(start, end, n))
        } else {
            Ok(body)
        }
    }
}

/// The text shown for a file whose content is `text`.
pub open spec fn text_view(path: Seq<char>, text: Seq<char>, opts: ViewOptions) -> Result<Seq<char>, Seq<char>> {
    let lines = split_lines(text);
    if lines.len() == 0 {
        Ok(seq![])
    } else if opts.outline {
        Ok(outline_text(path, lines))
    } else if !opts.force_all && minified_verdict(lines) is Some {
        Ok(minified_verdict(lines)->Some_0)
    } else {
        range_text(lines, opts)
    }
}

/// What viewing `f` with `opts` gives.
pub open spec fn view_spec(f: ViewFile, opts: ViewOptions) -> Result<Seq<char>, Seq<char>> {
    match f.source {
        FileSource::NotFound => Err("File not found: "@ + f.path@),
        FileSource::Unreadable(e) => Err(e@),
        FileSource::Binary(size) => Ok("[Binary file: "@ + f.path@ + " ("@ + dec(size as nat)
            + " bytes)]"@),
        FileSource::Text(t) => text_view(f.path@, t@, opts),
    }
}

fn render_body(lines: &Vec<Vec<char>>, start: usize, end: usize, numbered: bool, width: usize) -> (res: Vec<char>)
    requires
        1 <= start <= end <= lines@.len(),
    ensures
        res@ == view_body(seqs_of(lines@), start as int, end - start + 1, numbered, width as nat),
{
    let ghost ls = seqs_of(lines@);
    let mut out: Vec<char> = Vec::new();
    let mut k: usize = start;
    while k <= end
        invariant
            1 <= start <= k <= end + 1,
            end <= lines@.len(),
            ls == seqs_of(lines@),
            out@ == view_body(ls, start as int, k - start, numbered, width as nat),
        decreases end + 1 - k,
    {
        if numbered {
            let num = fmt_usize(k);
            let padded = pad_left_chars(num.as_slice(), width);
            push_all(&mut out, padded.as_slice());
            push_str(&mut out, ": ");
        }
        push_all(&mut out, lines[k - 1].as_slice());
        push_str(&mut out, "\n");
        proof {
            assert(ls[k - 1] == lines@[k - 1]@);
        }
        assert(out@ =~= view_body(ls, start as int, k - start + 1, numbered, width as nat));
        if k == end {
            return out;
        }
        k = k + 1;
    }
    out
}

fn range_bounds(n: usize, opts: &ViewOptions) -> (res: (usize, usize, bool))
    ensures
        res.0 as int == range_start(*opts),
        res.1 as int == range_end(n as int, *opts),
        res.2 == should_cap(n as int, *opts),
{
    let capped = !opts.force_all && n > DEFAULT_MAX_LINES && opts.end_line.is_none();
    let start: usize = match opts.start_line {
        Some(s) => if s < 1 {
            1
        } else {
            s
        },
        None => 1,
    };
    let end: usize = if capped {
        if start > n - CAPPED_PREVIEW_LINES + 1 {
            n
        } else {
            start + (CAPPED_PREVIEW_LINES - 1)
        }
    } else {
        match opts.end_line {
            Some(e) => if e > n {
                n
            } else {
                e
            },
            None => n,
        }
    };
    (start, end, capped)
}

fn range_error(start: usize, second: usize, exceeds: bool) -> (res: Vec<char>)
    ensures
        exceeds ==> res@ == "start_line "@ + dec(start as nat) + " exceeds total lines "@ + dec(
            second as nat,
        ),
        !exceeds ==> res@ == "start_line "@ + dec(start as nat) + " is greater than end_line "@
            + dec(second as nat),
{
    let mut msg: Vec<char> = Vec::new();
    push_str(&mut msg, "start_line ");
    let a = fmt_usize(start);
    push_all(&mut msg, a.as_slice());
    if exceeds {
        push_str(&mut msg, " exceeds total lines ");
    } else {
        push_str(&mut msg, " is greater than end_line ");
    }
    let b = fmt_usize(second);
    push_all(&mut msg, b.as_slice());
    msg
}

fn push_footer(out: &mut Vec<char>, start: usize, end: usize, n: usize)
    ensures
        final(out)@ == old(out)@ + cap_footer(start as int, end as int, n as int),
{
    let nd = fmt_usize(n);
    if start == 1 {
        push_str(out, "\n[Showing first 1000 lines of ");
        push_all(out, nd.as_slice());
        push_str(out, " lines. Pass --force-all to read entire file or specify -s and -e]\n");
    } else {
        push_str(out, "\n[Showing lines ");
        let a = fmt_usize(start);
        push_all(out, a.as_slice());
        push_str(out, "-");
        let b = fmt_usize(end);
        push_all(out, b.as_slice());
        push_str(out, " of ");
        push_all(out, nd.as_slice());
        push_str(
            out,
            " lines (capped preview). Pass --force-all to read entire file or specify -s and -e]\n",
        );
    }
}

fn render_range(lines: &Vec<Vec<char>>, opts: &ViewOptions) -> (res: Result<Vec<char>, Vec<char>>)
    requires
        lines@.len() > 0,
    ensures
        match range_text(seqs_of(lines@), *opts) {
            Ok(t) => res matches Ok(r) && r@ == t,
            Err(t) => res matches Err(r) && r@ == t,
        },
{
    let ghost ls = seqs_of(lines@);
    let n = lines.len();
    proof {
        assert(ls.len() == n);
    }
    let (start, end, capped) = range_bounds(n, opts);
    if start > n {
        return Err(range_error(start, n, true));
    }
    if start > end {
        return Err(range_error(start, end, false));
    }
    let nd = fmt_usize(n);
    let width: usize = if nd.len() < 4 {
        4
    } else {
        nd.len()
    };
    let mut out = render_body(lines, start, end, opts.line_numbers, width);
    if capped && end < n {
        push_footer(&mut out, start, end, n);
    }
    Ok(out)
}

fn render_text(path: &[char], text: &str, opts: &ViewOptions) -> (res: Result<Vec<char>, Vec<char>>)
    ensures
        match text_view(path@, text@, *opts) {
            Ok(t) => res matches Ok(r) && r@ == t,
            Err(t) => res matches Err(r) && r@ == t,
        },
{
    let content = chars_of(text);
    let lines = lines_of(content.as_slice());
    proof {
        assert(seqs_of(lines@).len() == lines@.len());
    }
    if lines.len() == 0 {
        return Ok(Vec::new());
    }
    if opts.outline {
        return Ok(render_outline(path, &lines));
    }
    if !opts.force_all {
        if let Some(notice) = minified_check(&lines) {
            return Ok(notice);
        }
    }
    render_range(&lines, opts)
}

fn view_chars(f: &ViewFile, opts: &ViewOptions) -> (res: Result<Vec<char>, Vec<char>>)
    ensures
        match view_spec(*f, *opts) {
            Ok(t) => res matches Ok(r) && r@ == t,
            Err(t) => res matches Err(r) && r@ == t,
        },
{
    let path = chars_of(f.path.as_str());
    match &f.source {
        FileSource::NotFound => {
            let mut msg = chars_of("File not found: ");
            push_all(&mut msg, path.as_slice());
            Err(msg)
        },
        FileSource::Unreadable(e) => Err(chars_of(e.as_str())),
        FileSource::Binary(size) => {
            let mut msg = chars_of("[Binary file: ");
            push_all(&mut msg, path.as_slice());
            push_str(&mut msg, " (");
            let s = fmt_u64(*size);
            push_all(&mut msg, s.as_slice());
            push_str(&mut msg, " bytes)]");
            Ok(msg)
        },
        FileSource::Text(t) => render_text(path.as_slice(), t.as_str(), opts),
    }
}

/// Views one file: the binary notice, the outline, the minified-guard notice,
/// or the requested (possibly capped) range of lines; or the error.
pub fn view_single_file(f: &ViewFile, opts: &ViewOptions) -> (res: Result<String, String>)
    ensures
        match view_spec(*f, *opts) {
            Ok(t) => res matches Ok(r) && r@ == t,
            Err(t) => res matches Err(r) && r@ == t,
        },
{
    match view_chars(f, opts) {
        Ok(v) => Ok(string_of(v.as_slice())),
        Err(v) => Err(string_of(v.as_slice())),
    }
}

// ---------------------------------------------------------------------------
// Batch viewing
// ---------------------------------------------------------------------------

/// The header written before file `k` (1-based) of `count`.
pub open spec fn batch_header(k: int, count: int, path: Seq<char>) -> Seq<char> {
    "=== File ["@ + dec(k as nat) + "/"@ + dec(count as nat) + "]: "@ + path + " ===\n"@
}

/// The entry written for a file whose view failed.
pub open spec fn batch_error(path: Seq<char>, err: Seq<char>) -> Seq<char> {
    "Error reading "@ + path + ": "@ + err + "\n\n"@
}

/// The entry written when the budget forces outline mode, and the bytes it
/// counts against the budget.
pub open spec fn outline_entry(f: ViewFile, opts: ViewOptions) -> (Seq<char>, int) {
    match view_spec(f, with_outline(opts)) {
        Ok(c) => ("[Aggregate budget reached; displaying outline]\n"@ + c + "\n\n"@, sat(
            utf8_len(c) as int,
        )),
        Err(e) => (batch_error(f.path@, e), 0),
    }
}

/// The entry written for a file read while `total` bytes of the budget `max`
/// are spent, and the bytes it adds.
pub open spec fn batch_entry(f: ViewFile, opts: ViewOptions, max: int, total: int) -> (Seq<char>, int) {
    if total >= max {
        outline_entry(f, opts)
    } else {
        match view_spec(f, opts) {
            Ok(c) => if total + sat(utf8_len(c) as int) > max && !opts.outline {
                outline_entry(f, opts)
            } else {
                (c + "\n\n"@, sat(utf8_len(c) as int))
            },
            Err(e) => (batch_error(f.path@, e), 0),
        }
    }
}

/// Output and bytes spent after the first `n` files of a batch.
pub open spec fn batch_state(files: Seq<ViewFile>, opts: ViewOptions, max: int, n: int) -> (Seq<char>, int)
    decreases n,
{
    if n <= 0 {
        (seq![], 0)
    } else {
        let (out, total) = batch_state(files, opts, max, n - 1);
        let f = files[n - 1];
        let (entry, spent) = batch_entry(f, opts, max, total);
        (out + batch_header(n, files.len() as int, f.path@) + entry, total + spent)
    }
}

proof fn lemma_batch_total_nonneg(files: Seq<ViewFile>, opts: ViewOptions, max: int, n: int)
    ensures
        batch_state(files, opts, max, n).1 >= 0,
    decreases n,
{
    if n > 0 {
        lemma_batch_total_nonneg(files, opts, max, n - 1);
    }
}

fn outline_entry_exec(f: &ViewFile, opts: &ViewOptions) -> (res: (Vec<char>, usize))
    ensures
        (res.0@, res.1 as int) == outline_entry(*f, *opts),
{
    let mut o = opts.clone();
    o.outline = true;
    assert(o == with_outline(*opts));
    match view_chars(f, &o) {
        Ok(c) => {
            let mut e = chars_of("[Aggregate budget reached; displaying outline]\n");
            push_all(&mut e, c.as_slice());
            push_str(&mut e, "\n\n");
            let n = utf8_size(c.as_slice());
            (e, n)
        },
        Err(err) => {
            let mut e = chars_of("Error reading ");
            push_str(&mut e, f.path.as_str());
            push_str(&mut e, ": ");
            push_all(&mut e, err.as_slice());
            push_str(&mut e, "\n\n");
            (e, 0)
        },
    }
}

fn batch_entry_exec(f: &ViewFile, opts: &ViewOptions, max: usize, total: usize) -> (res: (Vec<char>, usize))
    requires
        total <= max,
    ensures
        (res.0@, res.1 as int) == batch_entry(*f, *opts, max as int, total as int),
{
    if total >= max {
        return outline_entry_exec(f, opts);
    }
    match view_chars(f, opts) {
        Ok(c) => {
            let n = utf8_size(c.as_slice());
            if n > max - total && !opts.outline {
                outline_entry_exec(f, opts)
            } else {
                let mut e = c;
                push_str(&mut e, "\n\n");
                (e, n)
            }
        },
        Err(err) => {
            let mut e = chars_of("Error reading ");
            push_str(&mut e, f.path.as_str());
            push_str(&mut e, ": ");
            push_all(&mut e, err.as_slice());
            push_str(&mut e, "\n\n");
            (e, 0)
        },
    }
}

/// Views several files in one pass. Each file gets a numbered header; once the
/// bytes shown reach `max_aggregate_bytes`, or when a file would push them past
/// it, the file is shown in outline mode instead.
pub fn view_batch_files(files: &[ViewFile], opts: &ViewOptions, max_aggregate_bytes: usize) -> (res: String)
    ensures
        res@ == batch_state(files@, *opts, max_aggregate_bytes as int, files@.len() as int).0,
{
    let mut out: Vec<char> = Vec::new();
    let mut total: usize = 0;
    let count = fmt_usize(files.len());
    let mut i: usize = 0;
    while i < files.len()
        invariant
            i <= files@.len(),
            count@ == dec(files@.len() as nat),
            out@ == batch_state(files@, *opts, max_aggregate_bytes as int, i as int).0,
            total as int == sat(batch_state(files@, *opts, max_aggregate_bytes as int, i as int).1),
        decreases files@.len() - i,
    {
        let f = &files[i];
        push_str(&mut out, "=== File [");
        let k = fmt_usize(i + 1);
        push_all(&mut out, k.as_slice());
        push_str(&mut out, "/");
        push_all(&mut out, count.as_slice());
        push_str(&mut out, "]: ");
        push_str(&mut out, f.path.as_str());
        push_str(&mut out, " ===\n");
        proof {
            lemma_batch_total_nonneg(files@, *opts, max_aggregate_bytes as int, i as int);
        }
        let bounded = if total < max_aggregate_bytes {
            total
        } else {
            max_aggregate_bytes
        };
        let (entry, spent) = batch_entry_exec(f, opts, max_aggregate_bytes, bounded);
        push_all(&mut out, entry.as_slice());
        total = total.saturating_add(spent);
        i = i + 1;
    }
    string_of(out.as_slice())
}

} // verus!
