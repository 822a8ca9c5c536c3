//! The looks of a task's full text: headings, code, lists, header lines and diffs.
//!
//! It is judged line by line, with one state for fences and one for diffs. Styles are added and
//! no character is touched. What cannot be told has no style: a wrong one is worse than none.

use crate::text;
use crate::text::{contains_text, copy_text, from_chars, starts_with, to_chars, trimmed};
use crate::theme;
use crate::theme::{
    diff_add_style, diff_del_style, md_code_style, md_heading_style, md_list_marker_style,
    md_meta_key_style, Line, LineView, Palette, Span, SpanView, Style,
};
use vstd::prelude::*;

verus! {

/// How often a character is repeated from an index on.
pub open spec fn run(s: Seq<char>, c: char, from: int) -> int
    decreases s.len() - from,
{
    if 0 <= from < s.len() && s[from] == c {
        1 + run(s, c, from + 1)
    } else {
        0
    }
}

/// How many decimal digits stand from an index on.
pub open spec fn digit_run(s: Seq<char>, from: int) -> int
    decreases s.len() - from,
{
    if 0 <= from < s.len() && '0' <= s[from] <= '9' {
        1 + digit_run(s, from + 1)
    } else {
        0
    }
}

/// The end of the repetition of a character.
fn run_end(v: &Vec<char>, c: char, from: usize) -> (r: usize)
    requires
        from <= v@.len(),
    ensures
        from <= r <= v@.len(),
        r == from + run(v@, c, from as int),
{
    let mut i: usize = from;
    while i < v.len() && v[i] == c
        invariant
            from <= i <= v@.len(),
            i + run(v@, c, i as int) == from + run(v@, c, from as int),
        decreases v@.len() - i,
    {
        i += 1;
    }
    i
}

/// The end of the digits.
fn digits_end(v: &Vec<char>, from: usize) -> (r: usize)
    requires
        from <= v@.len(),
    ensures
        from <= r <= v@.len(),
        r == from + digit_run(v@, from as int),
{
    let mut i: usize = from;
    while i < v.len() && '0' <= v[i] && v[i] <= '9'
        invariant
            from <= i <= v@.len(),
            i + digit_run(v@, i as int) == from + digit_run(v@, from as int),
        decreases v@.len() - i,
    {
        i += 1;
    }
    i
}

/// A line that opens or closes code: its character, how often it is repeated, and what stands
/// behind it.
pub struct Mark {
    pub ch: char,
    pub len: int,
    pub info: Seq<char>,
}

/// The fence that a line is: up to three spaces, and then a backtick or a tilde at least three
/// times. Behind backticks no further one may stand.
pub open spec fn fence_of(line: Seq<char>) -> Option<Mark> {
    let i = run(line, ' ', 0);
    if i > 3 || i >= line.len() || (line[i] != '`' && line[i] != '~') {
        None
    } else {
        let len = run(line, line[i], i);
        let info = text::trim(line.subrange(i + len, line.len() as int));
        if len < 3 || (line[i] == '`' && info.contains('`')) {
            None
        } else {
            Some(Mark { ch: line[i], len, info })
        }
    }
}

/// Whether a character is in a list.
fn has_char(v: &Vec<char>, c: char) -> (r: bool)
    ensures
        r == v@.contains(c),
{
    let mut i: usize = 0;
    while i < v.len()
        invariant
            i <= v@.len(),
            forall|j: int| 0 <= j < i ==> v@[j] != c,
        decreases v@.len() - i,
    {
        if v[i] == c {
            return true;
        }
        i += 1;
    }
    false
}

/// A fence: its character, how often it is repeated, and what stands behind it.
struct FenceMark {
    ch: char,
    len: usize,
    info: String,
}

/// The fence as it is in the model.
spec fn mark_view(o: Option<FenceMark>) -> Option<Mark> {
    match o {
        Some(m) => Some(Mark { ch: m.ch, len: m.len as int, info: m.info@ }),
        None => None,
    }
}

/// The fence that a line is.
fn fence_marker(v: &Vec<char>) -> (r: Option<FenceMark>)
    ensures
        mark_view(r) == fence_of(v@),
{
    let i = run_end(v, ' ', 0);
    if i > 3 || i >= v.len() {
        return None;
    }
    let ch = v[i];
    if ch != '`' && ch != '~' {
        return None;
    }
    let end = run_end(v, ch, i);
    if end - i < 3 {
        return None;
    }
    let info = trimmed(from_chars(v, end, v.len()).as_str());
    if ch == '`' && has_char(&to_chars(info.as_str()), '`') {
        return None;
    }
    Some(FenceMark { ch, len: end - i, info })
}

/// Whether the character at an index is a space or a tab, or the line ends there.
pub open spec fn breaks_at(line: Seq<char>, n: int) -> bool {
    n >= line.len() || line[n] == ' ' || line[n] == '\t'
}

/// Whether the character at an index is a space or a tab, or the line ends there.
fn is_break(v: &Vec<char>, n: usize) -> (r: bool)
    ensures
        r == breaks_at(v@, n as int),
{
    n >= v.len() || v[n] == ' ' || v[n] == '\t'
}

/// Whether a line is a heading: one to six number signs at its start, and then a space, a tab
/// or the end.
pub open spec fn heading(line: Seq<char>) -> bool {
    let n = run(line, '#', 0);
    1 <= n <= 6 && breaks_at(line, n)
}

/// How many number signs a heading has.
fn heading_hashes(v: &Vec<char>) -> (r: Option<usize>)
    ensures
        r is Some == heading(v@),
        r matches Some(n) ==> n == run(v@, '#', 0),
{
    let n = run_end(v, '#', 0);
    if n == 0 || n > 6 || !is_break(v, n) {
        None
    } else {
        Some(n)
    }
}

/// Whether a line starts with a key and a colon, and then a space, a tab or the end.
pub open spec fn keyed_by(line: Seq<char>, key: Seq<char>) -> bool {
    text::starts(line, key) && breaks_at(line, key.len() as int)
}

/// The length of the key of a header line, with its colon. Only these keys are: any other word
/// with a colon is prose.
pub open spec fn meta_key(line: Seq<char>) -> Option<int> {
    if keyed_by(line, "task-id:"@) {
        Some("task-id:"@.len() as int)
    } else if keyed_by(line, "from:"@) {
        Some("from:"@.len() as int)
    } else if keyed_by(line, "to:"@) {
        Some("to:"@.len() as int)
    } else if keyed_by(line, "working_directory:"@) {
        Some("working_directory:"@.len() as int)
    } else {
        None
    }
}

/// The length of a key that a line starts with.
fn key_len(line: &str, v: &Vec<char>, key: &str) -> (r: Option<usize>)
    requires
        v@ == line@,
    ensures
        r is Some == keyed_by(line@, key@),
        r matches Some(n) ==> n == key@.len() && n <= line@.len(),
{
    let n = to_chars(key).len();
    if starts_with(line, key) && is_break(v, n) {
        Some(n)
    } else {
        None
    }
}

/// The length of the key of a header line, with its colon.
fn meta_key_len(line: &str, v: &Vec<char>) -> (r: Option<usize>)
    requires
        v@ == line@,
    ensures
        crate::model::opt_index(r) == meta_key(line@),
        r matches Some(n) ==> n <= line@.len(),
{
    if let Some(n) = key_len(line, v, "task-id:") {
        return Some(n);
    }
    if let Some(n) = key_len(line, v, "from:") {
        return Some(n);
    }
    if let Some(n) = key_len(line, v, "to:") {
        return Some(n);
    }
    key_len(line, v, "working_directory:")
}

/// Where the marker of a list item stands: a dash, a star, a plus, or a number with a point or
/// a bracket. Behind it a space has to stand.
pub open spec fn list_mark(line: Seq<char>) -> Option<(int, int)> {
    let i = run(line, ' ', 0);
    let d = digit_run(line, i);
    if i + 1 < line.len() && (line[i] == '-' || line[i] == '*' || line[i] == '+') && line[i + 1]
        == ' ' {
        Some((i, i + 1))
    } else if d > 0 && i + d + 1 < line.len() && (line[i + d] == '.' || line[i + d] == ')')
        && line[i + d + 1] == ' ' {
        Some((i, i + d + 1))
    } else {
        None
    }
}

/// Where the marker of a list item stands.
fn list_marker(v: &Vec<char>) -> (r: Option<(usize, usize)>)
    ensures
        match r {
            Some((a, b)) => list_mark(v@) == Some((a as int, b as int)) && a < b <= v@.len(),
            None => list_mark(v@) is None,
        },
{
    let n = v.len();
    let i = run_end(v, ' ', 0);
    if i < n && n - i > 1 && (v[i] == '-' || v[i] == '*' || v[i] == '+') && v[i + 1] == ' ' {
        return Some((i, i + 1));
    }
    let e = digits_end(v, i);
    if e > i && e < n && n - e > 1 && (v[e] == '.' || v[e] == ')') && v[e + 1] == ' ' {
        return Some((i, e + 1));
    }
    None
}

/// Whether a line opens a diff.
pub open spec fn diff_header(line: Seq<char>) -> bool {
    text::starts(line, "diff --git"@) || (text::starts(line, "@@"@) && text::contains(
        line.subrange("@@"@.len() as int, line.len() as int),
        "@@"@,
    ))
}

/// Whether a line opens a diff.
fn is_diff_header(line: &str, v: &Vec<char>) -> (r: bool)
    requires
        v@ == line@,
    ensures
        r == diff_header(line@),
{
    if starts_with(line, "diff --git") {
        return true;
    }
    if !starts_with(line, "@@") {
        return false;
    }
    let n = to_chars("@@").len();
    contains_text(from_chars(v, n, v.len()).as_str(), "@@")
}

/// Whether a line still belongs to a diff. An empty one does not: even the empty lines of a
/// diff have a space in front.
pub open spec fn continues(line: Seq<char>) -> bool {
    line.len() > 0 && (line[0] == ' ' || line[0] == '+' || line[0] == '-' || line[0] == '@'
        || line[0] == '\\' || text::starts(line, "diff --git"@) || text::starts(line, "index "@))
}

/// Whether a line still belongs to a diff.
fn continues_diff(line: &str, v: &Vec<char>) -> (r: bool)
    requires
        v@ == line@,
    ensures
        r == continues(line@),
{
    v.len() > 0 && (v[0] == ' ' || v[0] == '+' || v[0] == '-' || v[0] == '@' || v[0] == '\\'
        || starts_with(line, "diff --git") || starts_with(line, "index "))
}

/// The style of a line of a diff.
pub open spec fn diff_look(p: Palette, line: Seq<char>) -> Option<Style> {
    if line.len() > 0 && line[0] == '+' {
        Some(theme::coloured(p.diff_add))
    } else if line.len() > 0 && line[0] == '-' {
        Some(theme::coloured(p.diff_del))
    } else {
        None
    }
}

/// The style of a line of a diff. Whether it is one, is for the caller to know.
fn diff_style(p: &Palette, v: &Vec<char>) -> (r: Option<Style>)
    ensures
        r == diff_look(*p, v@),
{
    if v.len() == 0 {
        return None;
    }
    if v[0] == '+' {
        Some(diff_add_style(p))
    } else if v[0] == '-' {
        Some(diff_del_style(p))
    } else {
        None
    }
}

/// The fence that is open.
#[derive(Clone, Copy, PartialEq, Eq, Structural)]
pub struct Fence {
    /// The character of the fence: only the same one closes it.
    pub ch: char,
    /// How often it is repeated: only as many, or more, close it.
    pub len: usize,
    /// What lies between is a diff.
    pub diff: bool,
}

/// The fence that is open.
pub struct FenceView {
    pub ch: char,
    pub len: int,
    pub diff: bool,
}

/// What was read so far.
pub struct Reading {
    pub fence: Option<FenceView>,
    /// The lines are those of a diff.
    pub in_diff: bool,
}

/// The reading at the start.
pub open spec fn at_start() -> Reading {
    Reading { fence: None, in_diff: false }
}

/// Whether a word is `diff`, in small or capital letters.
pub open spec fn says_diff(s: Seq<char>) -> bool {
    s.len() == 4 && (s[0] == 'd' || s[0] == 'D') && (s[1] == 'i' || s[1] == 'I') && (s[2] == 'f'
        || s[2] == 'F') && (s[3] == 'f' || s[3] == 'F')
}

/// Whether a word is `diff`, in small or capital letters.
fn is_diff_word(s: &str) -> (r: bool)
    ensures
        r == says_diff(s@),
{
    let v = to_chars(s);
    v.len() == 4 && (v[0] == 'd' || v[0] == 'D') && (v[1] == 'i' || v[1] == 'I') && (v[2] == 'f'
        || v[2] == 'F') && (v[3] == 'f' || v[3] == 'F')
}

/// A line with one part in a style.
pub open spec fn parted(line: Seq<char>, from: int, to: int, style: Style) -> Seq<SpanView> {
    (if from > 0 {
        seq![theme::raw(line.subrange(0, from))]
    } else {
        Seq::empty()
    }) + seq![theme::in_style(line.subrange(from, to), style)] + (if to < line.len() {
        seq![theme::raw(line.subrange(to, line.len() as int))]
    } else {
        Seq::empty()
    })
}

/// A line with one part in a style. Every part is cut out of the line: together they are it.
fn split_styled(v: &Vec<char>, from: usize, to: usize, style: Style) -> (r: Vec<Span>)
    requires
        from <= to <= v@.len(),
    ensures
        theme::span_views(r@) == parted(v@, from as int, to as int, style),
{
    let mut r: Vec<Span> = Vec::new();
    if from > 0 {
        r.push(Span::raw(from_chars(v, 0, from)));
    }
    r.push(Span::styled(from_chars(v, from, to), style));
    if to < v.len() {
        r.push(Span::raw(from_chars(v, to, v.len())));
    }
    proof {
        assert(theme::span_views(r@) =~= parted(v@, from as int, to as int, style));
    }
    r
}

/// Whether a line closes a fence.
pub open spec fn closes(f: FenceView, line: Seq<char>) -> bool {
    fence_of(line) matches Some(m) && m.ch == f.ch && m.len >= f.len && m.info.len() == 0
}

/// Whether a line ends a fence without closing it. A heading or a header line does: one lost
/// fence must not swallow the rest of the text.
pub open spec fn breaks_out(f: FenceView, line: Seq<char>) -> bool {
    !closes(f, line) && (heading(line) || meta_key(line) is Some)
}

/// Whether a line, read outside of fences, is one of a diff.
pub open spec fn diffing(in_diff: bool, line: Seq<char>) -> bool {
    diff_header(line) || (in_diff && continues(line))
}

/// What a line looks like outside of fences.
pub open spec fn open_look(p: Palette, in_diff: bool, line: Seq<char>) -> Seq<SpanView> {
    if fence_of(line) is Some {
        seq![theme::in_style(line, theme::coloured(p.md_code))]
    } else if heading(line) {
        seq![theme::in_style(line, theme::bold_in(p.md_heading))]
    } else if let Some(n) = meta_key(line) {
        parted(line, 0, n, theme::bold_in(p.md_meta))
    } else if diff_look(p, line) is Some && diffing(in_diff, line) {
        seq![theme::in_style(line, diff_look(p, line)->0)]
    } else if let Some((a, b)) = list_mark(line) {
        parted(line, a, b, theme::coloured(p.md_list))
    } else {
        seq![theme::raw(line)]
    }
}

/// The reading after a line outside of fences.
pub open spec fn open_next(in_diff: bool, line: Seq<char>) -> Reading {
    if let Some(m) = fence_of(line) {
        Reading {
            fence: Some(FenceView { ch: m.ch, len: m.len, diff: says_diff(m.info) }),
            in_diff: false,
        }
    } else if heading(line) || meta_key(line) is Some {
        Reading { fence: None, in_diff: false }
    } else {
        Reading { fence: None, in_diff: diffing(in_diff, line) }
    }
}

/// What a line looks like.
pub open spec fn look(p: Palette, st: Reading, line: Seq<char>) -> Seq<SpanView> {
    match st.fence {
        Some(f) => if breaks_out(f, line) {
            open_look(p, st.in_diff, line)
        } else if diff_look(p, line) is Some && f.diff && !closes(f, line) {
            seq![theme::in_style(line, diff_look(p, line)->0)]
        } else {
            seq![theme::in_style(line, theme::coloured(p.md_code))]
        },
        None => open_look(p, st.in_diff, line),
    }
}

/// The reading after a line.
pub open spec fn next(st: Reading, line: Seq<char>) -> Reading {
    match st.fence {
        Some(f) => if breaks_out(f, line) {
            open_next(st.in_diff, line)
        } else if closes(f, line) {
            Reading { fence: None, in_diff: st.in_diff }
        } else {
            st
        },
        None => open_next(st.in_diff, line),
    }
}

/// The reading after the first `n` lines.
pub open spec fn read_upto(lines: Seq<Seq<char>>, n: int) -> Reading
    decreases n,
{
    if n <= 0 {
        at_start()
    } else {
        next(read_upto(lines, n - 1), lines[n - 1])
    }
}

/// What the lines of a text look like.
pub open spec fn looks(p: Palette, lines: Seq<Seq<char>>) -> Seq<LineView> {
    Seq::new(
        lines.len(),
        |i: int| LineView { spans: look(p, read_upto(lines, i), lines[i]), style: theme::plain() },
    )
}

/// The open fence as it is in the model.
spec fn fence_view(o: Option<Fence>) -> Option<FenceView> {
    match o {
        Some(f) => Some(FenceView { ch: f.ch, len: f.len as int, diff: f.diff }),
        None => None,
    }
}

/// A whole line in one style.
fn whole(line: &str, style: Style) -> (r: Vec<Span>)
    ensures
        theme::span_views(r@) == seq![theme::in_style(line@, style)],
{
    let mut r: Vec<Span> = Vec::new();
    r.push(Span::styled(copy_text(line), style));
    proof {
        assert(theme::span_views(r@) =~= seq![theme::in_style(line@, style)]);
    }
    r
}

/// What a line looks like outside of fences, and the reading after it.
fn paint_open(p: &Palette, in_diff: bool, line: &str, v: &Vec<char>) -> (r: (
    Vec<Span>,
    Option<Fence>,
    bool,
))
    requires
        v@ == line@,
    ensures
        theme::span_views(r.0@) == open_look(*p, in_diff, line@),
        (Reading { fence: fence_view(r.1), in_diff: r.2 }) == open_next(in_diff, line@),
{
    let now = is_diff_header(line, v) || (in_diff && continues_diff(line, v));
    if let Some(m) = fence_marker(v) {
        let diff = is_diff_word(m.info.as_str());
        return (whole(line, md_code_style(p)), Some(Fence { ch: m.ch, len: m.len, diff }), false);
    }
    if heading_hashes(v).is_some() {
        return (whole(line, md_heading_style(p)), None, false);
    }
    if let Some(n) = meta_key_len(line, v) {
        return (split_styled(v, 0, n, md_meta_key_style(p)), None, false);
    }
    if now {
        if let Some(st) = diff_style(p, v) {
            return (whole(line, st), None, now);
        }
    }
    if let Some((a, b)) = list_marker(v) {
        return (split_styled(v, a, b, md_list_marker_style(p)), None, now);
    }
    (whole(line, Style::default()), None, now)
}

/// What a line looks like, and the reading after it.
fn paint(p: &Palette, fence: Option<Fence>, in_diff: bool, line: &str) -> (r: (
    Vec<Span>,
    Option<Fence>,
    bool,
))
    ensures
        theme::span_views(r.0@) == look(*p, Reading { fence: fence_view(fence), in_diff }, line@),
        (Reading { fence: fence_view(r.1), in_diff: r.2 }) == next(
            Reading { fence: fence_view(fence), in_diff },
            line@,
        ),
{
    let v = to_chars(line);
    if let Some(f) = fence {
        let closing = match fence_marker(&v) {
            Some(m) => m.ch == f.ch && m.len >= f.len && m.info.as_str().is_empty(),
            None => false,
        };
        if closing || !(heading_hashes(&v).is_some() || meta_key_len(line, &v).is_some()) {
            let after = if closing {
                None
            } else {
                Some(f)
            };
            if f.diff && !closing {
                if let Some(st) = diff_style(p, &v) {
                    return (whole(line, st), after, in_diff);
                }
            }
            return (whole(line, md_code_style(p)), after, in_diff);
        }
    }
    paint_open(p, in_diff, line, &v)
}

/// What the lines of a text look like. The characters of every line stay what they are.
/// Added and deleted lines have their colours only between fences that say `diff`, and after
/// the header of a diff: a dash at the start of a line of prose is a list.
pub fn highlight_pager(p: &Palette, lines: &Vec<String>) -> (r: Vec<Line>)
    ensures
        theme::line_views(r@) == looks(*p, text::texts(lines@)),
{
    let ghost ts = text::texts(lines@);
    let mut out: Vec<Line> = Vec::new();
    let mut fence: Option<Fence> = None;
    let mut in_diff = false;
    let mut i: usize = 0;
    while i < lines.len()
        invariant
            i <= lines@.len(),
            ts == text::texts(lines@),
            ts.len() == lines@.len(),
            out@.len() == i,
            forall|j: int| 0 <= j < i ==> #[trigger] out@[j]@ == looks(*p, ts)[j],
            (Reading { fence: fence_view(fence), in_diff }) == read_upto(ts, i as int),
        decreases lines@.len() - i,
    {
        proof {
            assert(ts[i as int] == lines@[i as int]@);
        }
        let (spans, f, d) = paint(p, fence, in_diff, lines[i].as_str());
        let ghost before = out@;
        out.push(Line::new(spans));
        fence = f;
        in_diff = d;
        proof {
            assert(out@[i as int]@ == looks(*p, ts)[i as int]);
            assert forall|j: int| 0 <= j < i + 1 implies #[trigger] out@[j]@ == looks(*p, ts)[j] by {
                if j < i {
                    assert(out@[j] == before[j]);
                }
            }
        }
        i += 1;
    }
    proof {
        assert(theme::line_views(out@) =~= looks(*p, ts));
    }
    out
}

/// The repetition of a character stays within the line.
proof fn lemma_run(s: Seq<char>, c: char, from: int)
    requires
        0 <= from <= s.len(),
    ensures
        0 <= run(s, c, from) <= s.len() - from,
    decreases s.len() - from,
{
    if from < s.len() && s[from] == c {
        lemma_run(s, c, from + 1);
    }
}

/// The digits stay within the line.
proof fn lemma_digit_run(s: Seq<char>, from: int)
    requires
        0 <= from <= s.len(),
    ensures
        0 <= digit_run(s, from) <= s.len() - from,
    decreases s.len() - from,
{
    if from < s.len() && '0' <= s[from] <= '9' {
        lemma_digit_run(s, from + 1);
    }
}

/// A whole line in one style has the characters of the line.
proof fn lemma_whole(line: Seq<char>, style: Style)
    ensures
        theme::characters(seq![theme::in_style(line, style)]) == line,
{
    let s = seq![theme::in_style(line, style)];
    assert(s.drop_last() =~= Seq::empty());
    assert(theme::characters(s.drop_last()) =~= Seq::<char>::empty());
    assert(theme::characters(s) =~= line);
}

/// A line in parts has the characters of the line.
proof fn lemma_parted(line: Seq<char>, from: int, to: int, style: Style)
    requires
        0 <= from <= to <= line.len(),
    ensures
        theme::characters(parted(line, from, to, style)) == line,
{
    reveal_with_fuel(theme::characters, 4);
    let head = if from > 0 {
        seq![theme::raw(line.subrange(0, from))]
    } else {
        Seq::<SpanView>::empty()
    };
    let mid = head + seq![theme::in_style(line.subrange(from, to), style)];
    assert(mid.drop_last() =~= head);
    assert(head.drop_last() =~= Seq::empty() || from <= 0);
    assert(theme::characters(head) =~= line.subrange(0, from));
    assert(theme::characters(mid) =~= line.subrange(0, to));
    if to < line.len() {
        let all = mid + seq![theme::raw(line.subrange(to, line.len() as int))];
        assert(all.drop_last() =~= mid);
        assert(parted(line, from, to, style) =~= all);
        assert(theme::characters(all) =~= line);
    } else {
        assert(parted(line, from, to, style) =~= mid);
        assert(line.subrange(0, to) =~= line);
    }
}

/// Styles are added and no character is touched: whatever was read before, the characters of a
/// line on the screen are those of the line.
pub proof fn highlighting_keeps_the_characters(p: Palette, st: Reading, line: Seq<char>)
    ensures
        theme::characters(look(p, st, line)) == line,
{
    let i = run(line, ' ', 0);
    lemma_run(line, ' ', 0);
    lemma_digit_run(line, i);
    lemma_whole(line, theme::coloured(p.md_code));
    lemma_whole(line, theme::bold_in(p.md_heading));
    lemma_whole(line, theme::plain());
    lemma_whole(line, theme::coloured(p.diff_add));
    lemma_whole(line, theme::coloured(p.diff_del));
    if let Some(n) = meta_key(line) {
        lemma_parted(line, 0, n, theme::bold_in(p.md_meta));
    }
    if let Some((a, b)) = list_mark(line) {
        lemma_parted(line, a, b, theme::coloured(p.md_list));
    }
}

/// A highlighted page has the lines of the page, each with its own characters.
pub proof fn highlighting_keeps_the_page(p: Palette, lines: Seq<Seq<char>>)
    ensures
        looks(p, lines).len() == lines.len(),
        forall|i: int|
            0 <= i < lines.len() ==> theme::characters((#[trigger] looks(p, lines)[i]).spans)
                == lines[i],
{
    assert forall|i: int| 0 <= i < lines.len() implies theme::characters(
        (#[trigger] looks(p, lines)[i]).spans,
    ) == lines[i] by {
        highlighting_keeps_the_characters(p, read_upto(lines, i), lines[i]);
    }
}

/// Outside of a diff no line has the colours of one, however it starts: whatever those colours
/// are, the line looks the same.
pub proof fn prose_is_never_coloured_as_a_diff(
    p: Palette,
    q: Palette,
    st: Reading,
    line: Seq<char>,
)
    requires
        !diffing(st.in_diff, line),
        st.fence matches Some(f) ==> !f.diff,
        q == (Palette { diff_add: q.diff_add, diff_del: q.diff_del, ..p }),
    ensures
        look(p, st, line) == look(q, st, line),
{
}

/// A heading ends every fence, closed or not: a lost fence does not swallow the rest.
pub proof fn a_heading_ends_every_fence(p: Palette, st: Reading, line: Seq<char>)
    requires
        heading(line),
    ensures
        next(st, line).fence is None,
        look(p, st, line) == seq![theme::in_style(line, theme::bold_in(p.md_heading))],
{
    lemma_run(line, '#', 0);
    assert(line[0] == '#');
    assert(run(line, ' ', 0) == 0);
    assert(fence_of(line) is None);
}

} // verus!
