//! What the colours of the dashboard mean. Everything else only takes a style from here.
//!
//! A style never changes a character, and a colour stands for one of six meanings: the status
//! of a task, the state of a pane, a blocker, the focus, a warning, and, in the full text of a
//! task alone, the syntax. No colour ever says that something may be removed.

use crate::blocker::Blocker;
use crate::live::Liveness;
use crate::text;
use crate::text::{same, trimmed};
use vstd::prelude::*;
use vstd::string::*;

verus! {

/// A colour of the terminal.
#[derive(Clone, Copy, Debug, PartialEq, Eq, Structural)]
pub enum Color {
    Cyan,
    Green,
    Red,
    Yellow,
    DarkGray,
    Blue,
    Magenta,
    Rgb(u8, u8, u8),
}

/// How a text looks.
#[derive(Clone, Copy, Debug, PartialEq, Eq, Structural)]
pub struct Style {
    pub fg: Option<Color>,
    pub bg: Option<Color>,
    pub bold: bool,
    /// It takes nothing from what lies below it.
    pub reset: bool,
}

/// How a border looks.
#[derive(Clone, Copy, Debug, PartialEq, Eq, Structural)]
pub enum BorderType {
    Plain,
    Thick,
}

/// The look of a text without a style.
pub open spec fn plain() -> Style {
    Style { fg: None, bg: None, bold: false, reset: false }
}

/// The look of a text in a colour.
pub open spec fn coloured(c: Color) -> Style {
    Style { fg: Some(c), ..plain() }
}

/// The look of a bold text in a colour.
pub open spec fn bold_in(c: Color) -> Style {
    Style { fg: Some(c), bold: true, ..plain() }
}

impl Default for Style {
    fn default() -> (r: Self)
        ensures
            r == plain(),
    {
        Style { fg: None, bg: None, bold: false, reset: false }
    }
}

impl Style {
    /// The style with a foreground.
    pub fn fg(self, c: Color) -> (r: Self)
        ensures
            r == (Style { fg: Some(c), ..self }),
    {
        Style { fg: Some(c), bg: self.bg, bold: self.bold, reset: self.reset }
    }

    /// The style with a background.
    pub fn bg(self, c: Color) -> (r: Self)
        ensures
            r == (Style { bg: Some(c), ..self }),
    {
        Style { fg: self.fg, bg: Some(c), bold: self.bold, reset: self.reset }
    }

    /// The style in bold.
    pub fn bold(self) -> (r: Self)
        ensures
            r == (Style { bold: true, ..self }),
    {
        Style { fg: self.fg, bg: self.bg, bold: true, reset: self.reset }
    }
}

/// A text in one style.
#[derive(Clone, Debug, PartialEq, Eq)]
pub struct Span {
    pub text: String,
    pub style: Style,
}

/// A text in one style.
pub struct SpanView {
    pub text: Seq<char>,
    pub style: Style,
}

impl View for Span {
    type V = SpanView;

    open spec fn view(&self) -> SpanView {
        SpanView { text: self.text@, style: self.style }
    }
}

/// A line of the screen. Its own style lies below those of its spans.
#[derive(Clone, Debug, PartialEq, Eq)]
pub struct Line {
    pub spans: Vec<Span>,
    pub style: Style,
}

/// A line of the screen.
#[verifier::ext_equal]
pub struct LineView {
    pub spans: Seq<SpanView>,
    pub style: Style,
}

/// The spans of a line.
pub open spec fn span_views(v: Seq<Span>) -> Seq<SpanView> {
    v.map_values(|s: Span| s@)
}

impl View for Line {
    type V = LineView;

    open spec fn view(&self) -> LineView {
        LineView { spans: span_views(self.spans@), style: self.style }
    }
}

/// The lines of a list.
pub open spec fn line_views(v: Seq<Line>) -> Seq<LineView> {
    v.map_values(|l: Line| l@)
}

/// A text without a style.
pub open spec fn raw(s: Seq<char>) -> SpanView {
    SpanView { text: s, style: plain() }
}

/// A text in a style.
pub open spec fn in_style(s: Seq<char>, style: Style) -> SpanView {
    SpanView { text: s, style }
}

/// A line of one text without a style.
pub open spec fn raw_line(s: Seq<char>) -> LineView {
    LineView { spans: seq![raw(s)], style: plain() }
}

/// The characters of a line, whatever they look like.
pub open spec fn characters(spans: Seq<SpanView>) -> Seq<char>
    decreases spans.len(),
{
    if spans.len() == 0 {
        Seq::empty()
    } else {
        characters(spans.drop_last()) + spans.last().text
    }
}

impl Span {
    /// A text without a style.
    pub fn raw(s: String) -> (r: Self)
        ensures
            r@ == raw(s@),
    {
        Span { text: s, style: Style::default() }
    }

    /// A text in a style.
    pub fn styled(s: String, style: Style) -> (r: Self)
        ensures
            r@ == in_style(s@, style),
    {
        Span { text: s, style }
    }
}

impl Line {
    /// A line of spans.
    pub fn new(spans: Vec<Span>) -> (r: Self)
        ensures
            r@ == (LineView { spans: span_views(spans@), style: plain() }),
    {
        Line { spans, style: Style::default() }
    }

    /// A line of one text without a style.
    pub fn raw(s: String) -> (r: Self)
        ensures
            r@ == raw_line(s@),
    {
        let mut spans: Vec<Span> = Vec::new();
        spans.push(Span::raw(s));
        proof {
            assert(span_views(spans@) =~= seq![raw(s@)]);
        }
        Line { spans, style: Style::default() }
    }

    /// The line in a style.
    pub fn style(self, style: Style) -> (r: Self)
        ensures
            r@ == (LineView { style, ..self@ }),
    {
        Line { spans: self.spans, style }
    }

    /// The characters of the line.
    pub fn text(&self) -> (r: String)
        ensures
            r@ == characters(self@.spans),
    {
        let mut s = String::new();
        let mut i: usize = 0;
        let ghost vs = span_views(self.spans@);
        proof {
            assert(vs.take(0) =~= Seq::empty());
        }
        while i < self.spans.len()
            invariant
                i <= self.spans@.len(),
                vs == span_views(self.spans@),
                s@ == characters(vs.take(i as int)),
            decreases self.spans@.len() - i,
        {
            proof {
                assert(vs.take(i + 1).drop_last() =~= vs.take(i as int));
                assert(vs.take(i + 1).last() == vs[i as int]);
                assert(vs[i as int] == self.spans@[i as int]@);
            }
            s.append(self.spans[i].text.as_str());
            i += 1;
        }
        proof {
            assert(vs.take(i as int) =~= vs);
        }
        s
    }
}

/// The colour of each meaning.
#[derive(Clone, Copy, Debug, PartialEq, Eq, Structural)]
pub struct Palette {
    pub running: Color,
    pub completed: Color,
    pub failed: Color,
    /// Queued and delivered: not begun yet.
    pub pending: Color,
    pub live: Color,
    pub dead: Color,
    pub blocked: Color,
    /// Nothing here needs to be looked at now.
    pub dim: Color,
    /// The background of the selected row.
    pub selected_bg: Color,
    pub warning: Color,
    pub md_heading: Color,
    pub md_code: Color,
    pub md_list: Color,
    pub md_meta: Color,
    pub diff_add: Color,
    pub diff_del: Color,
}

impl Palette {
    /// The sixteen colours that every terminal has.
    pub open spec fn sixteen() -> Palette {
        Palette {
            running: Color::Cyan,
            completed: Color::Green,
            failed: Color::Red,
            pending: Color::Yellow,
            live: Color::Green,
            dead: Color::Red,
            blocked: Color::Red,
            dim: Color::DarkGray,
            selected_bg: Color::Blue,
            warning: Color::Yellow,
            md_heading: Color::Magenta,
            md_code: Color::Cyan,
            md_list: Color::Yellow,
            md_meta: Color::Blue,
            diff_add: Color::Green,
            diff_del: Color::Red,
        }
    }

    /// The colours of a terminal with 24 bits.
    pub open spec fn full() -> Palette {
        Palette {
            running: Color::Rgb(0x56, 0xB6, 0xC2),
            completed: Color::Rgb(0x98, 0xC3, 0x79),
            failed: Color::Rgb(0xE0, 0x6C, 0x75),
            pending: Color::Rgb(0xE5, 0xC0, 0x7B),
            live: Color::Rgb(0x98, 0xC3, 0x79),
            dead: Color::Rgb(0xE0, 0x6C, 0x75),
            blocked: Color::Rgb(0xE0, 0x6C, 0x75),
            dim: Color::Rgb(0x5C, 0x63, 0x70),
            selected_bg: Color::Rgb(0x2C, 0x4F, 0x7C),
            warning: Color::Rgb(0xE5, 0xC0, 0x7B),
            md_heading: Color::Rgb(0xC6, 0x78, 0xDD),
            md_code: Color::Rgb(0x56, 0xB6, 0xC2),
            md_list: Color::Rgb(0xE5, 0xC0, 0x7B),
            md_meta: Color::Rgb(0x61, 0xAF, 0xEF),
            diff_add: Color::Rgb(0x98, 0xC3, 0x79),
            diff_del: Color::Rgb(0xE0, 0x6C, 0x75),
        }
    }

    /// The sixteen colours that every terminal has.
    pub fn ansi16() -> (r: Self)
        ensures
            r == Palette::sixteen(),
    {
        Palette {
            running: Color::Cyan,
            completed: Color::Green,
            failed: Color::Red,
            pending: Color::Yellow,
            live: Color::Green,
            dead: Color::Red,
            blocked: Color::Red,
            dim: Color::DarkGray,
            selected_bg: Color::Blue,
            warning: Color::Yellow,
            md_heading: Color::Magenta,
            md_code: Color::Cyan,
            md_list: Color::Yellow,
            md_meta: Color::Blue,
            diff_add: Color::Green,
            diff_del: Color::Red,
        }
    }

    /// The colours of a terminal with 24 bits. Each is recognisably the one of the sixteen that
    /// it stands for, and the background is dark enough to read every one of them on it.
    pub fn truecolor() -> (r: Self)
        ensures
            r == Palette::full(),
    {
        Palette {
            running: Color::Rgb(0x56, 0xB6, 0xC2),
            completed: Color::Rgb(0x98, 0xC3, 0x79),
            failed: Color::Rgb(0xE0, 0x6C, 0x75),
            pending: Color::Rgb(0xE5, 0xC0, 0x7B),
            live: Color::Rgb(0x98, 0xC3, 0x79),
            dead: Color::Rgb(0xE0, 0x6C, 0x75),
            blocked: Color::Rgb(0xE0, 0x6C, 0x75),
            dim: Color::Rgb(0x5C, 0x63, 0x70),
            selected_bg: Color::Rgb(0x2C, 0x4F, 0x7C),
            warning: Color::Rgb(0xE5, 0xC0, 0x7B),
            md_heading: Color::Rgb(0xC6, 0x78, 0xDD),
            md_code: Color::Rgb(0x56, 0xB6, 0xC2),
            md_list: Color::Rgb(0xE5, 0xC0, 0x7B),
            md_meta: Color::Rgb(0x61, 0xAF, 0xEF),
            diff_add: Color::Rgb(0x98, 0xC3, 0x79),
            diff_del: Color::Rgb(0xE0, 0x6C, 0x75),
        }
    }
}

/// Whether a value of `COLORTERM` promises 24 bits.
pub open spec fn promises_full(colorterm: Option<Seq<char>>) -> bool {
    match colorterm {
        Some(s) => text::trim(s) == "truecolor"@ || text::trim(s) == "24bit"@,
        None => false,
    }
}

/// The palette for a value of `COLORTERM`. Anything but the two words that promise 24 bits gets
/// the sixteen colours: a terminal that cannot show the others would spill their codes.
pub fn detect(colorterm: Option<&str>) -> (r: Palette)
    ensures
        r == (if promises_full(crate::live::opt_str(colorterm)) {
            Palette::full()
        } else {
            Palette::sixteen()
        }),
{
    match colorterm {
        Some(s) => {
            let t = trimmed(s);
            if same(t.as_str(), "truecolor") || same(t.as_str(), "24bit") {
                Palette::truecolor()
            } else {
                Palette::ansi16()
            }
        },
        None => Palette::ansi16(),
    }
}

/// The foregrounds that can stand on the background of the selected row.
pub open spec fn foregrounds(p: Palette) -> Seq<Color> {
    seq![
        p.running,
        p.completed,
        p.failed,
        p.pending,
        p.live,
        p.dead,
        p.blocked,
        p.dim,
        p.warning,
    ]
}

/// In either palette no text can vanish on the background of the selected row, what has to be
/// told apart on one screen has different colours, and a failure looks like a dead pane and a
/// success like a live one.
pub proof fn palettes_can_be_read(p: Palette)
    requires
        p == Palette::sixteen() || p == Palette::full(),
    ensures
        forall|i: int| 0 <= i < foregrounds(p).len() ==> #[trigger] foregrounds(p)[i] != p.selected_bg,
        p.running != p.completed,
        p.running != p.failed,
        p.running != p.pending,
        p.running != p.dim,
        p.completed != p.failed,
        p.completed != p.pending,
        p.completed != p.dim,
        p.failed != p.pending,
        p.failed != p.dim,
        p.pending != p.dim,
        p.failed == p.dead,
        p.completed == p.live,
{
}

/// The style of a status.
pub open spec fn status_look(p: Palette, status: Seq<char>) -> Style {
    if status == "running"@ {
        coloured(p.running)
    } else if status == "completed"@ {
        coloured(p.completed)
    } else if status == "failed"@ {
        coloured(p.failed)
    } else if status == "queued"@ || status == "delivered"@ {
        coloured(p.pending)
    } else if status == "cancelled"@ {
        coloured(p.dim)
    } else {
        plain()
    }
}

/// The style of a status. One that is not known has no colour rather than a wrong one.
pub fn status_style(p: &Palette, status: &str) -> (r: Style)
    ensures
        r == status_look(*p, status@),
{
    if same(status, "running") {
        Style::default().fg(p.running)
    } else if same(status, "completed") {
        Style::default().fg(p.completed)
    } else if same(status, "failed") {
        Style::default().fg(p.failed)
    } else if same(status, "queued") || same(status, "delivered") {
        Style::default().fg(p.pending)
    } else if same(status, "cancelled") {
        Style::default().fg(p.dim)
    } else {
        Style::default()
    }
}

/// The style of a pane's state.
pub open spec fn liveness_look(p: Palette, l: Liveness) -> Style {
    match l {
        Liveness::Live => coloured(p.live),
        Liveness::Dead => coloured(p.dead),
        Liveness::Unknown => coloured(p.dim),
    }
}

/// The style of a pane's state. Unknown is not dead, and does not look like it.
pub fn liveness_style(p: &Palette, l: Liveness) -> (r: Style)
    ensures
        r == liveness_look(*p, l),
{
    match l {
        Liveness::Live => Style::default().fg(p.live),
        Liveness::Dead => Style::default().fg(p.dead),
        Liveness::Unknown => Style::default().fg(p.dim),
    }
}

/// The style of a blocker.
pub open spec fn blocker_look(p: Palette, b: Blocker) -> Option<Style> {
    if b == Blocker::Prompt {
        Some(bold_in(p.blocked))
    } else {
        None
    }
}

/// The style of a blocker. Only a worker that is really held up has one: no blocker, a person
/// who is reading, and no signal at all are no alarm.
pub fn blocker_style(p: &Palette, b: Blocker) -> (r: Option<Style>)
    ensures
        r == blocker_look(*p, b),
{
    match b {
        Blocker::Prompt => Some(Style::default().fg(p.blocked).bold()),
        Blocker::Nothing | Blocker::Occluded | Blocker::Unknown => None,
    }
}

/// The style of a row that should be looked at first: bold, and no colour of its own.
pub fn attention_style() -> (r: Style)
    ensures
        r == (Style { bold: true, ..plain() }),
{
    Style::default().bold()
}

/// The style of the selected row.
pub open spec fn selected_look(p: Palette) -> Style {
    Style { bg: Some(p.selected_bg), ..plain() }
}

/// The style of the selected row: a background, so that the colours on it keep their meaning.
pub fn selected_row_style(p: &Palette) -> (r: Style)
    ensures
        r == selected_look(*p),
{
    Style::default().bg(p.selected_bg)
}

/// The kind of a panel's border.
pub fn panel_border_type(focused: bool) -> (r: BorderType)
    ensures
        r == (if focused {
            BorderType::Thick
        } else {
            BorderType::Plain
        }),
{
    if focused {
        BorderType::Thick
    } else {
        BorderType::Plain
    }
}

/// The style of a panel's border: those without the focus step back.
pub fn panel_border_style(p: &Palette, focused: bool) -> (r: Style)
    ensures
        r == (if focused {
            Style { bold: true, ..plain() }
        } else {
            coloured(p.dim)
        }),
{
    if focused {
        Style::default().bold()
    } else {
        Style::default().fg(p.dim)
    }
}

/// The style of a panel's title. It takes nothing from the border: what a panel is called is
/// as readable without the focus as with it.
pub fn panel_title_style(focused: bool) -> (r: Style)
    ensures
        r == (Style { bold: focused, reset: true, ..plain() }),
{
    Style { fg: None, bg: None, bold: focused, reset: true }
}

/// The style of the scroll bar.
pub fn scrollbar_style(p: &Palette) -> (r: Style)
    ensures
        r == coloured(p.dim),
{
    Style::default().fg(p.dim)
}

/// The style of what is out of date: it asks for a look, as a warning does.
pub fn stale_style(p: &Palette) -> (r: Style)
    ensures
        r == bold_in(p.warning),
{
    warning_style(p)
}

/// The style of a warning.
pub fn warning_style(p: &Palette) -> (r: Style)
    ensures
        r == bold_in(p.warning),
{
    Style::default().fg(p.warning).bold()
}

/// The style of a heading.
pub fn md_heading_style(p: &Palette) -> (r: Style)
    ensures
        r == bold_in(p.md_heading),
{
    Style::default().fg(p.md_heading).bold()
}

/// The style of code between fences, and of the fences.
pub fn md_code_style(p: &Palette) -> (r: Style)
    ensures
        r == coloured(p.md_code),
{
    Style::default().fg(p.md_code)
}

/// The style of the marker of a list item.
pub fn md_list_marker_style(p: &Palette) -> (r: Style)
    ensures
        r == coloured(p.md_list),
{
    Style::default().fg(p.md_list)
}

/// The style of the key of a header line.
pub fn md_meta_key_style(p: &Palette) -> (r: Style)
    ensures
        r == bold_in(p.md_meta),
{
    Style::default().fg(p.md_meta).bold()
}

/// The style of an added line.
pub fn diff_add_style(p: &Palette) -> (r: Style)
    ensures
        r == coloured(p.diff_add),
{
    Style::default().fg(p.diff_add)
}

/// The style of a deleted line.
pub fn diff_del_style(p: &Palette) -> (r: Style)
    ensures
        r == coloured(p.diff_del),
{
    Style::default().fg(p.diff_del)
}

} // verus!
