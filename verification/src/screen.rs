//! Where everything stands on the screen.

use crate::app::{PageSizes, PeekView};
use crate::app;
use crate::rows::TASK_ROW_H;
use crate::text;
use crate::text::{to_chars, truncate_with_ellipsis};
use vstd::prelude::*;

verus! {

/// The width of a task id.
pub const TASK_ID_W: u16 = 21;

/// The least width of the lists: the mark of the selection, the glyph of a row, a whole task
/// id and two borders. A task id is never cut.
pub const MID_MIN_W: u16 = 27;

/// The width of the detail panel: the longest command and two borders.
pub const DETAIL_W: u16 = 45;

/// The least width on which the lists and the detail panel stand side by side.
pub const TWO_COL_MIN_W: u16 = 72;

/// The height of the detail panel below the lists: the longest selection and two borders.
pub const DETAIL_STRIP_H: u16 = 13;

/// How many warnings are shown at once.
pub const WARN_ROWS: usize = 3;

/// A part of the screen.
#[derive(Clone, Copy, PartialEq, Eq, Debug, Structural)]
pub struct Rect {
    pub x: u16,
    pub y: u16,
    pub width: u16,
    pub height: u16,
}

impl Rect {
    /// Whether its far corner has coordinates too.
    pub open spec fn fits(self) -> bool {
        self.x + self.width <= u16::MAX && self.y + self.height <= u16::MAX
    }

    /// Whether it lies within another.
    pub open spec fn inside(self, area: Rect) -> bool {
        &&& area.x <= self.x
        &&& area.y <= self.y
        &&& self.x + self.width <= area.x + area.width
        &&& self.y + self.height <= area.y + area.height
    }
}

/// How much of the space a part takes.
#[derive(Clone, Copy, PartialEq, Eq, Debug, Structural)]
pub enum Constraint {
    Min(u16),
    Length(u16),
    Percentage(u16),
}

/// The lengths of two parts that share a length. A second part of a fixed length has it as far
/// as the first one keeps its least length, and the first has the rest; of two halves the first
/// has the odd one. Of other constraints nothing is said.
pub open spec fn lengths(c0: Constraint, c1: Constraint, size: int) -> Option<(int, int)> {
    match (c0, c1) {
        (Constraint::Min(a), Constraint::Length(b)) => if a <= i16::MAX {
            let second = least(b as int, most(size - a, 0));
            Some((size - second, second))
        } else {
            None
        },
        (Constraint::Percentage(a), Constraint::Percentage(b)) => if a == 50 && b == 50 {
            Some(((size + 1) / 2, size / 2))
        } else {
            None
        },
        _ => None,
    }
}

/// `ratatui::layout::Layout::vertical` and `areas`: splits an area into two, one above the
/// other and with nothing between them, whose heights follow from the constraints. Each part
/// has the place and width of the area across the split.
#[verifier::external_body]
fn split_vertical(area: Rect, above: Constraint, below: Constraint) -> (r: (Rect, Rect))
    requires
        area.fits(),
    ensures
        lengths(above, below, area.height as int) matches Some((a, b)) ==> {
            &&& r.0 == (Rect { height: a as u16, ..area })
            &&& r.1 == (Rect { y: (area.y + a) as u16, height: b as u16, ..area })
        },
{
    let outside = |c: Constraint| match c {
        Constraint::Min(n) => ratatui::layout::Constraint::Min(n),
        Constraint::Length(n) => ratatui::layout::Constraint::Length(n),
        Constraint::Percentage(n) => ratatui::layout::Constraint::Percentage(n),
    };
    let whole = ratatui::layout::Rect::new(area.x, area.y, area.width, area.height);
    let parts = [outside(above), outside(below)];
    let [a, b] = ratatui::layout::Layout::vertical(parts).areas(whole);
    let first = Rect { x: a.x, y: a.y, width: a.width, height: a.height };
    (first, Rect { x: b.x, y: b.y, width: b.width, height: b.height })
}

/// `ratatui::layout::Layout::horizontal` and `areas`: splits an area into two, side by side and
/// with nothing between them, whose widths follow from the constraints. Each part has the place
/// and height of the area across the split.
#[verifier::external_body]
fn split_horizontal(area: Rect, left: Constraint, right: Constraint) -> (r: (Rect, Rect))
    requires
        area.fits(),
    ensures
        lengths(left, right, area.width as int) matches Some((a, b)) ==> {
            &&& r.0 == (Rect { width: a as u16, ..area })
            &&& r.1 == (Rect { x: (area.x + a) as u16, width: b as u16, ..area })
        },
{
    let outside = |c: Constraint| match c {
        Constraint::Min(n) => ratatui::layout::Constraint::Min(n),
        Constraint::Length(n) => ratatui::layout::Constraint::Length(n),
        Constraint::Percentage(n) => ratatui::layout::Constraint::Percentage(n),
    };
    let whole = ratatui::layout::Rect::new(area.x, area.y, area.width, area.height);
    let parts = [outside(left), outside(right)];
    let [a, b] = ratatui::layout::Layout::horizontal(parts).areas(whole);
    let first = Rect { x: a.x, y: a.y, width: a.width, height: a.height };
    (first, Rect { x: b.x, y: b.y, width: b.width, height: b.height })
}

/// A number as far as a coordinate can hold it.
pub open spec fn fitted(v: int) -> int {
    if v > u16::MAX {
        u16::MAX as int
    } else {
        v
    }
}

/// A number as far as a coordinate can hold it.
pub fn fit_u16(v: usize) -> (r: u16)
    ensures
        r == fitted(v as int),
{
    if v > 65535 {
        65535
    } else {
        v as u16
    }
}

/// The height of the footer.
pub open spec fn footer_height(warnings: int, extra: int) -> int {
    fitted(
        3 + extra + (if warnings == 0 {
            0
        } else if warnings < WARN_ROWS {
            warnings + 1
        } else {
            WARN_ROWS + 1
        }),
    )
}

/// The height of the footer: three lines, the extra ones, and, where there are warnings, those
/// that are shown and a line on how to clear them. A line that is drawn without being counted
/// here would cover the last row of a panel.
pub fn footer_rows(warnings: usize, extra: usize) -> (r: u16)
    ensures
        r == footer_height(warnings as int, extra as int),
{
    let w: usize = if warnings == 0 {
        0
    } else if warnings < WARN_ROWS {
        warnings + 1
    } else {
        WARN_ROWS + 1
    };
    if extra > 65535 {
        65535
    } else {
        fit_u16(3 + extra + w)
    }
}

/// The parts of the screen.
#[derive(Clone, Copy, PartialEq, Eq, Debug, Structural)]
pub struct Areas {
    pub workers: Rect,
    pub tasks: Rect,
    pub detail: Rect,
    pub footer: Rect,
    /// The detail panel lies below the lists and has a fixed height: its lines must not wrap.
    pub detail_strip: bool,
}

/// An area split into two, one above the other.
pub open spec fn stacked(area: Rect, c0: Constraint, c1: Constraint) -> (Rect, Rect) {
    let (a, b) = lengths(c0, c1, area.height as int)->0;
    (
        Rect { height: a as u16, ..area },
        Rect { y: (area.y + a) as u16, height: b as u16, ..area },
    )
}

/// An area split into two, side by side.
pub open spec fn side_by_side(area: Rect, c0: Constraint, c1: Constraint) -> (Rect, Rect) {
    let (a, b) = lengths(c0, c1, area.width as int)->0;
    (
        Rect { width: a as u16, ..area },
        Rect { x: (area.x + a) as u16, width: b as u16, ..area },
    )
}

/// The parts of the screen. Neither the lists nor the detail panel are squeezed: where there is
/// no room for both side by side, the detail panel moves below.
pub open spec fn areas_of(area: Rect, warnings: int, extra: int) -> Areas {
    let strip = area.width < TWO_COL_MIN_W;
    let (main, footer) = stacked(
        area,
        Constraint::Min(3),
        Constraint::Length(footer_height(warnings, extra) as u16),
    );
    let (mid, detail) = if strip {
        stacked(main, Constraint::Min(6), Constraint::Length(DETAIL_STRIP_H))
    } else {
        side_by_side(main, Constraint::Min(MID_MIN_W), Constraint::Length(DETAIL_W))
    };
    let (workers, tasks) = stacked(mid, Constraint::Percentage(50), Constraint::Percentage(50));
    Areas { workers, tasks, detail, footer, detail_strip: strip }
}

/// The parts of the screen. Drawing and paging go by the same parts.
pub fn layout(area: Rect, warnings: usize, extra: usize) -> (r: Areas)
    requires
        area.fits(),
    ensures
        r == areas_of(area, warnings as int, extra as int),
{
    let footer_h = footer_rows(warnings, extra);
    let (main, footer) = split_vertical(area, Constraint::Min(3), Constraint::Length(footer_h));
    let strip = main.width < TWO_COL_MIN_W;
    let (mid, detail) = if strip {
        split_vertical(main, Constraint::Min(6), Constraint::Length(DETAIL_STRIP_H))
    } else {
        split_horizontal(main, Constraint::Min(MID_MIN_W), Constraint::Length(DETAIL_W))
    };
    let (workers, tasks) = split_vertical(
        mid,
        Constraint::Percentage(50),
        Constraint::Percentage(50),
    );
    Areas { workers, tasks, detail, footer, detail_strip: strip }
}

/// Every part lies within the screen, the lists stand one above the other, and the footer has
/// the lines that it needs wherever three more have room.
pub proof fn parts_lie_within_the_screen(area: Rect, warnings: int, extra: int)
    requires
        area.fits(),
        0 <= warnings,
        0 <= extra,
    ensures
        ({
            let a = areas_of(area, warnings, extra);
            &&& a.workers.inside(area)
            &&& a.tasks.inside(area)
            &&& a.detail.inside(area)
            &&& a.footer.inside(area)
            &&& a.workers.x == a.tasks.x && a.workers.width == a.tasks.width
            &&& a.workers.y + a.workers.height == a.tasks.y
            &&& a.footer.y + a.footer.height == area.y + area.height
            &&& area.height >= footer_height(warnings, extra) + 3 ==> a.footer.height
                == footer_height(warnings, extra)
        }),
{
}

/// On every screen that is wide enough for a task id, a whole one has room in the lists, and on
/// every screen that is wide enough for a command, a whole one has room in the detail panel. Side
/// by side the lists keep their least width and the detail panel its own; below each other both
/// have the whole width.
pub proof fn ids_and_commands_have_room(area: Rect, warnings: int, extra: int)
    requires
        area.fits(),
    ensures
        ({
            let a = areas_of(area, warnings, extra);
            &&& area.width >= MID_MIN_W ==> a.workers.width >= MID_MIN_W && a.tasks.width
                >= MID_MIN_W
            &&& area.width >= DETAIL_W ==> a.detail.width >= DETAIL_W
            &&& !a.detail_strip ==> a.detail.width == DETAIL_W
            &&& a.detail_strip ==> a.workers.width == area.width && a.tasks.width == area.width
                && a.detail.width == area.width
        }),
{
}

/// The lines within the borders.
pub open spec fn inner_height(h: u16) -> int {
    if h < 2 {
        0
    } else {
        h - 2
    }
}

/// The lines within the borders.
fn inner(h: u16) -> (r: u16)
    ensures
        r == inner_height(h),
{
    if h < 2 {
        0
    } else {
        h - 2
    }
}

/// How many lines the panels have, given where they stand.
fn page_sizes(workers: Rect, tasks: Rect, screen: Rect) -> (r: PageSizes)
    ensures
        r.workers == inner_height(workers.height),
        r.tasks == inner_height(tasks.height),
        r.pager == inner_height(screen.height),
{
    PageSizes {
        workers: inner(workers.height),
        tasks: inner(tasks.height),
        pager: inner(screen.height),
    }
}

/// How many lines the panels have. The full text of a task covers the whole screen.
pub fn panel_heights(area: Rect, warnings: usize, extra: usize) -> (r: PageSizes)
    requires
        area.fits(),
    ensures
        r.workers == inner_height(areas_of(area, warnings as int, extra as int).workers.height),
        r.tasks == inner_height(areas_of(area, warnings as int, extra as int).tasks.height),
        r.pager == inner_height(area.height),
{
    let a = layout(area, warnings, extra);
    page_sizes(a.workers, a.tasks, area)
}

/// How far a list is scrolled so that a line of it can be seen.
pub open spec fn offset_for(line: int, height: u16) -> int {
    let h = inner_height(height);
    if h == 0 || line < h {
        0
    } else {
        fitted(line + 1 - h)
    }
}

/// How far a list is scrolled so that a line of it can be seen: as little as possible.
pub fn scroll_offset(line: usize, area: Rect) -> (r: u16)
    ensures
        r == offset_for(line as int, area.height),
{
    let h: usize = inner(area.height) as usize;
    if h == 0 || line < h {
        0
    } else {
        fit_u16(line - h + 1)
    }
}

/// The line is always among those that are drawn, on every screen that has room for one line
/// and for every list that a coordinate can count.
pub proof fn scrolled_lines_can_be_seen(line: int, height: u16)
    requires
        0 <= line <= u16::MAX,
        inner_height(height) > 0,
    ensures
        offset_for(line, height) <= line < offset_for(line, height) + inner_height(height),
{
}

/// Whether the task list has a scroll bar: only where it does not fit.
pub open spec fn needs_bar(rows: int, height: u16) -> bool {
    rows * TASK_ROW_H > inner_height(height)
}

/// The scroll bar of the task list, as its length and position in lines; none where the list
/// fits, since an empty track would say nothing.
pub fn task_scrollbar(rows: usize, pos: usize, area: Rect) -> (r: Option<(usize, usize)>)
    requires
        rows * TASK_ROW_H <= usize::MAX,
        pos * TASK_ROW_H <= usize::MAX,
    ensures
        r == (if needs_bar(rows as int, area.height) {
            Some(((rows * TASK_ROW_H) as usize, (pos * TASK_ROW_H) as usize))
        } else {
            None
        }),
{
    let total: usize = rows * TASK_ROW_H;
    if total <= inner(area.height) as usize {
        None
    } else {
        Some((total, pos * TASK_ROW_H))
    }
}

/// How many columns a text takes on the screen.
pub uninterp spec fn width_of(s: Seq<char>) -> usize;

/// `ratatui::text::Line::from` a text, and its `width`: how many columns the text takes, a
/// function of the text alone.
#[verifier::external_body]
fn line_width(s: &str) -> (r: usize)
    ensures
        r == width_of(s@),
{
    ratatui::text::Line::from(s).width()
}

/// How many lines a text of a width takes in a column; an empty one takes one.
pub open spec fn wrapped_rows(width: int, column: int) -> int {
    if width == 0 {
        1
    } else {
        (width + column - 1) / column
    }
}

/// How many lines the texts of the first `n` widths take.
pub open spec fn rows_upto(widths: Seq<usize>, column: int, n: int) -> int
    decreases n,
{
    if n <= 0 {
        0
    } else {
        rows_upto(widths, column, n - 1) + wrapped_rows(widths[n - 1] as int, column)
    }
}

/// The smaller of two numbers.
pub open spec fn least(a: int, b: int) -> int {
    if a < b {
        a
    } else {
        b
    }
}

/// The larger of two numbers.
pub open spec fn most(a: int, b: int) -> int {
    if a < b {
        b
    } else {
        a
    }
}

/// Where a box stands that wants a width and a height, and whose lines have these widths: in
/// the middle, and as high as its lines need once they are wrapped.
pub open spec fn box_at(area: Rect, w: u16, h: u16, widths: Seq<usize>) -> Rect {
    let width = least(w as int, area.width as int);
    let column = most(width - 2, 1);
    let rows = rows_upto(widths, column, widths.len() as int);
    let height = least(most(h as int, fitted(rows + 2)), area.height as int);
    Rect {
        x: (area.x + (area.width - width) / 2) as u16,
        y: (area.y + (area.height - height) / 2) as u16,
        width: width as u16,
        height: height as u16,
    }
}

/// How many lines a text of a width takes in a column.
fn rows_for(width: usize, column: usize) -> (r: usize)
    requires
        column > 0,
    ensures
        r == wrapped_rows(width as int, column as int),
        r >= 1,
{
    if width == 0 {
        1
    } else {
        let q: usize = (width - 1) / column;
        proof {
            let w1 = width - 1;
            assert((w1 + column) / (column as int) == w1 / (column as int) + 1) by (nonlinear_arith)
                requires
                    column > 0,
                    w1 >= 0,
            ;
            assert(q <= w1) by (nonlinear_arith)
                requires
                    q == w1 / (column as int),
                    column > 0,
                    w1 >= 0,
            ;
        }
        q + 1
    }
}

/// The lines of all texts together, as far as a coordinate can hold them.
fn rows_in_all(widths: &Vec<usize>, column: usize) -> (r: usize)
    requires
        column > 0,
    ensures
        r == fitted(rows_upto(widths@, column as int, widths@.len() as int)),
        r <= 65535,
{
    let mut sum: usize = 0;
    let mut i: usize = 0;
    while i < widths.len()
        invariant
            i <= widths@.len(),
            column > 0,
            sum <= 65535,
            sum == fitted(rows_upto(widths@, column as int, i as int)),
            rows_upto(widths@, column as int, i as int) >= 0,
        decreases widths@.len() - i,
    {
        let n = rows_for(widths[i], column);
        if n >= 65535 - sum {
            sum = 65535;
        } else {
            sum = sum + n;
        }
        i += 1;
    }
    sum
}

/// Where a box stands, given the widths of its lines.
pub fn box_around(area: Rect, w: u16, h: u16, widths: &Vec<usize>) -> (r: Rect)
    requires
        area.fits(),
    ensures
        r == box_at(area, w, h, widths@),
        r.inside(area),
{
    let width: u16 = if w < area.width {
        w
    } else {
        area.width
    };
    let column: usize = if width > 3 {
        (width - 2) as usize
    } else {
        1
    };
    let rows = rows_in_all(widths, column);
    let need = fit_u16(rows + 2);
    let wanted: u16 = if h < need {
        need
    } else {
        h
    };
    let height: u16 = if wanted < area.height {
        wanted
    } else {
        area.height
    };
    Rect {
        x: area.x + (area.width - width) / 2,
        y: area.y + (area.height - height) / 2,
        width,
        height,
    }
}

/// The widths of texts.
pub open spec fn widths_of(lines: Seq<Seq<char>>) -> Seq<usize> {
    lines.map_values(|l: Seq<char>| width_of(l))
}

/// Where a box with texts stands. Lines that are too long are wrapped and not cut: a command
/// that is cut in half is no command.
pub fn popup(area: Rect, w: u16, h: u16, lines: &Vec<String>) -> (r: Rect)
    requires
        area.fits(),
    ensures
        r == box_at(area, w, h, widths_of(text::texts(lines@))),
        r.inside(area),
{
    let mut widths: Vec<usize> = Vec::new();
    let ghost want = widths_of(text::texts(lines@));
    let mut i: usize = 0;
    while i < lines.len()
        invariant
            i <= lines@.len(),
            want == widths_of(text::texts(lines@)),
            want.len() == lines@.len(),
            widths@ == want.take(i as int),
        decreases lines@.len() - i,
    {
        let n = line_width(lines[i].as_str());
        widths.push(n);
        proof {
            assert(text::texts(lines@)[i as int] == lines@[i as int]@);
            assert(want.take(i + 1) =~= want.take(i as int).push(n));
        }
        i += 1;
    }
    proof {
        assert(want.take(i as int) =~= want);
    }
    box_around(area, w, h, &widths)
}

/// The length of the longest of the first `n` texts.
pub open spec fn longest_upto(lines: Seq<Seq<char>>, n: int) -> int
    decreases n,
{
    if n <= 0 {
        0
    } else {
        most(longest_upto(lines, n - 1), lines[n - 1].len() as int)
    }
}

/// The length of the longest text.
pub open spec fn longest(lines: Seq<Seq<char>>) -> int {
    longest_upto(lines, lines.len() as int)
}

/// The length of the longest text.
fn longest_line(lines: &Vec<String>) -> (r: usize)
    ensures
        r == longest(text::texts(lines@)),
{
    let ghost ts = text::texts(lines@);
    let mut r: usize = 0;
    let mut i: usize = 0;
    while i < lines.len()
        invariant
            i <= lines@.len(),
            ts == text::texts(lines@),
            ts.len() == lines@.len(),
            r == longest_upto(ts, i as int),
        decreases lines@.len() - i,
    {
        proof {
            assert(ts[i as int] == lines@[i as int]@);
        }
        let n = to_chars(lines[i].as_str()).len();
        if r < n {
            r = n;
        }
        i += 1;
    }
    r
}

/// The size that a box with texts wants.
pub open spec fn wanted_size(lines: Seq<Seq<char>>, least_w: int) -> (int, int) {
    (most(fitted(longest(lines) + 4), least_w), fitted(lines.len() + 2int))
}

/// The size that a box with texts wants: room for the longest and for all of them, within the
/// borders.
pub fn box_size(lines: &Vec<String>, least_w: u16) -> (r: (u16, u16))
    ensures
        (r.0 as int, r.1 as int) == wanted_size(text::texts(lines@), least_w as int),
{
    let n = longest_line(lines);
    proof {
        assert(text::texts(lines@).len() == lines@.len());
    }
    let w: u16 = if n >= 65531 {
        65535
    } else {
        fit_u16(n + 4)
    };
    let h: u16 = if lines.len() >= 65533 {
        65535
    } else {
        fit_u16(lines.len() + 2)
    };
    (
        if w < least_w {
            least_w
        } else {
            w
        },
        h,
    )
}

/// The width of a preview.
pub open spec fn peek_width(p: app::PeekShown, area: Rect) -> int {
    least(most(fitted(longest(p.lines) + 4), 40), most(area.width as int, 1))
}

/// How many lines of the output have room in a preview.
pub open spec fn peek_room(p: app::PeekShown, area: Rect) -> int {
    most(
        area.height - (if p.truncated {
            4int
        } else {
            3int
        }),
        1,
    )
}

/// The lines of a preview: the last ones that have room, each cut to the width. A line that
/// wrapped could push the end out, and the end is what a preview is for.
pub open spec fn peek_text(p: app::PeekShown, area: Rect) -> Seq<Seq<char>> {
    let inner = most(peek_width(p, area) - 2, 1);
    let start = most(p.lines.len() - peek_room(p, area), 0);
    (if p.truncated {
        seq![text::truncated("\u{2026} truncated at 64 KiB (byte bound)"@, inner)]
    } else {
        Seq::empty()
    }) + p.lines.skip(start).map_values(|l: Seq<char>| text::truncated(l, inner)) + seq![
        text::truncated("press any key to close"@, inner),
    ]
}

/// Appends a text cut to a width.
fn push_cut(v: &mut Vec<String>, s: &str, width: usize)
    ensures
        text::texts(final(v)@) == text::texts(old(v)@).push(text::truncated(s@, width as int)),
{
    let t = truncate_with_ellipsis(s, width);
    proof {
        text::lemma_texts_push(v@, t);
    }
    v.push(t);
}

/// The lines of a preview, and the size that its box wants.
pub fn peek_box(p: &PeekView, area: Rect) -> (r: (Vec<String>, u16, u16))
    ensures
        text::texts(r.0@) == peek_text(p@, area),
        r.1 == peek_width(p@, area),
        r.2 == fitted(peek_text(p@, area).len() + 2int),
{
    let n = longest_line(&p.lines);
    let w0: u16 = if n >= 65531 {
        65535
    } else {
        fit_u16(n + 4)
    };
    let w1: u16 = if w0 < 40 {
        40
    } else {
        w0
    };
    let cap: u16 = if area.width < 1 {
        1
    } else {
        area.width
    };
    let w: u16 = if w1 < cap {
        w1
    } else {
        cap
    };
    let width: usize = if w > 3 {
        (w - 2) as usize
    } else {
        1
    };
    let chrome: u16 = if p.truncated {
        4
    } else {
        3
    };
    let room: usize = if area.height > chrome {
        (area.height - chrome) as usize
    } else {
        1
    };
    let start: usize = if p.lines.len() > room {
        p.lines.len() - room
    } else {
        0
    };
    let ghost ts = text::texts(p.lines@);
    let ghost cut = ts.skip(start as int).map_values(
        |l: Seq<char>| text::truncated(l, width as int),
    );
    let mut v: Vec<String> = Vec::new();
    if p.truncated {
        push_cut(&mut v, "\u{2026} truncated at 64 KiB (byte bound)", width);
    }
    let ghost head = text::texts(v@);
    let mut i: usize = start;
    proof {
        assert(ts.len() == p.lines@.len());
        assert(text::texts(v@) =~= head + cut.take(0));
    }
    while i < p.lines.len()
        invariant
            start <= i <= p.lines@.len(),
            ts == text::texts(p.lines@),
            ts.len() == p.lines@.len(),
            cut == ts.skip(start as int).map_values(
                |l: Seq<char>| text::truncated(l, width as int),
            ),
            text::texts(v@) == head + cut.take(i - start),
        decreases p.lines@.len() - i,
    {
        proof {
            assert(ts[i as int] == p.lines@[i as int]@);
            assert(cut[i - start] == text::truncated(ts[i as int], width as int));
            assert(head + cut.take(i + 1 - start) =~= (head + cut.take(i - start)).push(
                cut[i - start],
            ));
        }
        push_cut(&mut v, p.lines[i].as_str(), width);
        i += 1;
    }
    proof {
        assert(cut.take(i - start) =~= cut);
    }
    push_cut(&mut v, "press any key to close", width);
    proof {
        assert(text::texts(v@) =~= peek_text(p@, area));
        assert(text::texts(v@).len() == v@.len());
    }
    let h: u16 = if v.len() >= 65533 {
        65535
    } else {
        fit_u16(v.len() + 2)
    };
    (v, w, h)
}

/// The end of the output is always in a preview, and a screen of more than four lines has room
/// for the whole preview.
pub proof fn previews_show_the_end(p: app::PeekShown, area: Rect)
    requires
        p.lines.len() > 0,
    ensures
        ({
            let t = peek_text(p, area);
            let inner = most(peek_width(p, area) - 2, 1);
            &&& t.len() >= 2
            &&& t[t.len() - 2] == text::truncated(p.lines.last(), inner)
            &&& area.height > 4 ==> t.len() + 2 <= area.height
        }),
{
}

} // verus!
