//! How the room on the screen is shared out: the panels, the scrolled part of a list, and the boxes.

use crate::app;
use crate::screen;
use crate::screen::Rect;
use crate::text;
use vstd::prelude::*;

verus! {

/// The footer has three lines, one more for each line above it, and for the warnings as many as are
/// shown and one.
pub proof fn how_high_the_footer_is(warnings: int, extra: int)
    requires
        0 <= warnings,
        0 <= extra <= 2,
    ensures
        warnings == 0 ==> screen::footer_height(warnings, extra) == 3 + extra,
        1 <= warnings <= 3 ==> screen::footer_height(warnings, extra) == 4 + extra + warnings,
        warnings > 3 ==> screen::footer_height(warnings, extra) == 7 + extra,
{
}

/// The screen is shared out from the bottom: the footer, above it the details, on the right or, on
/// a narrow screen, below; and the rest is halved between the workers, above, and the tasks. The
/// parts fill the screen and do not lie over each other.
pub proof fn how_the_screen_is_shared_out(area: Rect, warnings: int, extra: int)
    requires
        area.fits(),
        0 <= warnings,
        0 <= extra <= 2,
        area.width >= 72,
    ensures
        ({
            let r = screen::areas_of(area, warnings, extra);
            let f = screen::footer_height(warnings, extra);
            let main = if area.height <= 3 {
                area.height as int
            } else if area.height - f < 3 {
                3
            } else {
                area.height - f
            };
            &&& !r.detail_strip
            &&& r.footer.x == area.x && r.footer.width == area.width && r.footer.y == area.y + main
                && r.footer.height == area.height - main
            &&& r.detail.width == 45 && r.detail.x == area.x + area.width - 45 && r.detail.y == area.y
                && r.detail.height == main
            &&& r.workers.x == area.x && r.workers.y == area.y && r.workers.width == area.width - 45
                && r.workers.height == (main + 1) / 2
            &&& r.tasks.x == area.x && r.tasks.y == area.y + (main + 1) / 2 && r.tasks.width
                == area.width - 45 && r.tasks.height == main / 2
        }),
{
}

/// A narrow screen has the details in a strip of thirteen lines above the footer, as far as the
/// lists keep six.
pub proof fn how_a_narrow_screen_is_shared_out(area: Rect, warnings: int, extra: int)
    requires
        area.fits(),
        0 <= warnings,
        0 <= extra <= 2,
        area.width < 72,
    ensures
        ({
            let r = screen::areas_of(area, warnings, extra);
            let f = screen::footer_height(warnings, extra);
            let main = if area.height <= 3 {
                area.height as int
            } else if area.height - f < 3 {
                3
            } else {
                area.height - f
            };
            let mid = if main <= 6 {
                main
            } else if main - 13 < 6 {
                6
            } else {
                main - 13
            };
            &&& r.detail_strip
            &&& r.footer.x == area.x && r.footer.width == area.width && r.footer.y == area.y + main
                && r.footer.height == area.height - main
            &&& r.detail.x == area.x && r.detail.width == area.width && r.detail.y == area.y + mid
                && r.detail.height == main - mid
            &&& r.workers.x == area.x && r.workers.y == area.y && r.workers.width == area.width
                && r.workers.height == (mid + 1) / 2
            &&& r.tasks.x == area.x && r.tasks.y == area.y + (mid + 1) / 2 && r.tasks.width
                == area.width && r.tasks.height == mid / 2
        }),
{
}

/// A panel shows two lines less than its height, for its frame. A list is scrolled only as far as
/// the line needs to be seen: then it is the last line of the panel.
pub proof fn how_far_a_list_is_scrolled(line: int, height: u16)
    requires
        0 <= line < 60_000,
    ensures
        height < 2 ==> screen::inner_height(height) == 0,
        height >= 2 ==> screen::inner_height(height) == height - 2,
        height <= 2 ==> screen::offset_for(line, height) == 0,
        height > 2 && line < height - 2 ==> screen::offset_for(line, height) == 0,
        height > 2 && line >= height - 2 ==> line - screen::offset_for(line, height) == height - 3,
{
}

/// The task list has a bar where its tasks, of two lines each, have no room.
pub proof fn when_there_is_a_bar(n: int, height: u16)
    requires
        height >= 2,
    ensures
        screen::needs_bar(n, height) <==> 2 * n > height - 2,
{
}

/// A line takes as many rows of a column as it needs, and at least one.
pub proof fn how_many_rows_a_line_takes(width: int, column: int)
    requires
        width >= 0,
        column >= 1,
    ensures
        ({
            let n = screen::wrapped_rows(width, column);
            &&& n >= 1
            &&& n * column >= width
            &&& n > 1 ==> (n - 1) * column < width
        }),
{
    if width > 0 {
        let n = screen::wrapped_rows(width, column);
        vstd::arithmetic::div_mod::lemma_fundamental_div_mod(width + column - 1, column);
        vstd::arithmetic::div_mod::lemma_mod_bound(width + column - 1, column);
        assert(n * column == column * n) by (nonlinear_arith);
        assert((n - 1) * column == n * column - column) by (nonlinear_arith);
        if n <= 0 {
            assert(column * n <= 0) by (nonlinear_arith)
                requires
                    n <= 0,
                    column >= 1,
            ;
        }
    }
}

/// Lines take the rows of each of them.
pub proof fn how_many_rows_lines_take(widths: Seq<usize>, column: int, n: int)
    requires
        0 <= n < widths.len(),
    ensures
        screen::rows_upto(widths, column, 0) == 0,
        screen::rows_upto(widths, column, n + 1) == screen::rows_upto(widths, column, n)
            + screen::wrapped_rows(widths[n] as int, column),
{
}

/// A box is as wide as it wants to be, and as high as it wants to be or its lines need, as far as
/// the screen goes; it lies in the middle.
pub proof fn where_a_box_lies(area: Rect, w: u16, h: u16, widths: Seq<usize>)
    requires
        area.fits(),
    ensures
        ({
            let r = screen::box_at(area, w, h, widths);
            let column = if r.width > 3 {
                r.width - 2
            } else {
                1
            };
            let need = screen::rows_upto(widths, column, widths.len() as int) + 2;
            &&& r.width == (if w < area.width {
                w
            } else {
                area.width
            })
            &&& h >= area.height || need >= area.height ==> r.height == area.height
            &&& h < area.height && need < area.height ==> r.height == (if need > h {
                need
            } else {
                h as int
            })
            &&& 0 <= (area.x + area.width - r.x - r.width) - (r.x - area.x) <= 1
            &&& 0 <= (area.y + area.height - r.y - r.height) - (r.y - area.y) <= 1
        }),
{
    lemma_rows_not_negative(
        widths,
        if screen::box_at(area, w, h, widths).width > 3 {
            screen::box_at(area, w, h, widths).width - 2
        } else {
            1
        },
        widths.len() as int,
    );
}

/// Lines take no negative number of rows.
proof fn lemma_rows_not_negative(widths: Seq<usize>, column: int, n: int)
    requires
        column >= 1,
        n <= widths.len(),
    ensures
        screen::rows_upto(widths, column, n) >= 0,
    decreases n,
{
    if n > 0 {
        lemma_rows_not_negative(widths, column, n - 1);
        how_many_rows_a_line_takes(widths[n - 1] as int, column);
    }
}

/// The longest of some lines is as long as one of them, and none is longer.
pub proof fn how_long_the_longest_line_is(lines: Seq<Seq<char>>, n: int)
    requires
        0 <= n <= lines.len(),
    ensures
        forall|i: int| 0 <= i < n ==> (#[trigger] lines[i]).len() <= screen::longest_upto(lines, n),
        n == 0 ==> screen::longest_upto(lines, n) == 0,
        n > 0 ==> exists|i: int|
            0 <= i < n && (#[trigger] lines[i]).len() == screen::longest_upto(lines, n),
    decreases n,
{
    if n > 0 {
        how_long_the_longest_line_is(lines, n - 1);
        if lines[n - 1].len() >= screen::longest_upto(lines, n - 1) {
            assert(lines[n - 1].len() == screen::longest_upto(lines, n));
        }
    }
}

/// A box for some lines wants four more than the longest, and at least a given width, and two more
/// than their number.
pub proof fn how_large_a_box_wants_to_be(lines: Seq<Seq<char>>, least_w: int)
    requires
        0 <= least_w <= 100,
        screen::longest(lines) <= 60_000,
        lines.len() <= 60_000,
    ensures
        screen::wanted_size(lines, least_w).0 == (if screen::longest(lines) + 4 < least_w {
            least_w
        } else {
            screen::longest(lines) + 4
        }),
        screen::wanted_size(lines, least_w).1 == lines.len() + 2,
        screen::longest(lines) == screen::longest_upto(lines, lines.len() as int),
{
}

/// A preview shows the last lines of the output, as many as there is room for, each cut to the
/// width of the box, and a word on how to close it; where the output was cut off, it begins with
/// a word on that.
pub proof fn what_a_preview_box_shows(p: app::PeekShown, area: Rect)
    requires
        area.height >= 5,
        area.width >= 3,
        screen::longest(p.lines) <= 60_000,
    ensures
        ({
            let v = screen::peek_text(p, area);
            let wide = if screen::longest(p.lines) + 4 < 40 {
                40
            } else {
                screen::longest(p.lines) + 4
            };
            let inner = (if wide < area.width {
                wide
            } else {
                area.width as int
            }) - 2;
            let first = if p.truncated {
                1int
            } else {
                0
            };
            let room = area.height - 3 - first;
            let n = if p.lines.len() < room {
                p.lines.len() as int
            } else {
                room
            };
            &&& v.len() == first + n + 1
            &&& p.truncated ==> v[0] == text::truncated(
                "\u{2026} truncated at 64 KiB (byte bound)"@,
                inner,
            )
            &&& forall|i: int|
                0 <= i < n ==> #[trigger] v[first + i] == text::truncated(
                    p.lines[p.lines.len() - n + i],
                    inner,
                )
            &&& v.last() == text::truncated("press any key to close"@, inner)
            &&& screen::peek_width(p, area) == inner + 2
        }),
{
}

/// The widths of some lines are those of each.
pub proof fn how_wide_lines_are(lines: Seq<Seq<char>>, i: int)
    requires
        0 <= i < lines.len(),
    ensures
        screen::widths_of(lines).len() == lines.len(),
        screen::widths_of(lines)[i] == screen::width_of(lines[i]),
{
}

/// The widths and heights that the parts of the screen are given.
pub proof fn the_sizes_of_the_parts()
    ensures
        screen::TASK_ID_W == 21,
        screen::MID_MIN_W == 27,
        screen::DETAIL_W == 45,
        screen::TWO_COL_MIN_W == 72,
        screen::DETAIL_STRIP_H == 13,
        screen::WARN_ROWS == 3,
{
}

} // verus!
