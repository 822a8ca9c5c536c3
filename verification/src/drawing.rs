//! What stands on the screen: the rows of the two lists, the details, the footer and the popups.

use crate::action;
use crate::app;
use crate::app::{AppView, EnterAct, Panel, RowCaps, SelView};
use crate::blocker;
use crate::blocker::Blocker;
use crate::lineage;
use crate::live;
use crate::live::{Freshness, Liveness};
use crate::model;
use crate::model::{Model, Scope};
use crate::registry::{AgentSnapshot, InFlight};
use crate::rows;
use crate::rows::{Row, WalkEvent};
use crate::screen;
use crate::screen::Rect;
use crate::stamp;
use crate::text;
use crate::theme;
use crate::theme::{BorderType, Color, LineView, Palette, SpanView, Style};
use crate::view;
use crate::view::{Overlay, SceneView};
use crate::wording;
use vstd::prelude::*;

verus! {

/// No colour at all.
pub open spec fn bland() -> Style {
    Style { fg: None, bg: None, bold: false, reset: false }
}

/// A colour.
pub open spec fn tinted(c: Color) -> Style {
    Style { fg: Some(c), bg: None, bold: false, reset: false }
}

/// A colour, in bold.
pub open spec fn stressed(c: Color) -> Style {
    Style { fg: Some(c), bg: None, bold: true, reset: false }
}

/// A piece of text without a colour.
pub open spec fn piece(s: Seq<char>) -> SpanView {
    SpanView { text: s, style: bland() }
}

/// A line of one piece without a colour.
pub open spec fn simple(s: Seq<char>) -> LineView {
    LineView { spans: seq![piece(s)], style: bland() }
}

/// A text, or a dash where it is empty.
pub open spec fn or_dash(s: Seq<char>) -> Seq<char> {
    if s.len() == 0 {
        "-"@
    } else {
        s
    }
}

/// The background of a selected row.
pub open spec fn backed(p: Palette, selected: bool) -> Style {
    if selected {
        Style { fg: None, bg: Some(p.selected_bg), bold: false, reset: false }
    } else {
        bland()
    }
}

/// The colour of a state: running, completed, failed, queued or delivered, cancelled; a state that
/// is not known has none.
pub proof fn the_colours_of_the_states(p: Palette, st: Seq<char>)
    ensures
        st == "running"@ ==> theme::status_look(p, st) == tinted(p.running),
        st == "completed"@ ==> theme::status_look(p, st) == tinted(p.completed),
        st == "failed"@ ==> theme::status_look(p, st) == tinted(p.failed),
        st == "queued"@ ==> theme::status_look(p, st) == tinted(p.pending),
        st == "delivered"@ ==> theme::status_look(p, st) == tinted(p.pending),
        st == "cancelled"@ ==> theme::status_look(p, st) == tinted(p.dim),
        st != "running"@ && st != "completed"@ && st != "failed"@ && st != "queued"@ && st
            != "delivered"@ && st != "cancelled"@ ==> theme::status_look(p, st) == bland(),
{
    reveal_strlit("running");
    reveal_strlit("completed");
    reveal_strlit("failed");
    reveal_strlit("queued");
    reveal_strlit("delivered");
    reveal_strlit("cancelled");
    assert("running"@[0] == 'r' && "completed"@[0] == 'c' && "failed"@[0] == 'f' && "queued"@[0]
        == 'q' && "delivered"@[0] == 'd' && "cancelled"@[0] == 'c');
    assert("completed"@[1] == 'o' && "cancelled"@[1] == 'a');
}

/// The colours of what is known of a pane, and of a prompt.
pub proof fn the_colours_of_the_panes(p: Palette)
    ensures
        theme::liveness_look(p, Liveness::Live) == tinted(p.live),
        theme::liveness_look(p, Liveness::Dead) == tinted(p.dead),
        theme::liveness_look(p, Liveness::Unknown) == tinted(p.dim),
        theme::blocker_look(p, Blocker::Prompt) == Some(stressed(p.blocked)),
        theme::blocker_look(p, Blocker::Nothing) is None,
        theme::blocker_look(p, Blocker::Occluded) is None,
        theme::blocker_look(p, Blocker::Unknown) is None,
        theme::selected_look(p) == backed(p, true),
{
}

/// The signs behind a worker: nothing for a pane that is there, and a mark for one that is gone or
/// not known; a mark for a prompt and for a pane that is being read.
pub proof fn the_signs_of_a_pane()
    ensures
        view::liveness_sign(Liveness::Dead) == "  \u{2717}dead"@,
        view::liveness_sign(Liveness::Unknown) == "  ?"@,
        view::blocker_sign(Blocker::Prompt) == "  \u{26d4}blocked"@,
        view::blocker_sign(Blocker::Occluded) == "  \u{1f441}copy-mode"@,
        view::blocker_sign(Blocker::Nothing) == ""@,
        view::blocker_sign(Blocker::Unknown) == ""@,
        view::blocker_text(Blocker::Nothing) == "none"@,
        view::blocker_text(Blocker::Prompt) == "permission/plan prompt (blocked)"@,
        view::blocker_text(Blocker::Occluded) == "occluded (copy-mode: a human is reading)"@,
        view::blocker_text(Blocker::Unknown) == "unknown"@,
        action::liveness_text(Liveness::Live) == "live"@,
        action::liveness_text(Liveness::Dead) == "dead"@,
        action::liveness_text(Liveness::Unknown) == "unknown"@,
        view::mark(true) == "\u{25b6} "@,
        view::mark(false) == "  "@,
{
}

/// The panel with the focus has a thick bold frame, the others a plain dim one.
pub proof fn how_a_panel_is_framed(p: Palette)
    ensures
        view::framed(p, true).border == BorderType::Thick,
        view::framed(p, true).border_style == (Style { fg: None, bg: None, bold: true, reset: false }),
        view::framed(p, true).title_style == (Style { fg: None, bg: None, bold: true, reset: true }),
        view::framed(p, false).border == BorderType::Plain,
        view::framed(p, false).border_style == tinted(p.dim),
        view::framed(p, false).title_style == (Style {
            fg: None,
            bg: None,
            bold: false,
            reset: true,
        }),
{
}

/// The first line of a worker: its name, runtime, pane and readiness, and then the signs of its
/// pane, where there is one to show.
pub proof fn the_line_of_a_worker(s: SceneView, w: AgentSnapshot, selected: bool)
    ensures
        ({
            let v = view::worker_spans(s, w, selected);
            let l = live::liveness_of(s.live, w.pane@);
            let b = blocker::blocker_at(s.blockers, w.pane@);
            let n = if l == Liveness::Live {
                1int
            } else {
                2
            };
            &&& v[0] == piece(
                (if selected {
                    "\u{25b6} "@
                } else {
                    "  "@
                }) + "\u{25b8} "@ + w.name@ + "  "@ + or_dash(w.runtime@) + "  "@ + or_dash(w.pane@)
                    + "  "@ + w.ready@,
            )
            &&& l == Liveness::Dead ==> v[1] == (SpanView {
                text: "  \u{2717}dead"@,
                style: tinted(s.p.dead),
            })
            &&& l == Liveness::Unknown ==> v[1] == (SpanView {
                text: "  ?"@,
                style: tinted(s.p.dim),
            })
            &&& b == Blocker::Prompt ==> v.len() == n + 1 && v[n] == (SpanView {
                text: "  \u{26d4}blocked"@,
                style: stressed(s.p.blocked),
            })
            &&& b == Blocker::Occluded ==> v.len() == n + 1 && v[n] == piece(
                "  \u{1f441}copy-mode"@,
            )
            &&& b == Blocker::Nothing || b == Blocker::Unknown ==> v.len() == n
        }),
{
}

/// The second line of a worker: the first line of the prompt that it waits at, if it does; else the
/// newest of its tasks, for how long and with its last event; else since when it has been idle and
/// how its last task ended.
pub proof fn the_note_of_a_worker(s: SceneView, wi: int)
    ensures
        ({
            let w = s.m.workers@[wi];
            let v = view::worker_note(s, wi);
            let asks = s.snippets.dom().contains(w.pane@) && s.snippets[w.pane@]@.len() > 0;
            let busy = model::newest_upto(s.m.tasks@, w, s.m.tasks@.len() as int);
            &&& asks ==> v == seq![piece("    prompt: "@ + s.snippets[w.pane@]@[0]@)]
            &&& !asks && busy is Some ==> v == seq![
                piece(
                    "    "@ + view::request_line(s.sums, s.m.tasks@[busy->0].id@) + "  "@
                        + model::elapsed_text(s.m.tasks@[busy->0].created_at@, s.now)
                        + view::event_note(s.sums, s.m.tasks@[busy->0].id@, s.now),
                ),
            ]
            &&& !asks && busy is None ==> match model::first_of(s.m.recent@, w, 0) {
                None => v == seq![piece(view::idle_note(s.m, w, s.now))],
                Some(r) => v == seq![
                    piece(view::idle_note(s.m, w, s.now) + "  last "@ + s.m.recent@[r].id@ + " "@),
                    SpanView {
                        text: s.m.recent@[r].status@,
                        style: theme::status_look(s.p, s.m.recent@[r].status@),
                    },
                ],
            }
        }),
{
}

/// A worker is idle since its newest recent task or its start, whichever is the later; a time ahead
/// is not counted.
pub proof fn how_long_a_worker_is_idle(m: Model, w: AgentSnapshot, now: int)
    ensures
        ({
            let last = match model::first_of(m.recent@, w, 0) {
                Some(r) => stamp::epoch(m.recent@[r].created_at@),
                None => None,
            };
            let at = model::later(last, stamp::epoch(w.spawned_at@));
            view::idle_note(m, w, now) == "    idle"@ + (if at is Some && at->0 <= now {
                " "@ + model::secs_text(now - at->0)
            } else {
                Seq::empty()
            })
        }),
{
}

/// What is known of a task is found under its id, and nothing is shown where nothing is known; of
/// its last event, the word that follows the time, and how long ago it was.
pub proof fn the_note_of_a_task(s: SceneView, t: InFlight)
    ensures
        s.sums.first.dom().contains(t.id@) ==> view::request_line(s.sums, t.id@)
            == s.sums.first[t.id@],
        !s.sums.first.dom().contains(t.id@) ==> view::request_line(s.sums, t.id@).len() == 0,
        view::task_note(s, t) == "    "@ + view::request_line(s.sums, t.id@) + view::event_note(
            s.sums,
            t.id@,
            s.now,
        ),
        ({
            let line = if s.sums.events.dom().contains(t.id@) {
                s.sums.events[t.id@].1
            } else {
                Seq::empty()
            };
            view::event_note(s.sums, t.id@, s.now) == (match model::word(line, 1) {
                Some(w) => match model::ago_text(line, s.now) {
                    Some(x) => "  "@ + w + (" "@ + x + " ago"@),
                    None => "  "@ + w + Seq::empty(),
                },
                None => Seq::empty(),
            })
        }),
{
}

/// A worker is drawn on two lines and a task below it on one, with its state in its colour; the
/// selected row is marked and has a background.
pub proof fn how_a_row_is_drawn(s: SceneView, wi: usize, ti: usize, selected: bool)
    ensures
        view::row_lines(s, Row::Worker(wi), selected) == seq![
            LineView {
                spans: view::worker_spans(s, s.m.workers@[wi as int], selected),
                style: backed(s.p, selected),
            },
            LineView { spans: view::worker_note(s, wi as int), style: backed(s.p, selected) },
        ],
        view::row_lines(s, Row::Task { worker: wi, task: ti }, selected) == seq![
            LineView {
                spans: seq![
                    piece(
                        (if selected {
                            "\u{25b6} "@
                        } else {
                            "  "@
                        }) + "\u{2514} "@ + s.m.tasks@[ti as int].id@ + "  "@,
                    ),
                    SpanView {
                        text: s.m.tasks@[ti as int].status@,
                        style: theme::status_look(s.p, s.m.tasks@[ti as int].status@),
                    },
                ],
                style: backed(s.p, selected),
            },
        ],
{
}

/// The worker list is drawn in the order of the list: a heading is one line with the group's name
/// and how many of its workers are listed; a row is drawn as selected where the list has the focus
/// and the row is the selected one.
pub proof fn how_the_worker_list_is_drawn(
    s: SceneView,
    all: Seq<WalkEvent>,
    ev: Seq<WalkEvent>,
    g: usize,
    row: Row,
)
    ensures
        view::lines_for(s, all, Seq::empty()).len() == 0,
        view::lines_for(s, all, ev.push(WalkEvent::GroupHead(g))) == view::lines_for(s, all, ev).push(
            simple(
                lineage::label_of(s.m.workers@, s.m.groups@[g as int].key@) + " ("@ + text::dec(
                    (if rows::visible_in(all).dom().contains(g) {
                        rows::visible_in(all)[g] as int
                    } else {
                        s.m.groups@[g as int].members@.len() as int
                    }) as nat,
                ) + ")"@,
            ),
        ),
        view::lines_for(s, all, ev.push(WalkEvent::Row(row))) == view::lines_for(s, all, ev)
            + view::row_lines(
            s,
            row,
            s.a.panel == Panel::Workers && s.a.row_idx == rows::rows_in(ev).len(),
        ),
{
    assert(ev.push(WalkEvent::GroupHead(g)).drop_last() =~= ev);
    assert(ev.push(WalkEvent::Row(row)).drop_last() =~= ev);
    assert(view::lines_for(s, all, ev.push(WalkEvent::GroupHead(g))) =~= view::lines_for(
        s,
        all,
        ev,
    ).push(view::event_lines(s, all, 0, WalkEvent::GroupHead(g))[0]));
}

/// The whole worker list is drawn, and where it is empty a line says why.
pub proof fn what_the_worker_list_draws(s: SceneView)
    ensures
        ({
            let ev = rows::walk(s.m, s.a.filter);
            &&& ev.len() > 0 ==> view::worker_list(s) == view::lines_for(s, ev, ev)
            &&& ev.len() == 0 && s.a.filter.len() > 0 ==> view::worker_list(s) == seq![
                simple("  (no rows match the filter)"@),
            ]
            &&& ev.len() == 0 && s.a.filter.len() == 0 ==> view::worker_list(s) == seq![
                simple("  (no workers registered)"@),
            ]
        }),
{
}

/// A recent task is drawn on two lines: a sign and its state in the colour of the state, its id and
/// its recipient; then what is known of it.
pub proof fn how_a_recent_task_is_drawn(s: SceneView, t: InFlight, selected: bool)
    ensures
        ({
            let look = theme::status_look(s.p, t.status@);
            let v = view::task_lines_of(s, t, selected);
            &&& v.len() == 2
            &&& v[0].style == backed(s.p, selected) && v[1].style == backed(s.p, selected)
            &&& v[0].spans.len() == 4
            &&& v[0].spans[0] == piece(
                if selected {
                    "\u{25b6} "@
                } else {
                    "  "@
                },
            )
            &&& v[0].spans[1] == (SpanView {
                text: if t.status@ == "completed"@ {
                    "\u{2713}"@
                } else if t.status@ == "failed"@ {
                    "\u{2717}"@
                } else if t.status@ == "cancelled"@ {
                    "-"@
                } else {
                    "\u{2699}"@
                },
                style: look,
            })
            &&& v[0].spans[2] == piece(" "@ + t.id@ + "  "@ + t.to@ + "  "@)
            &&& v[0].spans[3] == (SpanView { text: t.status@, style: look })
            &&& v[1].spans == seq![piece(view::task_note(s, t))]
        }),
{
}

/// The task list is drawn in the order of the list, each task as selected where the list has the
/// focus and it is the selected one; where the list is empty a line says why.
pub proof fn how_the_task_list_is_drawn(s: SceneView, n: int)
    requires
        0 <= n < rows::task_rows_of(s.m, s.a.filter, s.a.scope).len(),
    ensures
        ({
            let ts = rows::task_rows_of(s.m, s.a.filter, s.a.scope);
            &&& view::task_lines_upto(s, 0).len() == 0
            &&& view::task_lines_upto(s, n + 1) == view::task_lines_upto(s, n) + view::task_lines_of(
                s,
                s.m.recent@[ts[n]],
                s.a.panel == Panel::Tasks && s.a.task_idx == n,
            )
            &&& view::task_list(s) == view::task_lines_upto(s, ts.len() as int)
        }),
{
}

/// Why the task list is empty: there are no recent tasks, the filter lets none through, or every one
/// of them belongs to a worker.
pub proof fn why_the_task_list_is_empty(s: SceneView)
    requires
        rows::task_rows_of(s.m, s.a.filter, s.a.scope).len() == 0,
    ensures
        view::task_list(s) == seq![
            simple(
                if s.m.recent@.len() > 0 && s.a.filter.len() > 0 {
                    "  (no rows match the filter)"@
                } else if s.m.recent@.len() > 0 && s.a.scope == Scope::Unattached {
                    "  (every task is attached to a worker)"@
                } else {
                    "  (no recent tasks)"@
                },
            ),
        ],
{
}

/// The heading of the task list: the place of the selected task, how many are listed, a plus where
/// there are more than were read and nothing is filtered, and which are listed.
pub proof fn the_heading_of_the_tasks(a: AppView, m: Model)
    requires
        a.task_idx >= 0,
    ensures
        ({
            let total = rows::task_rows_of(m, a.filter, a.scope).len();
            let more = m.recent_truncated && total > 0 && a.filter.len() == 0 && a.scope
                == Scope::All;
            view::tasks_heading(a, m) == "TASKS "@ + text::dec(
                if total == 0 {
                    0
                } else {
                    (a.task_idx + 1) as nat
                },
            ) + "/"@ + text::dec(total) + (if more {
                "+"@
            } else {
                Seq::empty()
            }) + " ["@ + (if a.scope == Scope::All {
                "all"@
            } else {
                "unattached"@
            }) + "]"@
        }),
{
}

/// What is known of a pane, with its word in its colour.
pub open spec fn pane_line(p: Palette, label: Seq<char>, l: Liveness) -> LineView {
    LineView {
        spans: seq![
            piece(label),
            match l {
                Liveness::Live => SpanView { text: "live"@, style: tinted(p.live) },
                Liveness::Dead => SpanView { text: "dead"@, style: tinted(p.dead) },
                Liveness::Unknown => SpanView { text: "unknown"@, style: tinted(p.dim) },
            },
        ],
        style: bland(),
    }
}

/// What a pane waits for, with a prompt in its colour.
pub open spec fn waits_line(p: Palette, b: Blocker) -> LineView {
    LineView {
        spans: seq![
            piece("blocker: "@),
            match b {
                Blocker::Nothing => piece("none"@),
                Blocker::Prompt => SpanView {
                    text: "permission/plan prompt (blocked)"@,
                    style: stressed(p.blocked),
                },
                Blocker::Occluded => piece("occluded (copy-mode: a human is reading)"@),
                Blocker::Unknown => piece("unknown"@),
            },
        ],
        style: bland(),
    }
}

/// The details of a worker: its name, pane, runtime and readiness, its lineage and origin, what is
/// known of its pane, and the command that lists the workers.
pub proof fn the_details_of_a_worker(s: SceneView, w: AgentSnapshot, fit: Option<int>)
    requires
        app::selection_of(s.a, s.m) == SelView::Worker(w),
    ensures
        ({
            let v = view::detail_list(s, fit);
            &&& v.len() == 11
            &&& v[0] == simple("name   : "@ + w.name@)
            &&& v[1] == simple("pane   : "@ + or_dash(w.pane@))
            &&& v[2] == simple("runtime: "@ + or_dash(w.runtime@))
            &&& v[3] == simple("ready  : "@ + w.ready@)
            &&& v[4] == simple("lineage: "@ + view::lineage_text(s.m, w, fit))
            &&& v[5] == simple("origin : "@ + live::detail_of(s.live, model::origin_of(w)))
            &&& v[6] == pane_line(s.p, "state  : "@, live::liveness_of(s.live, w.pane@))
            &&& v[7] == waits_line(s.p, blocker::blocker_at(s.blockers, w.pane@))
            &&& v[8] == simple(Seq::empty())
            &&& v[9] == simple("evidence:"@)
            &&& v[10] == simple("  $ "@ + "agent-bridge list --long"@)
        }),
{
}

/// The details of a task: its id, sender, recipient and state, what is known of its worker's pane
/// where it has a worker, and the commands that read it.
pub proof fn the_details_of_a_task(
    s: SceneView,
    t: InFlight,
    who: Option<AgentSnapshot>,
    fit: Option<int>,
)
    requires
        app::selection_of(s.a, s.m) == (SelView::Task { task: t, worker: who }),
    ensures
        ({
            let v = view::detail_list(s, fit);
            let n = if who is Some {
                6int
            } else {
                4
            };
            &&& v.len() == n + 4
            &&& v[0] == simple("task-id: "@ + t.id@)
            &&& v[1] == simple("from   : "@ + t.from@)
            &&& v[2] == simple("to     : "@ + t.to@)
            &&& v[3] == (LineView {
                spans: seq![
                    piece("status : "@),
                    SpanView { text: t.status@, style: theme::status_look(s.p, t.status@) },
                ],
                style: bland(),
            })
            &&& who matches Some(w) ==> v[4] == pane_line(
                s.p,
                "pane   : "@ + or_dash(w.pane@) + "  "@,
                live::liveness_of(s.live, w.pane@),
            ) && v[5] == waits_line(s.p, blocker::blocker_at(s.blockers, w.pane@))
            &&& v[n] == simple(Seq::empty())
            &&& v[n + 1] == simple("evidence:"@)
            &&& v[n + 2] == simple("  $ "@ + ("agent-bridge read "@ + t.id@))
            &&& v[n + 3] == simple("  $ "@ + ("agent-bridge status "@ + t.id@))
        }),
{
}

/// Without a selection the details say so; the lineage of a worker is its line of descent, in the
/// room that there is behind the label, or that it stands alone.
pub proof fn the_other_details(s: SceneView, w: AgentSnapshot, n: int)
    requires
        n >= 0,
    ensures
        app::selection_of(s.a, s.m) == SelView::Nothing ==> view::detail_list(s, Some(n)) == seq![
            simple("(nothing selected)"@),
        ],
        lineage::breadcrumb_of(s.m.workers@, w) is None ==> view::lineage_text(s.m, w, Some(n))
            == "(standalone)"@ && view::lineage_text(s.m, w, None) == "(standalone)"@,
        lineage::breadcrumb_of(s.m.workers@, w) matches Some(c) ==> view::lineage_text(s.m, w, None)
            == lineage::line_of(c) && view::lineage_text(s.m, w, Some(n)) == lineage::fitted_line(
            c,
            if n < 9 {
                0
            } else {
                n - 9
            },
        ),
{
    if app::selection_of(s.a, s.m) == SelView::Nothing {
        assert(view::detail_list(s, Some(n)) =~= seq![simple("(nothing selected)"@)]);
    }
}

/// The keys that are offered for a row are those that do something there, in one order.
pub proof fn which_keys_are_offered(c: RowCaps)
    ensures
        ({
            let v = view::key_parts(c);
            &&& c.enter == EnterAct::Focus ==> v.len() > 0 && v[0] == "Enter focus pane"@
            &&& c.enter == EnterAct::Read ==> v.len() > 0 && v[0] == "Enter/r read full text"@
            &&& v.len() == (if c.enter == EnterAct::Nothing {
                0int
            } else {
                1
            }) + (if c.info {
                1int
            } else {
                0
            }) + (if c.peek {
                1int
            } else {
                0
            }) + (if c.copy {
                1int
            } else {
                0
            }) + (if c.cancel {
                1int
            } else {
                0
            }) + (if c.evict {
                1int
            } else {
                0
            })
            &&& c.evict ==> v.last() == "e evict"@
            &&& c.cancel && !c.evict ==> v.last() == "x cancel"@
            &&& c.copy && !c.cancel && !c.evict ==> v.last() == "c copy evidence"@
            &&& c.peek && !c.copy && !c.cancel && !c.evict ==> v.last() == "L tail preview"@
            &&& c.info && !c.peek && !c.copy && !c.cancel && !c.evict ==> v.last() == "i info"@
        }),
{
}

/// The keys that are offered for each kind of row, word for word.
pub proof fn the_keys_of_a_row(a: AppView, m: Model)
    ensures
        ({
            let dot = " \u{b7} "@;
            match app::selection_of(a, m) {
                SelView::Nothing => view::keys_text(a, m) == "(no row selected)"@,
                SelView::Worker(w) => view::keys_text(a, m) == (if w.pane@.len() > 0 {
                    "Enter focus pane"@ + dot + "i info"@ + dot + "L tail preview"@ + dot
                        + "c copy evidence"@ + dot + "e evict"@
                } else {
                    "Enter focus pane"@ + dot + "i info"@ + dot + "c copy evidence"@ + dot
                        + "e evict"@
                }),
                SelView::Task { task, worker } => {
                    let first = "Enter/r read full text"@ + (if worker is Some {
                        dot + "i info"@
                    } else {
                        Seq::empty()
                    }) + dot + "c copy evidence"@;
                    view::keys_text(a, m) == (if task.status@ == "completed"@ || task.status@
                        == "failed"@ || task.status@ == "cancelled"@ {
                        first
                    } else {
                        first + dot + "x cancel"@
                    })
                },
            }
        }),
{
    let dot = " \u{b7} "@;
    let parts = view::key_parts(app::caps_of(app::selection_of(a, m)));
    match app::selection_of(a, m) {
        SelView::Nothing => {
            assert(parts.len() == 0);
        },
        SelView::Worker(w) => {
            let one = seq!["Enter focus pane"@];
            wording::how_texts_are_joined(one, "Enter focus pane"@, dot);
            assert(text::join(one, dot) == "Enter focus pane"@);
            wording::how_texts_are_joined(one, "i info"@, dot);
            let two = one.push("i info"@);
            let three = if w.pane@.len() > 0 {
                wording::how_texts_are_joined(two, "L tail preview"@, dot);
                two.push("L tail preview"@)
            } else {
                two
            };
            wording::how_texts_are_joined(three, "c copy evidence"@, dot);
            let four = three.push("c copy evidence"@);
            wording::how_texts_are_joined(four, "e evict"@, dot);
            assert(parts == four.push("e evict"@));
        },
        SelView::Task { task, worker } => {
            let one = seq!["Enter/r read full text"@];
            assert(text::join(one, dot) == "Enter/r read full text"@);
            let two = if worker is Some {
                wording::how_texts_are_joined(one, "i info"@, dot);
                assert("Enter/r read full text"@ + dot + "i info"@ =~= "Enter/r read full text"@ + (
                dot + "i info"@));
                one.push("i info"@)
            } else {
                assert("Enter/r read full text"@ + Seq::<char>::empty()
                    =~= "Enter/r read full text"@);
                one
            };
            wording::how_texts_are_joined(two, "c copy evidence"@, dot);
            let three = two.push("c copy evidence"@);
            wording::how_texts_are_joined(three, "x cancel"@, dot);
            assert(app::caps_of(app::selection_of(a, m)).cancel || parts == three);
            assert(!app::caps_of(app::selection_of(a, m)).cancel || parts == three.push(
                "x cancel"@,
            ));
        },
    }
}

/// What the footer says of a source: not known; stale, with its age; its age, from half of what
/// counts as stale on; and else how often it is read. The first two are warned of.
pub proof fn what_is_said_of_a_source(name: Seq<char>, cadence: Seq<char>, ms: u64, stale_at: u64)
    ensures
        view::axis_text(name, cadence, None, stale_at) == (name + " unknown"@, true),
        ms >= stale_at ==> view::axis_text(name, cadence, Some(ms), stale_at) == (
            name + " STALE "@ + text::dec((ms / 1000) as nat) + "s"@,
            true,
        ),
        ms < stale_at && 2 * ms >= stale_at ==> view::axis_text(name, cadence, Some(ms), stale_at)
            == (name + " "@ + text::dec((ms / 1000) as nat) + "s ago"@, false),
        2 * ms < stale_at ==> view::axis_text(name, cadence, Some(ms), stale_at) == (
            name + " "@ + cadence,
            false,
        ),
{
}

/// The line of the filter: what is being typed, or what is filtered by; and the banner over a pane
/// that a person is reading.
pub proof fn the_lines_above_the_footer(
    a: AppView,
    m: Model,
    blockers: Option<Map<Seq<char>, Blocker>>,
)
    ensures
        a.filter_input ==> view::filter_text(a) == Some(" /"@ + a.filter + "\u{2588}"@),
        !a.filter_input && a.filter.len() > 0 ==> view::filter_text(a) == Some(
            " filter: "@ + a.filter + " (press / then Esc to clear)"@,
        ),
        !a.filter_input && a.filter.len() == 0 ==> view::filter_text(a) is None,
        ({
            let who = match app::selection_of(a, m) {
                SelView::Worker(w) => Some(w),
                SelView::Task { worker, .. } => worker,
                SelView::Nothing => None,
            };
            let read = who matches Some(w) && (blockers matches Some(b) && b.dom().contains(w.pane@)
                && b[w.pane@] == Blocker::Occluded);
            &&& read ==> view::banner_text(a, m, blockers) == Some(
                " [info] '"@ + (who->0).name@ + "' is "@
                    + "occluded (copy-mode: a human is reading)"@
                    + " \u{2014} keys you send may land in the pager"@,
            )
            &&& !read ==> view::banner_text(a, m, blockers) is None
            &&& view::extra_rows(a, m, blockers) == (if a.filter_input || a.filter.len() > 0 {
                1int
            } else {
                0
            }) + (if read {
                1int
            } else {
                0
            })
        }),
{
}

/// The three newest warnings are shown, in order, the first of them with how many older ones there
/// are.
pub proof fn which_warnings_are_shown(p: Palette, ws: Seq<Seq<char>>, i: int)
    requires
        ws.len() > 0,
    ensures
        ws.len() <= 3 ==> view::warnings_shown(ws.len() as int) == ws.len(),
        ws.len() > 3 ==> view::warnings_shown(ws.len() as int) == 3,
        ws.len() <= 3 && 0 <= i < ws.len() ==> view::warning_text(ws, i) == " \u{26a0} "@ + ws[i],
        ws.len() > 3 && 0 < i < 3 ==> view::warning_text(ws, i) == " \u{26a0} "@ + ws[ws.len() - 3
            + i],
        ws.len() > 3 ==> view::warning_text(ws, 0) == " \u{26a0} ("@ + text::dec(
            (ws.len() - 3) as nat,
        ) + " older warning(s) not shown) "@ + ws[ws.len() - 3],
        0 <= i < view::warnings_shown(ws.len() as int) ==> view::warning_lines(
            p,
            ws,
            view::warnings_shown(ws.len() as int),
        )[i] == (LineView {
            spans: seq![piece(view::warning_text(ws, i))],
            style: stressed(p.warning),
        }),
{
}

/// The footer: the keys of the row, the keys of the screen, the ages and the message; then the
/// filter and the banner where there are any, and the warnings.
pub proof fn what_the_footer_shows(s: SceneView, fresh: Freshness)
    ensures
        ({
            let v = view::footer_list(s, fresh);
            let n = view::warnings_shown(s.a.warnings.len() as int);
            let f = if view::filter_text(s.a) is Some {
                1int
            } else {
                0
            };
            let b = if view::banner_text(s.a, s.m, s.blockers) is Some {
                1int
            } else {
                0
            };
            &&& v.len() == 3 + f + b + (if s.a.warnings.len() == 0 {
                0
            } else {
                n + 1
            })
            &&& v[0] == simple(" "@ + view::keys_text(s.a, s.m))
            &&& v[1] == simple(" "@ + view::GLOBAL_KEYS@)
            &&& v[2] == view::status_line(s, fresh)
            &&& f == 1 ==> v[3] == simple(view::filter_text(s.a)->0)
            &&& b == 1 ==> v[3 + f] == simple(view::banner_text(s.a, s.m, s.blockers)->0)
            &&& s.a.warnings.len() > 0 ==> {
                &&& v.last() == simple(" (Esc clears warnings)"@)
                &&& forall|i: int|
                    0 <= i < n ==> #[trigger] v[3 + f + b + i] == (LineView {
                        spans: seq![piece(view::warning_text(s.a.warnings, i))],
                        style: stressed(s.p.warning),
                    })
            }
        }),
{
    let n = view::warnings_shown(s.a.warnings.len() as int);
    let tail = view::warning_lines(s.p, s.a.warnings, n).push(
        theme::raw_line(" (Esc clears warnings)"@),
    );
    assert(tail.last() == simple(" (Esc clears warnings)"@));
}

/// The line of the ages: the disk, read twice a second, and tmux, asked every two seconds; what is
/// warned of stands out; then the message.
pub proof fn the_line_of_the_ages(s: SceneView, fresh: Freshness)
    ensures
        ({
            let d = view::axis_text("disk"@, "500ms"@, Some(fresh.disk), 3000);
            let t = view::axis_text("tmux"@, "2s"@, fresh.tmux, 10_000);
            view::status_line(s, fresh) == (LineView {
                spans: seq![
                    piece(" ["@),
                    SpanView {
                        text: d.0,
                        style: if d.1 {
                            stressed(s.p.warning)
                        } else {
                            bland()
                        },
                    },
                    piece(" \u{b7} "@),
                    SpanView {
                        text: t.0,
                        style: if t.1 {
                            stressed(s.p.warning)
                        } else {
                            bland()
                        },
                    },
                    piece("] "@ + s.a.message),
                ],
                style: bland(),
            })
        }),
{
}

/// What lies over the panels: a question before anything else, the one about a cancellation first;
/// then the text of a task, a worker's page, a preview, and the list of the keys.
pub proof fn what_lies_on_top(a: AppView)
    ensures
        view::overlay_of(a) == Overlay::Confirm <==> a.confirm is Some,
        view::overlay_of(a) == Overlay::Evict <==> a.confirm is None && a.evict_prompt is Some,
        view::overlay_of(a) == Overlay::Pager <==> a.confirm is None && a.evict_prompt is None
            && a.pager is Some,
        view::overlay_of(a) == Overlay::Info <==> a.confirm is None && a.evict_prompt is None
            && a.pager is None && a.info is Some,
        view::overlay_of(a) == Overlay::Peek <==> a.confirm is None && a.evict_prompt is None
            && a.pager is None && a.info is None && a.peek is Some,
        view::overlay_of(a) == Overlay::Help <==> a.confirm is None && a.evict_prompt is None
            && a.pager is None && a.info is None && a.peek is None && a.help,
{
}

/// What a popup shows, under which heading.
pub proof fn what_a_popup_shows(s: SceneView, area: Rect)
    ensures
        ({
            let v = view::popup_of(s, area);
            match view::overlay_of(s.a) {
                Overlay::Confirm => v is Some && (v->0).title == "cancel task"@ && (v->0).lines
                    == seq![
                    "Confirm to run the equivalent CLI:"@,
                    "$ "@ + ("agent-bridge cancel "@ + s.a.confirm->0),
                    "[y/Enter] run \u{b7} [n/Esc] abort"@,
                ],
                Overlay::Evict => v is Some && (v->0).title == "evict (wrap-up task, then reclaim)"@
                    && (v->0).lines == (s.a.evict_prompt->0).lines,
                Overlay::Info => v is Some && (v->0).title == "worker info (read-only)"@ && (
                v->0).lines == s.a.info->0,
                Overlay::Peek => v is Some && (v->0).title == (s.a.peek->0).title && (v->0).lines
                    == screen::peek_text(s.a.peek->0, area),
                Overlay::Help => v is Some && (v->0).title == "keys (current selection)"@ && (
                v->0).lines == view::help_text(s.a, s.m),
                Overlay::Pager => v is None,
                Overlay::Nothing => v is None,
            }
        }),
{
}

/// How large a popup wants to be, and that it lies in a box of at most that size.
pub proof fn how_large_a_popup_is(s: SceneView, area: Rect)
    ensures
        ({
            let v = view::popup_of(s, area);
            let at = |w: int, h: int|
                screen::box_at(area, w as u16, h as u16, screen::widths_of((v->0).lines));
            match view::overlay_of(s.a) {
                Overlay::Confirm => (v->0).rect == at(
                    screen::most(screen::fitted((v->0).lines[1].len() + 4int), 34),
                    5,
                ),
                Overlay::Evict => (v->0).rect == at(
                    screen::wanted_size((v->0).lines, 46).0,
                    screen::wanted_size((v->0).lines, 46).1,
                ),
                Overlay::Info => (v->0).rect == at(
                    screen::wanted_size((v->0).lines, 40).0,
                    screen::wanted_size((v->0).lines, 40).1,
                ),
                Overlay::Peek => (v->0).rect == at(
                    screen::peek_width(s.a.peek->0, area),
                    screen::fitted((v->0).lines.len() + 2int),
                ),
                Overlay::Help => (v->0).rect == at(118, screen::fitted((v->0).lines.len() + 2int)),
                _ => true,
            }
        }),
{
}

/// The list of the keys: those of the screen, those of the row with a word on what does not work
/// there, and what the ages mean.
pub proof fn what_the_list_of_keys_shows(a: AppView, m: Model)
    ensures
        ({
            let v = view::help_text(a, m);
            let sel = app::selection_of(a, m);
            let n = if sel is Nothing {
                0int
            } else {
                1
            };
            &&& v.len() == 11 + n
            &&& v[0] == "global:"@
            &&& v[1] == "  "@ + view::GLOBAL_KEYS@
            &&& v[2].len() == 0
            &&& v[3] == "current row:"@
            &&& v[4] == "  "@ + view::keys_text(a, m)
            &&& sel is Worker ==> v[5] == "  x is task-rows only (cancel needs a unique task id)"@
            &&& sel matches SelView::Task { task, .. } ==> v[5] == (if task.status@ == "completed"@
                || task.status@ == "failed"@ || task.status@ == "cancelled"@ {
                "  terminal task: x does nothing (no transition left to cancel)"@
            } else {
                "  non-terminal task: read is refused until it is answered"@
            })
            &&& v[5 + n].len() == 0
            &&& v[6 + n] == "freshness (footer):"@
            &&& v[7 + n]
                == "  disk = age of the last completed scan (a scan can complete with unreadable entries skipped)"@
            &&& v[8 + n]
                == "  tmux = age of the last successful query round; unknown = no successful round yet"@
            &&& v[9 + n].len() == 0
            &&& v[10 + n] == "press any key to close"@
        }),
{
}

/// Which line of the worker list has to be seen: the last line of the selected row.
pub proof fn which_line_has_to_be_seen(a: AppView, m: Model)
    requires
        0 <= a.row_idx < rows::rows_in(rows::walk(m, a.filter)).len(),
        rows::lines_total(rows::walk(m, a.filter)) <= usize::MAX,
    ensures
        ({
            let ev = rows::walk(m, a.filter);
            view::worker_bottom(a, m) == rows::lines_in(ev)[a.row_idx] + (
            if rows::rows_in(ev)[a.row_idx] is Worker {
                1int
            } else {
                0
            })
        }),
{
    let ev = rows::walk(m, a.filter);
    lemma_row_ends(ev, a.row_idx);
    assert(rows::capped_all(rows::lines_in(ev))[a.row_idx] == rows::lines_in(ev)[a.row_idx]);
}

/// A row ends within the list.
proof fn lemma_row_ends(ev: Seq<WalkEvent>, i: int)
    requires
        0 <= i < rows::rows_in(ev).len(),
    ensures
        rows::lines_in(ev).len() == rows::rows_in(ev).len(),
        0 <= rows::lines_in(ev)[i],
        rows::lines_in(ev)[i] + rows::height(rows::rows_in(ev)[i]) <= rows::lines_total(ev),
    decreases ev.len(),
{
    let t = ev.drop_last();
    lemma_same_len(t);
    if i < rows::rows_in(t).len() {
        lemma_row_ends(t, i);
    }
}

/// There is a line for each row.
proof fn lemma_same_len(ev: Seq<WalkEvent>)
    ensures
        rows::lines_in(ev).len() == rows::rows_in(ev).len(),
        rows::lines_total(ev) >= 0,
    decreases ev.len(),
{
    if ev.len() > 0 {
        lemma_same_len(ev.drop_last());
    }
}

/// The fixed texts of the screen.
pub proof fn the_fixed_texts()
    ensures
        view::GLOBAL_KEYS@
            == "Tab/S-Tab panes \u{b7} j/k (\u{2193}\u{2191}) move \u{b7} PgUp/PgDn page \u{b7} Home/End \u{b7} / filter \u{b7} S scope \u{b7} Esc clear warn \u{b7} ? keys \u{b7} q quit"@,
        view::PAGER_TITLE@ == "read (read-only, full text)"@,
{
}

/// The text of a line is that of its pieces, one after the other.
pub proof fn what_a_line_says(spans: Seq<SpanView>, x: SpanView)
    ensures
        theme::characters(Seq::empty()).len() == 0,
        theme::characters(spans.push(x)) == theme::characters(spans) + x.text,
{
    assert(spans.push(x).drop_last() =~= spans);
}

} // verus!
