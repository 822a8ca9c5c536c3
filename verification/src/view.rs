//! What stands on the screen: the lines of the panels, of the footer and of the boxes.
//!
//! A status is always shown by its own word. The selection is a character, `▶`, and not only a
//! colour. Neither a colour nor the order ever says that something may be removed.

use crate::action;
use crate::action::{cancel_cmdline, evidence, liveness_word, or_dash};
use crate::app;
use crate::app::{row_caps, App, AppView, EnterAct, Panel, Sel};
use crate::blocker;
use crate::blocker::{Blocker, BlockerIndex, Snippets};
use crate::lineage;
use crate::lineage::{breadcrumb, breadcrumb_line, breadcrumb_line_fit, group_label, STANDALONE_LABEL};
use crate::live;
use crate::live::{
    age_is_worth_showing, pane_liveness, window_detail, Freshness, LiveIndex, Liveness, DISK_STALE,
    TMUX_STALE,
};
use crate::model;
use crate::model::{
    event_ago, event_word, fmt_elapsed, fmt_secs, origin_label, worker_activity, Activity, Model,
    Scope, Summaries, SummariesView,
};
use crate::registry::{AgentSnapshot, InFlight};
use crate::rows;
use crate::rows::{
    group_visible_members, is_terminal_status, walk_workers, worker_line_of, Row, WalkEvent,
    TASK_ROW_H,
};
use crate::screen;
use crate::screen::{box_size, fit_u16, peek_box, popup, scroll_offset, Rect, WARN_ROWS};
use crate::stamp;
use crate::text;
use crate::text::{copy_text, join_texts, push_dec, starts_with};
use crate::theme;
use crate::theme::{
    blocker_style, liveness_style, panel_border_style, panel_border_type, panel_title_style,
    selected_row_style, stale_style, status_style, warning_style, BorderType, Line, LineView,
    Palette, Span, SpanView, Style,
};
use vstd::prelude::*;
use vstd::string::*;

verus! {

/// Everything that is shown.
pub struct Scene<'a> {
    pub model: &'a Model,
    pub live: &'a LiveIndex,
    pub blockers: &'a BlockerIndex,
    pub app: &'a App,
    pub sums: &'a Summaries,
    pub snippets: &'a Snippets,
    /// Seconds since the first of January 1970.
    pub now: i64,
    pub palette: &'a Palette,
}

/// Everything that is shown.
pub struct SceneView {
    pub m: Model,
    pub live: live::LiveView,
    pub blockers: Option<Map<Seq<char>, Blocker>>,
    pub a: AppView,
    pub sums: SummariesView,
    pub snippets: Map<Seq<char>, Vec<String>>,
    pub now: int,
    pub p: Palette,
}

impl<'a> View for Scene<'a> {
    type V = SceneView;

    open spec fn view(&self) -> SceneView {
        SceneView {
            m: *self.model,
            live: self.live@,
            blockers: self.blockers@,
            a: self.app@,
            sums: self.sums@,
            snippets: self.snippets@,
            now: self.now as int,
            p: *self.palette,
        }
    }
}

impl<'a> Scene<'a> {
    /// Whether the reading is in order and the time can be counted from.
    pub open spec fn wf(self) -> bool {
        self.model.wf() && self.now <= stamp::NOW_MAX
    }
}

/// One more line.
proof fn lemma_lines_push(v: Seq<Line>, l: Line)
    ensures
        theme::line_views(v.push(l)) == theme::line_views(v).push(l@),
{
    assert(theme::line_views(v.push(l)) =~= theme::line_views(v).push(l@));
}

/// Appends a line.
fn push_line(v: &mut Vec<Line>, l: Line)
    ensures
        theme::line_views(final(v)@) == theme::line_views(old(v)@).push(l@),
{
    proof {
        lemma_lines_push(v@, l);
    }
    v.push(l);
}

/// Appends a line without a style.
fn push_raw(v: &mut Vec<Line>, s: String)
    ensures
        theme::line_views(final(v)@) == theme::line_views(old(v)@).push(theme::raw_line(s@)),
{
    push_line(v, Line::raw(s));
}

/// Appends a span.
fn push_span(v: &mut Vec<Span>, s: Span)
    ensures
        theme::span_views(final(v)@) == theme::span_views(old(v)@).push(s@),
{
    proof {
        assert(theme::span_views(v@.push(s)) =~= theme::span_views(v@).push(s@));
    }
    v.push(s);
}

/// A text with another in front of it.
fn prefixed(a: &str, b: &str) -> (r: String)
    ensures
        r@ == a@ + b@,
{
    let mut s = copy_text(a);
    s.append(b);
    s
}

/// How a panel is framed.
#[derive(Clone, Copy, PartialEq, Eq, Debug, Structural)]
pub struct PanelLook {
    pub border: BorderType,
    pub border_style: Style,
    pub title_style: Style,
}

/// How a panel with the focus, or without it, is framed.
pub open spec fn framed(p: Palette, focused: bool) -> PanelLook {
    PanelLook {
        border: if focused {
            BorderType::Thick
        } else {
            BorderType::Plain
        },
        border_style: if focused {
            Style { bold: true, ..theme::plain() }
        } else {
            theme::coloured(p.dim)
        },
        title_style: Style { bold: focused, reset: true, ..theme::plain() },
    }
}

/// How a panel is framed. `panel` is one of the two that take the focus; the detail panel, which
/// never does, is `None`.
pub fn panel_look(p: &Palette, app: &App, panel: Option<Panel>) -> (r: PanelLook)
    ensures
        r == framed(*p, panel == Some(app@.panel)),
{
    let focused = match panel {
        Some(q) => q == app.panel,
        None => false,
    };
    PanelLook {
        border: panel_border_type(focused),
        border_style: panel_border_style(p, focused),
        title_style: panel_title_style(focused),
    }
}

/// Only the panel that the keys go to is framed as the one with the focus, and no title takes the
/// colour of its border.
pub proof fn one_panel_has_the_focus(p: Palette, a: AppView, panel: Option<Panel>)
    ensures
        framed(p, panel == Some(a.panel)).border == BorderType::Thick <==> panel == Some(a.panel),
        framed(p, panel == Some(a.panel)).title_style.fg is None,
{
}

/// The mark of the selection.
pub open spec fn mark(selected: bool) -> Seq<char> {
    if selected {
        "\u{25b6} "@
    } else {
        "  "@
    }
}

/// The mark of the selection.
pub fn sel_prefix(selected: bool) -> (r: &'static str)
    ensures
        r@ == mark(selected),
{
    if selected {
        "\u{25b6} "
    } else {
        "  "
    }
}

/// A blocker in a list.
pub open spec fn blocker_sign(b: Blocker) -> Seq<char> {
    match b {
        Blocker::Prompt => "  \u{26d4}blocked"@,
        Blocker::Occluded => "  \u{1f441}copy-mode"@,
        _ => ""@,
    }
}

/// A blocker in a list. Unknown has no sign: no signal does not say that there is no blocker.
pub fn blocker_mark(b: Blocker) -> (r: &'static str)
    ensures
        r@ == blocker_sign(b),
{
    match b {
        Blocker::Prompt => "  \u{26d4}blocked",
        Blocker::Occluded => "  \u{1f441}copy-mode",
        Blocker::Nothing | Blocker::Unknown => "",
    }
}

/// A blocker in words.
pub open spec fn blocker_text(b: Blocker) -> Seq<char> {
    match b {
        Blocker::Nothing => "none"@,
        Blocker::Prompt => "permission/plan prompt (blocked)"@,
        Blocker::Occluded => "occluded (copy-mode: a human is reading)"@,
        Blocker::Unknown => "unknown"@,
    }
}

/// A blocker in words.
pub fn blocker_word(b: Blocker) -> (r: &'static str)
    ensures
        r@ == blocker_text(b),
{
    match b {
        Blocker::Nothing => "none",
        Blocker::Prompt => "permission/plan prompt (blocked)",
        Blocker::Occluded => "occluded (copy-mode: a human is reading)",
        Blocker::Unknown => "unknown",
    }
}

/// A pane's state in a list.
pub open spec fn liveness_sign(l: Liveness) -> Seq<char> {
    match l {
        Liveness::Live => ""@,
        Liveness::Dead => "  \u{2717}dead"@,
        Liveness::Unknown => "  ?"@,
    }
}

/// A blocker's sign or word in its style.
pub open spec fn blocker_span(p: Palette, b: Blocker, word: Seq<char>) -> SpanView {
    match theme::blocker_look(p, b) {
        Some(s) => theme::in_style(word, s),
        None => theme::raw(word),
    }
}

/// A blocker's sign or word in its style.
fn blocker_part(p: &Palette, b: Blocker, word: &str) -> (r: Span)
    ensures
        r@ == blocker_span(*p, b, word@),
{
    match blocker_style(p, b) {
        Some(s) => Span::styled(copy_text(word), s),
        None => Span::raw(copy_text(word)),
    }
}

/// Spans in a row that is selected or not.
pub open spec fn row_line(p: Palette, spans: Seq<SpanView>, selected: bool) -> LineView {
    LineView {
        spans,
        style: if selected {
            theme::selected_look(p)
        } else {
            theme::plain()
        },
    }
}

/// Spans in a row that is selected or not: the selection lies below the spans, whose colours
/// stay.
fn styled(p: &Palette, spans: Vec<Span>, selected: bool) -> (r: Line)
    ensures
        r@ == row_line(*p, theme::span_views(spans@), selected),
{
    let line = Line::new(spans);
    if selected {
        line.style(selected_row_style(p))
    } else {
        line
    }
}

/// The first line of a worker.
pub open spec fn worker_spans(s: SceneView, w: AgentSnapshot, selected: bool) -> Seq<SpanView> {
    let l = live::liveness_of(s.live, w.pane@);
    let b = blocker::blocker_at(s.blockers, w.pane@);
    seq![
        theme::raw(
            mark(selected) + "\u{25b8} "@ + w.name@ + "  "@ + action::dash(w.runtime@) + "  "@
                + action::dash(w.pane@) + "  "@ + w.ready@,
        ),
    ] + (if l == Liveness::Live {
        Seq::empty()
    } else {
        seq![theme::in_style(liveness_sign(l), theme::liveness_look(s.p, l))]
    }) + (if b == Blocker::Prompt || b == Blocker::Occluded {
        seq![blocker_span(s.p, b, blocker_sign(b))]
    } else {
        Seq::empty()
    })
}

/// The first line of a worker.
fn worker_head(s: &Scene, w: &AgentSnapshot, selected: bool) -> (r: Vec<Span>)
    ensures
        theme::span_views(r@) == worker_spans(s@, *w, selected),
{
    let mut t = prefixed(sel_prefix(selected), "\u{25b8} ");
    t.append(w.name.as_str());
    t.append("  ");
    t.append(or_dash(w.runtime.as_str()));
    t.append("  ");
    t.append(or_dash(w.pane.as_str()));
    t.append("  ");
    t.append(w.ready.as_str());
    let mut v: Vec<Span> = Vec::new();
    push_span(&mut v, Span::raw(t));
    let l = pane_liveness(s.live, w.pane.as_str());
    match l {
        Liveness::Live => {},
        Liveness::Dead => push_span(
            &mut v,
            Span::styled(copy_text("  \u{2717}dead"), liveness_style(s.palette, l)),
        ),
        Liveness::Unknown => push_span(
            &mut v,
            Span::styled(copy_text("  ?"), liveness_style(s.palette, l)),
        ),
    }
    let b = s.blockers.get(w.pane.as_str());
    match b {
        Blocker::Prompt | Blocker::Occluded => push_span(
            &mut v,
            blocker_part(s.palette, b, blocker_mark(b)),
        ),
        Blocker::Nothing | Blocker::Unknown => {},
    }
    proof {
        assert(theme::span_views(v@) =~= worker_spans(s@, *w, selected));
    }
    v
}

/// The first line of a task's request.
pub open spec fn request_line(s: SummariesView, id: Seq<char>) -> Seq<char> {
    if s.first.dom().contains(id) {
        s.first[id]
    } else {
        Seq::empty()
    }
}

/// The last line of a task's event log.
pub open spec fn event_line(s: SummariesView, id: Seq<char>) -> Seq<char> {
    if s.events.dom().contains(id) {
        s.events[id].1
    } else {
        Seq::empty()
    }
}

/// The last event of a task, and how long ago it was.
pub open spec fn event_note(s: SummariesView, id: Seq<char>, now: int) -> Seq<char> {
    let line = event_line(s, id);
    match model::word(line, 1) {
        Some(w) => "  "@ + w + (match model::ago_text(line, now) {
            Some(t) => " "@ + t + " ago"@,
            None => Seq::empty(),
        }),
        None => Seq::empty(),
    }
}

/// Appends the last event of a task.
fn push_event(out: &mut String, s: &Scene, id: &str)
    requires
        s.now <= stamp::NOW_MAX,
    ensures
        final(out)@ == old(out)@ + event_note(s@.sums, id@, s@.now),
{
    let ghost before = out@;
    let line = s.sums.last_event(id);
    proof {
        if let Some(ts) = model::word(line@, 0) {
            stamp::stamps_can_be_counted_from(ts, s.now);
        }
    }
    if let Some(w) = event_word(line) {
        out.append("  ");
        out.append(w);
        if let Some(t) = event_ago(line, s.now) {
            out.append(" ");
            out.append(t.as_str());
            out.append(" ago");
        }
    }
    proof {
        assert(out@ =~= before + event_note(s@.sums, id@, s@.now));
    }
}

/// What a task is about: the first line of its request and its last event.
pub open spec fn task_note(s: SceneView, t: InFlight) -> Seq<char> {
    "    "@ + request_line(s.sums, t.id@) + event_note(s.sums, t.id@, s.now)
}

/// What a task is about.
fn task_summary(s: &Scene, t: &InFlight) -> (r: String)
    requires
        s.now <= stamp::NOW_MAX,
    ensures
        r@ == task_note(s@, *t),
{
    let mut out = prefixed("    ", s.sums.first_line(t.id.as_str()));
    push_event(&mut out, s, t.id.as_str());
    out
}

/// Since when a worker has nothing to do: its last task, or its start.
pub open spec fn idle_since(m: Model, w: AgentSnapshot) -> Option<int> {
    model::later(
        match model::first_of(m.recent@, w, 0) {
            Some(ri) => stamp::epoch(m.recent@[ri].created_at@),
            None => None,
        },
        stamp::epoch(w.spawned_at@),
    )
}

/// Since when a worker has nothing to do, in words.
pub open spec fn idle_note(m: Model, w: AgentSnapshot, now: int) -> Seq<char> {
    "    idle"@ + (match idle_since(m, w) {
        Some(at) => if at <= now {
            " "@ + model::secs_text(now - at)
        } else {
            Seq::empty()
        },
        None => Seq::empty(),
    })
}

/// What a worker without a task did last; the status of that task is in its colour.
pub open spec fn idle_spans(p: Palette, m: Model, w: AgentSnapshot, now: int) -> Seq<SpanView> {
    match model::first_of(m.recent@, w, 0) {
        Some(ri) => {
            let t = m.recent@[ri];
            seq![
                theme::raw(idle_note(m, w, now) + "  last "@ + t.id@ + " "@),
                theme::in_style(t.status@, theme::status_look(p, t.status@)),
            ]
        },
        None => seq![theme::raw(idle_note(m, w, now))],
    }
}

/// What a worker is doing: the prompt that it waits for, else its newest task, else since when
/// it is idle.
pub open spec fn worker_note(s: SceneView, wi: int) -> Seq<SpanView> {
    let w = s.m.workers@[wi];
    let prompt = if s.snippets.dom().contains(w.pane@) {
        s.snippets[w.pane@]@
    } else {
        Seq::empty()
    };
    if prompt.len() > 0 {
        seq![theme::raw("    prompt: "@ + prompt[0]@)]
    } else {
        match model::newest_upto(s.m.tasks@, w, s.m.tasks@.len() as int) {
            Some(ti) => {
                let t = s.m.tasks@[ti];
                seq![
                    theme::raw(
                        "    "@ + request_line(s.sums, t.id@) + "  "@ + model::elapsed_text(
                            t.created_at@,
                            s.now,
                        ) + event_note(s.sums, t.id@, s.now),
                    ),
                ]
            },
            None => idle_spans(s.p, s.m, w, s.now),
        }
    }
}

/// The prompt that a worker waits for.
fn prompt_line<'a>(s: &'a Scene, pane: &str) -> (r: Option<&'a str>)
    ensures
        match r {
            Some(l) => s@.snippets.dom().contains(pane@) && s@.snippets[pane@]@.len() > 0 && l@
                == s@.snippets[pane@]@[0]@,
            None => !s@.snippets.dom().contains(pane@) || s@.snippets[pane@]@.len() == 0,
        },
{
    match s.snippets.get(pane) {
        Some(lines) => if lines.len() > 0 {
            Some(lines[0].as_str())
        } else {
            None
        },
        None => None,
    }
}

/// What a worker is doing.
fn worker_summary(s: &Scene, wi: usize) -> (r: Vec<Span>)
    requires
        s.wf(),
        wi < s.model.workers@.len(),
    ensures
        theme::span_views(r@) == worker_note(s@, wi as int),
{
    let w = &s.model.workers[wi];
    let mut v: Vec<Span> = Vec::new();
    if let Some(l) = prompt_line(s, w.pane.as_str()) {
        push_span(&mut v, Span::raw(prefixed("    prompt: ", l)));
        proof {
            assert(theme::span_views(v@) =~= worker_note(s@, wi as int));
        }
        return v;
    }
    match worker_activity(s.model, wi) {
        Activity::Current(ti) => {
            let t = &s.model.tasks[ti];
            proof {
                stamp::stamps_can_be_counted_from(t.created_at@, s.now);
            }
            let mut out = prefixed("    ", s.sums.first_line(t.id.as_str()));
            out.append("  ");
            let e = fmt_elapsed(t.created_at.as_str(), s.now);
            out.append(e.as_str());
            push_event(&mut out, s, t.id.as_str());
            push_span(&mut v, Span::raw(out));
        },
        Activity::Idle { since, last } => {
            let mut out = copy_text("    idle");
            proof {
                stamp::stamps_can_be_counted_from(w.spawned_at@, s.now);
                if let Some(ri) = last {
                    stamp::stamps_can_be_counted_from(
                        s.model.recent@[ri as int].created_at@,
                        s.now,
                    );
                }
            }
            if let Some(at) = since {
                if at <= s.now {
                    out.append(" ");
                    let e = fmt_secs(s.now - at);
                    out.append(e.as_str());
                }
            }
            proof {
                assert(out@ =~= idle_note(s@.m, *w, s@.now));
            }
            match last {
                Some(ri) => {
                    let t = &s.model.recent[ri];
                    out.append("  last ");
                    out.append(t.id.as_str());
                    out.append(" ");
                    push_span(&mut v, Span::raw(out));
                    push_span(
                        &mut v,
                        Span::styled(
                            copy_text(t.status.as_str()),
                            status_style(s.palette, t.status.as_str()),
                        ),
                    );
                },
                None => {
                    push_span(&mut v, Span::raw(out));
                },
            }
        },
    }
    proof {
        assert(theme::span_views(v@) =~= worker_note(s@, wi as int));
    }
    v
}

/// How many workers the header of a group counts: those that are shown.
pub open spec fn head_count(m: Model, all: Seq<WalkEvent>, g: usize) -> int {
    let shown = rows::visible_in(all);
    if shown.dom().contains(g) {
        shown[g] as int
    } else {
        m.groups@[g as int].members@.len() as int
    }
}

/// The header of a group. It has no colour: a group is no state.
pub open spec fn head_text(m: Model, all: Seq<WalkEvent>, g: usize) -> Seq<char> {
    lineage::label_of(m.workers@, m.groups@[g as int].key@) + " ("@ + text::dec(
        head_count(m, all, g) as nat,
    ) + ")"@
}

/// The lines of a row of the worker list: two for a worker and one for a task.
pub open spec fn row_lines(s: SceneView, row: Row, selected: bool) -> Seq<LineView> {
    match row {
        Row::Worker(wi) => seq![
            row_line(s.p, worker_spans(s, s.m.workers@[wi as int], selected), selected),
            row_line(s.p, worker_note(s, wi as int), selected),
        ],
        Row::Task { task, .. } => {
            let t = s.m.tasks@[task as int];
            seq![
                row_line(
                    s.p,
                    seq![
                        theme::raw(mark(selected) + "\u{2514} "@ + t.id@ + "  "@),
                        theme::in_style(t.status@, theme::status_look(s.p, t.status@)),
                    ],
                    selected,
                ),
            ]
        },
    }
}

/// Whether row `i` of the worker list is the selected one.
pub open spec fn row_selected(a: AppView, i: int) -> bool {
    a.panel == Panel::Workers && i == a.row_idx
}

/// The lines of a step of the walk; `i` rows come before it.
pub open spec fn event_lines(
    s: SceneView,
    all: Seq<WalkEvent>,
    i: int,
    e: WalkEvent,
) -> Seq<LineView> {
    match e {
        WalkEvent::GroupHead(g) => seq![theme::raw_line(head_text(s.m, all, g))],
        WalkEvent::Row(row) => row_lines(s, row, row_selected(s.a, i)),
    }
}

/// The lines of the first steps of the walk.
pub open spec fn lines_for(s: SceneView, all: Seq<WalkEvent>, ev: Seq<WalkEvent>) -> Seq<LineView>
    decreases ev.len(),
{
    if ev.len() == 0 {
        Seq::empty()
    } else {
        lines_for(s, all, ev.drop_last()) + event_lines(
            s,
            all,
            rows::rows_in(ev.drop_last()).len() as int,
            ev.last(),
        )
    }
}

/// The lines of the worker list.
pub open spec fn worker_list(s: SceneView) -> Seq<LineView> {
    let ev = rows::walk(s.m, s.a.filter);
    if ev.len() == 0 {
        seq![
            theme::raw_line(
                if s.a.filter.len() > 0 {
                    "  (no rows match the filter)"@
                } else {
                    "  (no workers registered)"@
                },
            ),
        ]
    } else {
        lines_for(s, ev, ev)
    }
}

/// Appends the lines of a row of the worker list.
fn push_row(out: &mut Vec<Line>, s: &Scene, row: Row, selected: bool)
    requires
        s.wf(),
        rows::row_within(*s.model, row),
    ensures
        theme::line_views(final(out)@) == theme::line_views(old(out)@) + row_lines(s@, row, selected),
{
    let ghost before = theme::line_views(out@);
    match row {
        Row::Worker(wi) => {
            let head = worker_head(s, &s.model.workers[wi], selected);
            push_line(out, styled(s.palette, head, selected));
            push_line(out, styled(s.palette, worker_summary(s, wi), selected));
        },
        Row::Task { task, .. } => {
            let t = &s.model.tasks[task];
            let mut text = prefixed(sel_prefix(selected), "\u{2514} ");
            text.append(t.id.as_str());
            text.append("  ");
            let mut v: Vec<Span> = Vec::new();
            push_span(&mut v, Span::raw(text));
            push_span(
                &mut v,
                Span::styled(
                    copy_text(t.status.as_str()),
                    status_style(s.palette, t.status.as_str()),
                ),
            );
            proof {
                assert(theme::span_views(v@) =~= seq![
                    theme::raw(mark(selected) + "\u{2514} "@ + t.id@ + "  "@),
                    theme::in_style(t.status@, theme::status_look(s@.p, t.status@)),
                ]);
            }
            push_line(out, styled(s.palette, v, selected));
        },
    }
    proof {
        assert(theme::line_views(out@) =~= before + row_lines(s@, row, selected));
    }
}

/// The lines of the worker list. They stand where the rows are counted to stand.
pub fn worker_lines(s: &Scene) -> (r: Vec<Line>)
    requires
        s.wf(),
    ensures
        theme::line_views(r@) == worker_list(s@),
{
    broadcast use vstd::std_specs::hash::group_hash_axioms;

    let ev = walk_workers(s.model, &s.app.filter);
    let shown = group_visible_members(s.model, &s.app.filter);
    let mut out: Vec<Line> = Vec::new();
    let mut row: usize = 0;
    let mut i: usize = 0;
    let tasks = s.model.tasks.len();
    let groups = s.model.groups.len();
    proof {
        assert(tasks <= usize::MAX);
        assert(groups <= usize::MAX);
        rows::walk_stays_within_the_reading(
            *s.model,
            s.app.filter.query@,
            s.model.groups@.len() as int,
        );
        rows::lemma_heads_within(*s.model, s.app.filter.query@, s.model.groups@.len() as int);
        assert(theme::line_views(out@) =~= Seq::empty());
    }
    while i < ev.len()
        invariant
            i <= ev@.len(),
            s.wf(),
            ev@ == rows::walk(*s.model, s.app.filter.query@),
            shown@ == rows::visible_in(ev@),
            rows::workers_within(ev@, s.model.workers@.len() as int),
            rows::tasks_within(*s.model, ev@),
            rows::heads_within(ev@, s.model.groups@.len() as int),
            row == rows::rows_in(ev@.take(i as int)).len(),
            row <= i,
            theme::line_views(out@) == lines_for(s@, ev@, ev@.take(i as int)),
        decreases ev@.len() - i,
    {
        proof {
            assert(ev@.take(i + 1).drop_last() =~= ev@.take(i as int));
            assert(ev@.take(i + 1).last() == ev@[i as int]);
        }
        match ev[i] {
            WalkEvent::GroupHead(g) => {
                let group = &s.model.groups[g];
                let n: usize = match shown.get(&g) {
                    Some(n) => *n,
                    None => group.members.len(),
                };
                let mut t = group_label(s.model, group);
                t.append(" (");
                push_dec(&mut t, n as u64);
                t.append(")");
                let ghost before = theme::line_views(out@);
                push_raw(&mut out, t);
                proof {
                    assert(theme::line_views(out@) =~= before + seq![
                        theme::raw_line(head_text(*s.model, ev@, g)),
                    ]);
                }
            },
            WalkEvent::Row(r) => {
                let selected = match s.app.panel {
                    Panel::Workers => row == s.app.row_idx,
                    Panel::Tasks => false,
                };
                push_row(&mut out, s, r, selected);
                row += 1;
            },
        }
        i += 1;
    }
    proof {
        assert(ev@.take(i as int) =~= ev@);
    }
    if ev.len() == 0 {
        if s.app.filter.is_active() {
            push_raw(&mut out, copy_text("  (no rows match the filter)"));
        } else {
            push_raw(&mut out, copy_text("  (no workers registered)"));
        }
        proof {
            assert(theme::line_views(out@) =~= worker_list(s@));
        }
    }
    out
}

/// The rows are drawn exactly where paging and scrolling count them: the list has as many lines
/// as are counted, and every row begins at the line that is counted for it.
pub proof fn rows_are_drawn_where_they_are_counted(
    s: SceneView,
    all: Seq<WalkEvent>,
    ev: Seq<WalkEvent>,
)
    ensures
        lines_for(s, all, ev).len() == rows::lines_total(ev),
        rows::lines_in(ev).len() == rows::rows_in(ev).len(),
        forall|i: int| #![trigger rows::lines_in(ev)[i]]
            0 <= i < rows::rows_in(ev).len() ==> {
                let l = rows::lines_in(ev)[i];
                &&& 0 <= l
                &&& l + rows::height(rows::rows_in(ev)[i]) <= rows::lines_total(ev)
                &&& lines_for(s, all, ev).subrange(l, l + rows::height(rows::rows_in(ev)[i]))
                    == row_lines(s, rows::rows_in(ev)[i], row_selected(s.a, i))
            },
    decreases ev.len(),
{
    if ev.len() > 0 {
        let t = ev.drop_last();
        rows_are_drawn_where_they_are_counted(s, all, t);
        let n = rows::rows_in(t).len() as int;
        let a = lines_for(s, all, t);
        let b = event_lines(s, all, n, ev.last());
        assert(b.len() == rows::event_height(ev.last()));
        assert forall|i: int| #![trigger rows::lines_in(ev)[i]]
            0 <= i < rows::rows_in(ev).len() implies {
            let l = rows::lines_in(ev)[i];
            &&& 0 <= l
            &&& l + rows::height(rows::rows_in(ev)[i]) <= rows::lines_total(ev)
            &&& lines_for(s, all, ev).subrange(l, l + rows::height(rows::rows_in(ev)[i]))
                == row_lines(s, rows::rows_in(ev)[i], row_selected(s.a, i))
        } by {
            if i < n {
                let l = rows::lines_in(t)[i];
                let h = rows::height(rows::rows_in(t)[i]);
                assert(rows::lines_in(ev)[i] == l);
                assert(rows::rows_in(ev)[i] == rows::rows_in(t)[i]);
                assert((a + b).subrange(l, l + h) =~= a.subrange(l, l + h));
            } else {
                let l = rows::lines_total(t);
                assert(rows::lines_in(ev)[i] == l);
                assert((a + b).subrange(l, l + b.len()) =~= b);
            }
        }
    }
}

/// The line of the worker list that has to be seen: the last one of the selected row.
pub open spec fn worker_bottom(a: AppView, m: Model) -> int {
    let top = rows::line_at(
        rows::capped_all(rows::lines_in(rows::walk(m, a.filter))),
        a.row_idx,
    );
    match app::row_at(a, m) {
        Some(row) => rows::capped(top + rows::height(row) - 1),
        None => top,
    }
}

/// How far the worker list is scrolled: the whole selected row can be seen.
pub fn worker_scroll(model: &Model, app: &App, area: Rect) -> (r: u16)
    requires
        model.wf(),
    ensures
        r == screen::offset_for(worker_bottom(app@, *model), area.height),
{
    let top = worker_line_of(model, &app.filter, app.row_idx);
    let bottom: usize = match app.selected_row(model) {
        Some(Row::Worker(_)) => if top == usize::MAX {
            top
        } else {
            top + 1
        },
        _ => top,
    };
    scroll_offset(bottom, area)
}

/// The glyph of a status.
pub open spec fn status_glyph(status: Seq<char>) -> Seq<char> {
    if status == "completed"@ {
        "\u{2713}"@
    } else if status == "failed"@ {
        "\u{2717}"@
    } else if status == "cancelled"@ {
        "-"@
    } else {
        "\u{2699}"@
    }
}

/// The glyph of a status. It never stands in the place of the word.
pub fn task_glyph(status: &str) -> (r: &'static str)
    ensures
        r@ == status_glyph(status@),
{
    if text::same(status, "completed") {
        "\u{2713}"
    } else if text::same(status, "failed") {
        "\u{2717}"
    } else if text::same(status, "cancelled") {
        "-"
    } else {
        "\u{2699}"
    }
}

/// The lines of a row of the task list.
pub open spec fn task_lines_of(s: SceneView, t: InFlight, selected: bool) -> Seq<LineView> {
    let look = theme::status_look(s.p, t.status@);
    seq![
        row_line(
            s.p,
            seq![
                theme::raw(mark(selected)),
                theme::in_style(status_glyph(t.status@), look),
                theme::raw(" "@ + t.id@ + "  "@ + t.to@ + "  "@),
                theme::in_style(t.status@, look),
            ],
            selected,
        ),
        row_line(s.p, seq![theme::raw(task_note(s, t))], selected),
    ]
}

/// Whether row `i` of the task list is the selected one.
pub open spec fn trow_selected(a: AppView, i: int) -> bool {
    a.panel == Panel::Tasks && i == a.task_idx
}

/// The lines of the first `n` rows of the task list.
pub open spec fn task_lines_upto(s: SceneView, n: int) -> Seq<LineView>
    decreases n,
{
    if n <= 0 {
        Seq::empty()
    } else {
        task_lines_upto(s, n - 1) + task_lines_of(
            s,
            s.m.recent@[app::trows_of(s.a, s.m)[n - 1]],
            trow_selected(s.a, n - 1),
        )
    }
}

/// What is said when the task list is empty: no task at all, none that the filter lets through,
/// or none without a worker. That every task has a worker is not said where there is no task.
pub open spec fn no_tasks(s: SceneView) -> Seq<char> {
    if s.m.recent@.len() == 0 {
        "  (no recent tasks)"@
    } else if s.a.filter.len() > 0 {
        "  (no rows match the filter)"@
    } else if s.a.scope == Scope::Unattached {
        "  (every task is attached to a worker)"@
    } else {
        "  (no recent tasks)"@
    }
}

/// The lines of the task list.
pub open spec fn task_list(s: SceneView) -> Seq<LineView> {
    let n = app::trows_of(s.a, s.m).len();
    if n == 0 {
        seq![theme::raw_line(no_tasks(s))]
    } else {
        task_lines_upto(s, n as int)
    }
}

/// Appends the lines of a row of the task list.
fn push_task(out: &mut Vec<Line>, s: &Scene, t: &InFlight, selected: bool)
    requires
        s.now <= stamp::NOW_MAX,
    ensures
        theme::line_views(final(out)@) == theme::line_views(old(out)@) + task_lines_of(
            s@,
            *t,
            selected,
        ),
{
    let ghost before = theme::line_views(out@);
    let look = status_style(s.palette, t.status.as_str());
    let mut v: Vec<Span> = Vec::new();
    push_span(&mut v, Span::raw(copy_text(sel_prefix(selected))));
    push_span(&mut v, Span::styled(copy_text(task_glyph(t.status.as_str())), look));
    let mut mid = prefixed(" ", t.id.as_str());
    mid.append("  ");
    mid.append(t.to.as_str());
    mid.append("  ");
    push_span(&mut v, Span::raw(mid));
    push_span(&mut v, Span::styled(copy_text(t.status.as_str()), look));
    let ghost spans = seq![
        theme::raw(mark(selected)),
        theme::in_style(status_glyph(t.status@), look),
        theme::raw(" "@ + t.id@ + "  "@ + t.to@ + "  "@),
        theme::in_style(t.status@, look),
    ];
    proof {
        assert(theme::span_views(v@) =~= spans);
    }
    push_line(out, styled(s.palette, v, selected));
    let mut note: Vec<Span> = Vec::new();
    push_span(&mut note, Span::raw(task_summary(s, t)));
    proof {
        assert(theme::span_views(note@) =~= seq![theme::raw(task_note(s@, *t))]);
    }
    push_line(out, styled(s.palette, note, selected));
    proof {
        assert(theme::line_views(out@) =~= before + task_lines_of(s@, *t, selected));
    }
}

/// The lines of the task list.
pub fn task_lines(s: &Scene) -> (r: Vec<Line>)
    requires
        s.wf(),
    ensures
        theme::line_views(r@) == task_list(s@),
{
    let rs = s.app.task_rows(s.model);
    let ghost ts = app::trows_of(s@.a, s@.m);
    proof {
        assert(lineage::ints(rs@).len() == rs@.len());
    }
    let mut out: Vec<Line> = Vec::new();
    if rs.len() == 0 {
        if s.model.recent.len() == 0 {
            push_raw(&mut out, copy_text("  (no recent tasks)"));
        } else if s.app.filter.is_active() {
            push_raw(&mut out, copy_text("  (no rows match the filter)"));
        } else {
            match s.app.scope {
                Scope::Unattached => push_raw(
                    &mut out,
                    copy_text("  (every task is attached to a worker)"),
                ),
                Scope::All => push_raw(&mut out, copy_text("  (no recent tasks)")),
            }
        }
        proof {
            assert(theme::line_views(out@) =~= task_list(s@));
        }
        return out;
    }
    let mut i: usize = 0;
    proof {
        assert(theme::line_views(out@) =~= Seq::empty());
    }
    while i < rs.len()
        invariant
            i <= rs@.len(),
            s.wf(),
            ts == app::trows_of(s@.a, s@.m),
            lineage::ints(rs@) == ts,
            forall|j: int| 0 <= j < rs@.len() ==> #[trigger] rs@[j] < s.model.recent@.len(),
            theme::line_views(out@) == task_lines_upto(s@, i as int),
        decreases rs@.len() - i,
    {
        proof {
            assert(lineage::ints(rs@)[i as int] == rs@[i as int] as int);
        }
        let selected = match s.app.panel {
            Panel::Tasks => i == s.app.task_idx,
            Panel::Workers => false,
        };
        push_task(&mut out, s, &s.model.recent[rs[i]], selected);
        i += 1;
    }
    out
}

/// Every row of the task list has the lines that paging and scrolling count for it.
pub proof fn tasks_are_drawn_where_they_are_counted(s: SceneView, n: int, i: int)
    requires
        0 <= i < n,
    ensures
        task_lines_upto(s, n).len() == n * TASK_ROW_H,
        task_lines_upto(s, n).subrange(i * TASK_ROW_H as int, i * TASK_ROW_H + TASK_ROW_H)
            == task_lines_of(
            s,
            s.m.recent@[app::trows_of(s.a, s.m)[i]],
            trow_selected(s.a, i),
        ),
    decreases n,
{
    let a = task_lines_upto(s, n - 1);
    let b = task_lines_of(
        s,
        s.m.recent@[app::trows_of(s.a, s.m)[n - 1]],
        trow_selected(s.a, n - 1),
    );
    if i < n - 1 {
        tasks_are_drawn_where_they_are_counted(s, n - 1, i);
        assert((a + b).subrange(i * TASK_ROW_H as int, i * TASK_ROW_H + TASK_ROW_H) =~= a.subrange(
            i * TASK_ROW_H as int,
            i * TASK_ROW_H + TASK_ROW_H,
        ));
    } else {
        if n > 1 {
            tasks_are_drawn_where_they_are_counted(s, n - 1, 0);
        }
        assert((a + b).subrange(i * TASK_ROW_H as int, i * TASK_ROW_H + TASK_ROW_H) =~= b);
    }
}

/// Every task is shown by its whole id and its own status word, in the colour of that status,
/// and the selection is a character of its line: neither is told by a colour alone.
pub proof fn statuses_are_shown_by_their_own_words(
    s: SceneView,
    t: InFlight,
    worker: usize,
    ti: usize,
    selected: bool,
)
    requires
        ti < s.m.tasks@.len(),
    ensures
        ({
            let spans = task_lines_of(s, t, selected)[0].spans;
            &&& spans[0].text == mark(selected)
            &&& text::contains(spans[2].text, t.id@)
            &&& spans.last() == theme::in_style(t.status@, theme::status_look(s.p, t.status@))
        }),
        ({
            let u = s.m.tasks@[ti as int];
            let spans = row_lines(s, Row::Task { worker, task: ti }, selected)[0].spans;
            &&& text::starts(spans[0].text, mark(selected))
            &&& text::contains(spans[0].text, u.id@)
            &&& spans.last() == theme::in_style(u.status@, theme::status_look(s.p, u.status@))
        }),
        mark(true) != mark(false),
{
    reveal_strlit("\u{25b6} ");
    reveal_strlit("  ");
    reveal_strlit("\u{2514} ");
    reveal_strlit(" ");
    assert(mark(true)[0] != mark(false)[0]);
    let mid = " "@ + t.id@ + "  "@ + t.to@ + "  "@;
    assert(mid.subrange(1, 1int + t.id@.len()) =~= t.id@);
    assert(text::stands_at(mid, t.id@, 1));
    let u = s.m.tasks@[ti as int];
    let head = mark(selected) + "\u{2514} "@ + u.id@ + "  "@;
    assert(head.subrange(0, 2) =~= mark(selected));
    assert(head.subrange(4, 4int + u.id@.len()) =~= u.id@);
    assert(text::stands_at(head, u.id@, 4));
}

/// The title of the task list.
pub open spec fn tasks_heading(a: AppView, m: Model) -> Seq<char> {
    let total = app::trows_of(a, m).len();
    let pos = if total == 0 {
        0
    } else {
        (a.task_idx + 1) as nat
    };
    let more = m.recent_truncated && total > 0 && a.filter.len() == 0 && a.scope == Scope::All;
    "TASKS "@ + text::dec(pos) + "/"@ + text::dec(total) + (if more {
        "+"@
    } else {
        Seq::empty()
    }) + " ["@ + a.scope.text() + "]"@
}

/// The title of the task list: the place of the selection, how many there are, and the scope.
/// A plus says that there are older ones. It stands only where the list is the whole of what
/// was read: of a part it could not be said.
pub fn tasks_title(model: &Model, app: &App) -> (r: String)
    requires
        app.task_idx < usize::MAX,
    ensures
        r@ == tasks_heading(app@, *model),
{
    let rs = app.task_rows(model);
    proof {
        assert(lineage::ints(rs@).len() == rs@.len());
    }
    let total = rs.len();
    let pos: usize = if total == 0 {
        0
    } else {
        app.task_idx + 1
    };
    let whole = match app.scope {
        Scope::All => !app.filter.is_active(),
        Scope::Unattached => false,
    };
    let mut s = copy_text("TASKS ");
    push_dec(&mut s, pos as u64);
    s.append("/");
    push_dec(&mut s, total as u64);
    let ghost before = s@;
    if model.recent_truncated && total > 0 && whole {
        s.append("+");
    } else {
        proof {
            assert(before + Seq::<char>::empty() =~= before);
        }
    }
    s.append(" [");
    s.append(app.scope.label());
    s.append("]");
    s
}

/// How far the task list is scrolled: the whole selected row can be seen.
pub fn task_scroll(app: &App, area: Rect) -> (r: u16)
    requires
        app.task_idx * TASK_ROW_H + 1 <= usize::MAX,
    ensures
        r == screen::offset_for(app@.task_idx * TASK_ROW_H + 1, area.height),
{
    scroll_offset(app.task_idx * TASK_ROW_H + 1, area)
}

/// A label and a pane's state.
pub open spec fn state_line(p: Palette, label: Seq<char>, l: Liveness) -> LineView {
    LineView {
        spans: seq![
            theme::raw(label),
            theme::in_style(action::liveness_text(l), theme::liveness_look(p, l)),
        ],
        style: theme::plain(),
    }
}

/// A label and a pane's state.
fn liveness_line(p: &Palette, label: String, l: Liveness) -> (r: Line)
    ensures
        r@ == state_line(*p, label@, l),
{
    let mut v: Vec<Span> = Vec::new();
    push_span(&mut v, Span::raw(label));
    push_span(&mut v, Span::styled(copy_text(liveness_word(l)), liveness_style(p, l)));
    proof {
        assert(theme::span_views(v@) =~= state_line(*p, label@, l).spans);
    }
    Line::new(v)
}

/// The line of a blocker.
pub open spec fn blocker_row(p: Palette, b: Blocker) -> LineView {
    LineView {
        spans: seq![theme::raw("blocker: "@), blocker_span(p, b, blocker_text(b))],
        style: theme::plain(),
    }
}

/// The line of a blocker.
fn blocker_line(p: &Palette, b: Blocker) -> (r: Line)
    ensures
        r@ == blocker_row(*p, b),
{
    let mut v: Vec<Span> = Vec::new();
    push_span(&mut v, Span::raw(copy_text("blocker: ")));
    push_span(&mut v, blocker_part(p, b, blocker_word(b)));
    proof {
        assert(theme::span_views(v@) =~= blocker_row(*p, b).spans);
    }
    Line::new(v)
}

/// The width of the labels of the detail panel.
pub const LINEAGE_LABEL_W: usize = 9;

/// The lineage of a worker in the detail panel; `fit` is the width that its line must not
/// exceed, where it must not wrap.
pub open spec fn lineage_text(m: Model, w: AgentSnapshot, fit: Option<int>) -> Seq<char> {
    match lineage::breadcrumb_of(m.workers@, w) {
        Some(c) => match fit {
            Some(n) => lineage::fitted_line(
                c,
                if n < LINEAGE_LABEL_W {
                    0
                } else {
                    n - LINEAGE_LABEL_W
                },
            ),
            None => lineage::line_of(c),
        },
        None => STANDALONE_LABEL@,
    }
}

/// The lineage of a worker in the detail panel.
fn lineage_line(model: &Model, w: &AgentSnapshot, fit: Option<usize>) -> (r: String)
    ensures
        r@ == lineage_text(*model, *w, model::opt_index(fit)),
{
    match breadcrumb(model, w) {
        Some(c) => match fit {
            Some(n) => {
                let width: usize = if n < LINEAGE_LABEL_W {
                    0
                } else {
                    n - LINEAGE_LABEL_W
                };
                breadcrumb_line_fit(c.as_slice(), width)
            },
            None => breadcrumb_line(c.as_slice()),
        },
        None => copy_text(STANDALONE_LABEL),
    }
}

/// A worker in the detail panel.
pub open spec fn worker_facts(s: SceneView, w: AgentSnapshot, fit: Option<int>) -> Seq<LineView> {
    seq![
        theme::raw_line("name   : "@ + w.name@),
        theme::raw_line("pane   : "@ + action::dash(w.pane@)),
        theme::raw_line("runtime: "@ + action::dash(w.runtime@)),
        theme::raw_line("ready  : "@ + w.ready@),
        theme::raw_line("lineage: "@ + lineage_text(s.m, w, fit)),
        theme::raw_line("origin : "@ + live::detail_of(s.live, model::origin_of(w))),
        state_line(s.p, "state  : "@, live::liveness_of(s.live, w.pane@)),
        blocker_row(s.p, blocker::blocker_at(s.blockers, w.pane@)),
    ]
}

/// A task in the detail panel.
pub open spec fn task_facts(s: SceneView, t: InFlight, worker: Option<AgentSnapshot>) -> Seq<LineView> {
    seq![
        theme::raw_line("task-id: "@ + t.id@),
        theme::raw_line("from   : "@ + t.from@),
        theme::raw_line("to     : "@ + t.to@),
        LineView {
            spans: seq![
                theme::raw("status : "@),
                theme::in_style(t.status@, theme::status_look(s.p, t.status@)),
            ],
            style: theme::plain(),
        },
    ] + (match worker {
        Some(w) => seq![
            state_line(
                s.p,
                "pane   : "@ + action::dash(w.pane@) + "  "@,
                live::liveness_of(s.live, w.pane@),
            ),
            blocker_row(s.p, blocker::blocker_at(s.blockers, w.pane@)),
        ],
        None => Seq::empty(),
    })
}

/// The commands of the evidence.
pub open spec fn commands_of(sel: app::SelView) -> Seq<Seq<char>> {
    match sel {
        app::SelView::Nothing => Seq::empty(),
        app::SelView::Worker(_) => seq!["agent-bridge list --long"@],
        app::SelView::Task { task, .. } => seq![
            "agent-bridge read "@ + task.id@,
            "agent-bridge status "@ + task.id@,
        ],
    }
}

/// The commands of the evidence below what is said of the selection.
pub open spec fn command_lines(cmds: Seq<Seq<char>>) -> Seq<LineView> {
    if cmds.len() == 0 {
        Seq::empty()
    } else {
        seq![theme::raw_line(Seq::empty()), theme::raw_line("evidence:"@)] + cmds.map_values(
            |c: Seq<char>| theme::raw_line("  $ "@ + c),
        )
    }
}

/// The lines of the detail panel.
pub open spec fn detail_list(s: SceneView, fit: Option<int>) -> Seq<LineView> {
    let sel = app::selection_of(s.a, s.m);
    (match sel {
        app::SelView::Nothing => seq![theme::raw_line("(nothing selected)"@)],
        app::SelView::Worker(w) => worker_facts(s, w, fit),
        app::SelView::Task { task, worker } => task_facts(s, task, worker),
    }) + command_lines(commands_of(sel))
}

/// What is a command and what is not among the lines of the evidence, by what they start with.
proof fn lemma_command_starts(rest: Seq<char>)
    ensures
        text::starts("agent-bridge list --long"@, "agent-bridge"@),
        text::starts("agent-bridge read "@ + rest, "agent-bridge"@),
        text::starts("agent-bridge status "@ + rest, "agent-bridge"@),
        !text::starts("task-id: "@ + rest, "agent-bridge"@),
        !text::starts("pane: "@ + rest, "agent-bridge"@),
{
    reveal_strlit("agent-bridge");
    assert("agent-bridge"@.len() == 12 && "agent-bridge"@[0] == 'a');
    assert(text::starts("agent-bridge list --long"@, "agent-bridge"@)) by {
        reveal_strlit("agent-bridge list --long");
        assert("agent-bridge list --long"@.subrange(0, 12) =~= "agent-bridge"@);
    }
    assert(text::starts("agent-bridge read "@ + rest, "agent-bridge"@)) by {
        reveal_strlit("agent-bridge read ");
        assert(("agent-bridge read "@ + rest).subrange(0, 12) =~= "agent-bridge"@);
    }
    assert(text::starts("agent-bridge status "@ + rest, "agent-bridge"@)) by {
        reveal_strlit("agent-bridge status ");
        assert(("agent-bridge status "@ + rest).subrange(0, 12) =~= "agent-bridge"@);
    }
    assert(!text::starts("task-id: "@ + rest, "agent-bridge"@)) by {
        reveal_strlit("task-id: ");
        let t = "task-id: "@ + rest;
        assert(t[0] == 't');
        if text::starts(t, "agent-bridge"@) {
            assert(t.subrange(0, 12)[0] == t[0]);
        }
    }
    assert(!text::starts("pane: "@ + rest, "agent-bridge"@)) by {
        reveal_strlit("pane: ");
        let t = "pane: "@ + rest;
        assert(t[0] == 'p');
        if text::starts(t, "agent-bridge"@) {
            assert(t.subrange(0, 12)[0] == t[0]);
        }
    }
}

/// Whether, of some lines, exactly the last ones start like a command, and are these.
pub open spec fn commands_end(e: Seq<Seq<char>>, c: Seq<Seq<char>>) -> bool {
    &&& c.len() <= e.len()
    &&& e.skip(e.len() - c.len()) == c
    &&& forall|i: int|
        0 <= i < e.len() ==> (text::starts(#[trigger] e[i], "agent-bridge"@) <==> i >= e.len()
            - c.len())
}

/// Of a worker's evidence the last line is the command.
proof fn lemma_worker_commands(w: AgentSnapshot)
    ensures
        commands_end(
            action::evidence_of(app::SelView::Worker(w)),
            commands_of(app::SelView::Worker(w)),
        ),
{
    let e = action::evidence_of(app::SelView::Worker(w));
    let c = commands_of(app::SelView::Worker(w));
    lemma_command_starts(action::dash(w.pane@));
    assert(e.len() == 2 && c.len() == 1);
    assert(e[0] == "pane: "@ + action::dash(w.pane@));
    assert(e[1] == "agent-bridge list --long"@);
    assert(e.skip(1) =~= c);
}

/// Of a task's evidence the last two lines are the commands.
proof fn lemma_task_commands(t: InFlight, who: Option<AgentSnapshot>)
    ensures
        commands_end(
            action::evidence_of(app::SelView::Task { task: t, worker: who }),
            commands_of(app::SelView::Task { task: t, worker: who }),
        ),
{
    let sel = app::SelView::Task { task: t, worker: who };
    let e = action::evidence_of(sel);
    let c = commands_of(sel);
    let n = e.len() - 2;
    lemma_command_starts(t.id@);
    assert(c.len() == 2);
    assert(n == 1 || n == 2);
    assert(e[0] == "task-id: "@ + t.id@);
    assert(e[n] == "agent-bridge read "@ + t.id@);
    assert(e[n + 1] == "agent-bridge status "@ + t.id@);
    assert(e.skip(n) =~= c);
    if n == 2 {
        let pane = (who->0).pane@;
        lemma_command_starts(pane);
        assert(e[1] == "pane: "@ + pane);
    }
}

/// Of the evidence exactly the commands start like one.
proof fn lemma_commands(sel: app::SelView)
    ensures
        commands_end(action::evidence_of(sel), commands_of(sel)),
{
    match sel {
        app::SelView::Nothing => {
            assert(action::evidence_of(sel).skip(0) =~= commands_of(sel));
        },
        app::SelView::Worker(w) => {
            lemma_worker_commands(w);
        },
        app::SelView::Task { task, worker } => {
            lemma_task_commands(task, worker);
        },
    }
}

/// The commands of the evidence.
fn commands(sel: &Sel) -> (r: Vec<String>)
    ensures
        text::texts(r@) == commands_of(sel@),
{
    let all = evidence(sel);
    let ghost e = action::evidence_of(sel@);
    let ghost n = e.len() - commands_of(sel@).len();
    let mut r: Vec<String> = Vec::new();
    let mut i: usize = 0;
    proof {
        lemma_commands(sel@);
        assert(text::texts(all@).len() == all@.len());
        assert(text::texts(r@) =~= Seq::empty());
    }
    while i < all.len()
        invariant
            i <= all@.len(),
            e == text::texts(all@),
            e.len() == all@.len(),
            0 <= n <= e.len(),
            forall|j: int|
                0 <= j < e.len() ==> (text::starts(#[trigger] e[j], "agent-bridge"@) <==> j >= n),
            text::texts(r@) == (if i > n {
                e.subrange(n, i as int)
            } else {
                Seq::empty()
            }),
        decreases all@.len() - i,
    {
        proof {
            assert(e[i as int] == all@[i as int]@);
        }
        if starts_with(all[i].as_str(), "agent-bridge") {
            let c = copy_text(all[i].as_str());
            proof {
                text::lemma_texts_push(r@, c);
                assert(e.subrange(n, i + 1) =~= text::texts(r@).push(c@));
            }
            r.push(c);
        }
        i += 1;
    }
    proof {
        assert(text::texts(r@) =~= e.skip(n));
    }
    r
}

/// Appends a worker in the detail panel.
fn push_worker_facts(v: &mut Vec<Line>, s: &Scene, w: &AgentSnapshot, fit: Option<usize>)
    ensures
        theme::line_views(final(v)@) == theme::line_views(old(v)@) + worker_facts(
            s@,
            *w,
            model::opt_index(fit),
        ),
{
    let ghost before = theme::line_views(v@);
    push_raw(v, prefixed("name   : ", w.name.as_str()));
    push_raw(v, prefixed("pane   : ", or_dash(w.pane.as_str())));
    push_raw(v, prefixed("runtime: ", or_dash(w.runtime.as_str())));
    push_raw(v, prefixed("ready  : ", w.ready.as_str()));
    push_raw(v, prefixed("lineage: ", lineage_line(s.model, w, fit).as_str()));
    let origin = window_detail(s.live, origin_label(w).as_str());
    push_raw(v, prefixed("origin : ", origin.as_str()));
    push_line(
        v,
        liveness_line(
            s.palette,
            copy_text("state  : "),
            pane_liveness(s.live, w.pane.as_str()),
        ),
    );
    push_line(v, blocker_line(s.palette, s.blockers.get(w.pane.as_str())));
    proof {
        assert(theme::line_views(v@) =~= before + worker_facts(s@, *w, model::opt_index(fit)));
    }
}

/// Appends a task in the detail panel.
fn push_task_facts(v: &mut Vec<Line>, s: &Scene, t: &InFlight, worker: Option<&AgentSnapshot>)
    ensures
        theme::line_views(final(v)@) == theme::line_views(old(v)@) + task_facts(
            s@,
            *t,
            match worker {
                Some(w) => Some(*w),
                None => None,
            },
        ),
{
    let ghost before = theme::line_views(v@);
    push_raw(v, prefixed("task-id: ", t.id.as_str()));
    push_raw(v, prefixed("from   : ", t.from.as_str()));
    push_raw(v, prefixed("to     : ", t.to.as_str()));
    let mut st: Vec<Span> = Vec::new();
    push_span(&mut st, Span::raw(copy_text("status : ")));
    push_span(
        &mut st,
        Span::styled(copy_text(t.status.as_str()), status_style(s.palette, t.status.as_str())),
    );
    proof {
        assert(theme::span_views(st@) =~= seq![
            theme::raw("status : "@),
            theme::in_style(t.status@, theme::status_look(s@.p, t.status@)),
        ]);
    }
    push_line(v, Line::new(st));
    if let Some(w) = worker {
        let mut label = prefixed("pane   : ", or_dash(w.pane.as_str()));
        label.append("  ");
        push_line(
            v,
            liveness_line(s.palette, label, pane_liveness(s.live, w.pane.as_str())),
        );
        push_line(v, blocker_line(s.palette, s.blockers.get(w.pane.as_str())));
    }
    proof {
        assert(theme::line_views(v@) =~= before + task_facts(
            s@,
            *t,
            match worker {
                Some(w) => Some(*w),
                None => None,
            },
        ));
    }
}

/// The lines of the detail panel: what is selected, and the commands that show it. `fit` is the
/// width of a line where the panel has a fixed height: a lineage that wrapped would push a
/// command out.
pub fn detail_lines(s: &Scene, fit: Option<usize>) -> (r: Vec<Line>)
    requires
        s.wf(),
    ensures
        theme::line_views(r@) == detail_list(s@, model::opt_index(fit)),
{
    let sel = s.app.selection(s.model);
    let mut v: Vec<Line> = Vec::new();
    proof {
        assert(theme::line_views(v@) =~= Seq::empty());
    }
    match &sel {
        Sel::Nothing => push_raw(&mut v, copy_text("(nothing selected)")),
        Sel::Worker(w) => push_worker_facts(&mut v, s, w, fit),
        Sel::Task { task, worker } => push_task_facts(&mut v, s, task, *worker),
    }
    let ghost facts = theme::line_views(v@);
    let cmds = commands(&sel);
    let ghost cv = commands_of(sel@);
    proof {
        assert(text::texts(cmds@).len() == cmds@.len());
    }
    if cmds.len() > 0 {
        push_raw(&mut v, String::new());
        push_raw(&mut v, copy_text("evidence:"));
        let ghost above = theme::line_views(v@);
        let ghost want = cv.map_values(|c: Seq<char>| theme::raw_line("  $ "@ + c));
        let mut i: usize = 0;
        proof {
            assert(above + want.take(0) =~= above);
        }
        while i < cmds.len()
            invariant
                i <= cmds@.len(),
                cv == text::texts(cmds@),
                cv.len() == cmds@.len(),
                want == cv.map_values(|c: Seq<char>| theme::raw_line("  $ "@ + c)),
                theme::line_views(v@) == above + want.take(i as int),
            decreases cmds@.len() - i,
        {
            proof {
                assert(cv[i as int] == cmds@[i as int]@);
                assert(above + want.take(i + 1) =~= (above + want.take(i as int)).push(
                    want[i as int],
                ));
            }
            push_raw(&mut v, prefixed("  $ ", cmds[i].as_str()));
            i += 1;
        }
        proof {
            assert(want.take(i as int) =~= want);
            assert(theme::line_views(v@) =~= facts + command_lines(cv));
        }
    } else {
        proof {
            assert(facts + command_lines(cv) =~= facts);
        }
    }
    proof {
        assert(theme::line_views(v@) =~= detail_list(s@, model::opt_index(fit)));
    }
    v
}

/// Below the lists the detail panel has room for every line of every selection: no command is
/// ever pushed out.
pub proof fn the_detail_strip_has_room_for_everything(s: SceneView, fit: Option<int>)
    ensures
        detail_list(s, fit).len() <= screen::inner_height(screen::DETAIL_STRIP_H),
{
}

/// The keys that act on every row.
pub const GLOBAL_KEYS: &'static str = "Tab/S-Tab panes \u{b7} j/k (\u{2193}\u{2191}) move \u{b7} PgUp/PgDn page \u{b7} Home/End \u{b7} / filter \u{b7} S scope \u{b7} Esc clear warn \u{b7} ? keys \u{b7} q quit";

/// A list with one more where a condition holds.
pub open spec fn with_if(v: Seq<Seq<char>>, cond: bool, s: Seq<char>) -> Seq<Seq<char>> {
    if cond {
        v.push(s)
    } else {
        v
    }
}

/// The keys that act on a row with these capabilities.
pub open spec fn key_parts(caps: app::RowCaps) -> Seq<Seq<char>> {
    let enter = match caps.enter {
        EnterAct::Focus => seq!["Enter focus pane"@],
        EnterAct::Read => seq!["Enter/r read full text"@],
        EnterAct::Nothing => Seq::empty(),
    };
    with_if(
        with_if(
            with_if(
                with_if(
                    with_if(enter, caps.info, "i info"@),
                    caps.peek,
                    "L tail preview"@,
                ),
                caps.copy,
                "c copy evidence"@,
            ),
            caps.cancel,
            "x cancel"@,
        ),
        caps.evict,
        "e evict"@,
    )
}

/// The keys that act on what is selected.
pub open spec fn keys_text(a: AppView, m: Model) -> Seq<char> {
    let parts = key_parts(app::caps_of(app::selection_of(a, m)));
    if parts.len() > 0 {
        text::join(parts, " \u{b7} "@)
    } else if app::selection_of(a, m) is Nothing {
        "(no row selected)"@
    } else {
        "(no keys act on this row)"@
    }
}

/// Appends a text where a condition holds.
fn push_if(v: &mut Vec<String>, cond: bool, s: &str)
    ensures
        text::texts(final(v)@) == with_if(text::texts(old(v)@), cond, s@),
{
    if cond {
        let t = copy_text(s);
        proof {
            text::lemma_texts_push(v@, t);
        }
        v.push(t);
    }
}

/// The keys that act on what is selected: exactly those that its capabilities allow.
pub fn row_keys(model: &Model, app: &App) -> (r: String)
    requires
        model.wf(),
    ensures
        r@ == keys_text(app@, *model),
{
    let caps = row_caps(app, model);
    let mut parts: Vec<String> = Vec::new();
    proof {
        assert(text::texts(parts@) =~= Seq::empty());
    }
    match caps.enter {
        EnterAct::Focus => {
            push_if(&mut parts, true, "Enter focus pane");
            proof {
                assert(text::texts(parts@) =~= seq!["Enter focus pane"@]);
            }
        },
        EnterAct::Read => {
            push_if(&mut parts, true, "Enter/r read full text");
            proof {
                assert(text::texts(parts@) =~= seq!["Enter/r read full text"@]);
            }
        },
        EnterAct::Nothing => {},
    }
    push_if(&mut parts, caps.info, "i info");
    push_if(&mut parts, caps.peek, "L tail preview");
    push_if(&mut parts, caps.copy, "c copy evidence");
    push_if(&mut parts, caps.cancel, "x cancel");
    push_if(&mut parts, caps.evict, "e evict");
    proof {
        assert(text::texts(parts@).len() == parts@.len());
    }
    if parts.len() > 0 {
        return join_texts(&parts, " \u{b7} ");
    }
    match app.selection(model) {
        Sel::Nothing => copy_text("(no row selected)"),
        _ => copy_text("(no keys act on this row)"),
    }
}

/// How fresh one of the two sources is.
pub open spec fn axis_text(
    name: Seq<char>,
    cadence: Seq<char>,
    age: Option<u64>,
    stale_at: u64,
) -> (Seq<char>, bool) {
    match age {
        None => (name + " unknown"@, true),
        Some(ms) => {
            let secs = text::dec((ms / 1000) as nat);
            if ms >= stale_at {
                (name + " STALE "@ + secs + "s"@, true)
            } else if 2 * ms >= stale_at {
                (name + " "@ + secs + "s ago"@, false)
            } else {
                (name + " "@ + cadence, false)
            }
        },
    }
}

/// How fresh one of the two sources is, in milliseconds, and whether it is out of date. A young
/// age has no number: one that changes with every frame teaches to look past it. Without any
/// sample there is no age to show.
pub fn axis_label(name: &str, cadence: &str, age: Option<u64>, stale_at: u64) -> (r: (String, bool))
    ensures
        (r.0@, r.1) == axis_text(name@, cadence@, age, stale_at),
{
    let mut s = copy_text(name);
    match age {
        None => {
            s.append(" unknown");
            (s, true)
        },
        Some(ms) => {
            if ms >= stale_at {
                s.append(" STALE ");
                push_dec(&mut s, ms / 1000);
                s.append("s");
                (s, true)
            } else if age_is_worth_showing(ms, stale_at) {
                s.append(" ");
                push_dec(&mut s, ms / 1000);
                s.append("s ago");
                (s, false)
            } else {
                s.append(" ");
                s.append(cadence);
                (s, false)
            }
        },
    }
}

/// The line of the filter.
pub open spec fn filter_text(a: AppView) -> Option<Seq<char>> {
    if a.filter_input {
        Some(" /"@ + a.filter + "\u{2588}"@)
    } else if a.filter.len() > 0 {
        Some(" filter: "@ + a.filter + " (press / then Esc to clear)"@)
    } else {
        None
    }
}

/// The line of the filter: with a cursor while it is typed, and with a hint while it is in
/// force.
pub fn filter_line(app: &App) -> (r: Option<String>)
    ensures
        lineage::opt_text(r) == filter_text(app@),
{
    if app.filter_input {
        let mut s = prefixed(" /", app.filter.query.as_str());
        s.append("\u{2588}");
        Some(s)
    } else if app.filter.is_active() {
        let mut s = prefixed(" filter: ", app.filter.query.as_str());
        s.append(" (press / then Esc to clear)");
        Some(s)
    } else {
        None
    }
}

/// The worker that a selection speaks of.
pub open spec fn worker_of(sel: app::SelView) -> Option<AgentSnapshot> {
    match sel {
        app::SelView::Worker(w) => Some(w),
        app::SelView::Task { worker, .. } => worker,
        app::SelView::Nothing => None,
    }
}

/// The line that says that a person is reading in the selected worker's pane.
pub open spec fn banner_text(
    a: AppView,
    m: Model,
    blockers: Option<Map<Seq<char>, Blocker>>,
) -> Option<Seq<char>> {
    match worker_of(app::selection_of(a, m)) {
        Some(w) => if blocker::blocker_at(blockers, w.pane@) == Blocker::Occluded {
            Some(
                " [info] '"@ + w.name@ + "' is "@ + blocker_text(Blocker::Occluded)
                    + " \u{2014} keys you send may land in the pager"@,
            )
        } else {
            None
        },
        None => None,
    }
}

/// The line that says that a person is reading in the selected worker's pane. Where that is not
/// known, it is not said.
pub fn copy_mode_banner(model: &Model, app: &App, blockers: &BlockerIndex) -> (r: Option<String>)
    requires
        model.wf(),
    ensures
        lineage::opt_text(r) == banner_text(app@, *model, blockers@),
{
    let w = match app.selection(model) {
        Sel::Worker(w) => w,
        Sel::Task { worker: Some(w), .. } => w,
        _ => {
            return None;
        },
    };
    match blockers.get(w.pane.as_str()) {
        Blocker::Occluded => {
            let mut s = prefixed(" [info] '", w.name.as_str());
            s.append("' is ");
            s.append(blocker_word(Blocker::Occluded));
            s.append(" \u{2014} keys you send may land in the pager");
            Some(s)
        },
        _ => None,
    }
}

/// How many extra lines the footer has.
pub open spec fn extra_rows(
    a: AppView,
    m: Model,
    blockers: Option<Map<Seq<char>, Blocker>>,
) -> int {
    (if filter_text(a) is Some {
        1int
    } else {
        0int
    }) + (if banner_text(a, m, blockers) is Some {
        1int
    } else {
        0int
    })
}

/// How many extra lines the footer has.
pub fn footer_extra_rows(model: &Model, app: &App, blockers: &BlockerIndex) -> (r: usize)
    requires
        model.wf(),
    ensures
        r == extra_rows(app@, *model, blockers@),
{
    let a: usize = if filter_line(app).is_some() {
        1
    } else {
        0
    };
    let b: usize = if copy_mode_banner(model, app, blockers).is_some() {
        1
    } else {
        0
    };
    a + b
}

/// A source's label, in the style of what is out of date where it is.
pub open spec fn axis_span(p: Palette, label: (Seq<char>, bool)) -> SpanView {
    if label.1 {
        theme::in_style(label.0, theme::bold_in(p.warning))
    } else {
        theme::raw(label.0)
    }
}

/// A source's label, in the style of what is out of date where it is.
fn axis_part(p: &Palette, label: (String, bool)) -> (r: Span)
    ensures
        r@ == axis_span(*p, (label.0@, label.1)),
{
    if label.1 {
        Span::styled(label.0, stale_style(p))
    } else {
        Span::raw(label.0)
    }
}

/// The line of the footer with the freshness and the message.
pub open spec fn status_line(s: SceneView, fresh: Freshness) -> LineView {
    LineView {
        spans: seq![
            theme::raw(" ["@),
            axis_span(s.p, axis_text("disk"@, "500ms"@, Some(fresh.disk), DISK_STALE)),
            theme::raw(" \u{b7} "@),
            axis_span(s.p, axis_text("tmux"@, "2s"@, fresh.tmux, TMUX_STALE)),
            theme::raw("] "@ + s.a.message),
        ],
        style: theme::plain(),
    }
}

/// How many warnings are shown.
pub open spec fn warnings_shown(n: int) -> int {
    if n < WARN_ROWS {
        n
    } else {
        WARN_ROWS as int
    }
}

/// A warning in the footer; the first one that is shown says how many are not.
pub open spec fn warning_text(ws: Seq<Seq<char>>, i: int) -> Seq<char> {
    let shown = warnings_shown(ws.len() as int);
    let hidden = ws.len() - shown;
    let w = ws[hidden + i];
    if i == 0 && hidden > 0 {
        " \u{26a0} ("@ + text::dec(hidden as nat) + " older warning(s) not shown) "@ + w
    } else {
        " \u{26a0} "@ + w
    }
}

/// The first `n` lines of the warnings.
pub open spec fn warning_lines(p: Palette, ws: Seq<Seq<char>>, n: int) -> Seq<LineView> {
    Seq::new(
        n as nat,
        |i: int| LineView { style: theme::bold_in(p.warning), ..theme::raw_line(warning_text(ws, i)) },
    )
}

/// The lines of a list that is there or not.
pub open spec fn maybe_line(o: Option<Seq<char>>) -> Seq<LineView> {
    match o {
        Some(t) => seq![theme::raw_line(t)],
        None => Seq::empty(),
    }
}

/// The lines of the footer: the keys of the selected row, the keys of every row, the freshness
/// with the message, the extra lines, and the warnings.
pub open spec fn footer_list(s: SceneView, fresh: Freshness) -> Seq<LineView> {
    let n = s.a.warnings.len() as int;
    seq![
        theme::raw_line(" "@ + keys_text(s.a, s.m)),
        theme::raw_line(" "@ + GLOBAL_KEYS@),
        status_line(s, fresh),
    ] + maybe_line(filter_text(s.a)) + maybe_line(banner_text(s.a, s.m, s.blockers)) + (if n == 0 {
        Seq::empty()
    } else {
        warning_lines(s.p, s.a.warnings, warnings_shown(n)).push(
            theme::raw_line(" (Esc clears warnings)"@),
        )
    })
}

/// Appends the warnings.
fn push_warnings(v: &mut Vec<Line>, p: &Palette, ws: &Vec<String>)
    ensures
        theme::line_views(final(v)@) == theme::line_views(old(v)@) + (if ws@.len() == 0 {
            Seq::empty()
        } else {
            warning_lines(*p, text::texts(ws@), warnings_shown(ws@.len() as int)).push(
                theme::raw_line(" (Esc clears warnings)"@),
            )
        }),
{
    let ghost before = theme::line_views(v@);
    let ghost wv = text::texts(ws@);
    let n = ws.len();
    if n == 0 {
        proof {
            assert(before + Seq::<LineView>::empty() =~= before);
        }
        return;
    }
    let shown: usize = if n < WARN_ROWS {
        n
    } else {
        WARN_ROWS
    };
    let hidden: usize = n - shown;
    let mut i: usize = 0;
    proof {
        assert(before + warning_lines(*p, wv, 0) =~= before);
    }
    while i < shown
        invariant
            i <= shown,
            n == ws@.len(),
            hidden == n - shown,
            shown == warnings_shown(n as int),
            wv == text::texts(ws@),
            wv.len() == n,
            theme::line_views(v@) == before + warning_lines(*p, wv, i as int),
        decreases shown - i,
    {
        let w = &ws[hidden + i];
        proof {
            assert(wv[hidden + i] == ws@[hidden + i]@);
        }
        let t = if i == 0 && hidden > 0 {
            let mut s = copy_text(" \u{26a0} (");
            push_dec(&mut s, hidden as u64);
            s.append(" older warning(s) not shown) ");
            s.append(w.as_str());
            s
        } else {
            prefixed(" \u{26a0} ", w.as_str())
        };
        push_line(v, Line::raw(t).style(warning_style(p)));
        proof {
            assert(theme::line_views(v@) =~= before + warning_lines(*p, wv, i + 1));
        }
        i += 1;
    }
    push_raw(v, copy_text(" (Esc clears warnings)"));
    proof {
        assert(theme::line_views(v@) =~= before + warning_lines(*p, wv, shown as int).push(
            theme::raw_line(" (Esc clears warnings)"@),
        ));
    }
}

/// The lines of the footer.
pub fn footer_lines(s: &Scene, fresh: Freshness) -> (r: Vec<Line>)
    requires
        s.wf(),
    ensures
        theme::line_views(r@) == footer_list(s@, fresh),
{
    let mut st: Vec<Span> = Vec::new();
    push_span(&mut st, Span::raw(copy_text(" [")));
    push_span(
        &mut st,
        axis_part(s.palette, axis_label("disk", "500ms", Some(fresh.disk), DISK_STALE)),
    );
    push_span(&mut st, Span::raw(copy_text(" \u{b7} ")));
    push_span(&mut st, axis_part(s.palette, axis_label("tmux", "2s", fresh.tmux, TMUX_STALE)));
    push_span(&mut st, Span::raw(prefixed("] ", s.app.message.as_str())));
    proof {
        assert(theme::span_views(st@) =~= status_line(s@, fresh).spans);
    }
    let mut v: Vec<Line> = Vec::new();
    push_raw(&mut v, prefixed(" ", row_keys(s.model, s.app).as_str()));
    push_raw(&mut v, prefixed(" ", GLOBAL_KEYS));
    push_line(&mut v, Line::new(st));
    let ghost a = seq![
        theme::raw_line(" "@ + keys_text(s@.a, s@.m)),
        theme::raw_line(" "@ + GLOBAL_KEYS@),
        status_line(s@, fresh),
    ];
    proof {
        assert(theme::line_views(v@) =~= a);
    }
    if let Some(l) = filter_line(s.app) {
        push_raw(&mut v, l);
    }
    let ghost b = a + maybe_line(filter_text(s@.a));
    proof {
        assert(theme::line_views(v@) =~= b);
    }
    if let Some(l) = copy_mode_banner(s.model, s.app, s.blockers) {
        push_raw(&mut v, l);
    }
    let ghost c = b + maybe_line(banner_text(s@.a, s@.m, s@.blockers));
    proof {
        assert(theme::line_views(v@) =~= c);
        assert(text::texts(s.app.warnings@).len() == s.app.warnings@.len());
    }
    push_warnings(&mut v, s.palette, &s.app.warnings);
    v
}

/// The footer has exactly the lines that the layout counts for it.
pub proof fn the_footer_has_the_lines_that_are_counted(s: SceneView, fresh: Freshness)
    ensures
        footer_list(s, fresh).len() == screen::footer_height(
            s.a.warnings.len() as int,
            extra_rows(s.a, s.m, s.blockers),
        ),
{
}

/// The newest warning is always shown, at the bottom.
pub proof fn the_newest_warning_is_shown(s: SceneView, fresh: Freshness)
    requires
        s.a.warnings.len() > 0,
    ensures
        ({
            let f = footer_list(s, fresh);
            let i = warnings_shown(s.a.warnings.len() as int) - 1;
            f[f.len() - 2] == (LineView {
                style: theme::bold_in(s.p.warning),
                ..theme::raw_line(warning_text(s.a.warnings, i))
            })
        }),
{
}

/// The lines of the question before a task is cancelled.
pub open spec fn cancel_question(id: Seq<char>) -> Seq<Seq<char>> {
    seq![
        "Confirm to run the equivalent CLI:"@,
        "$ "@ + ("agent-bridge cancel "@ + id),
        "[y/Enter] run \u{b7} [n/Esc] abort"@,
    ]
}

/// Appends a text.
fn push_text(v: &mut Vec<String>, s: String)
    ensures
        text::texts(final(v)@) == text::texts(old(v)@).push(s@),
{
    proof {
        text::lemma_texts_push(v@, s);
    }
    v.push(s);
}

/// The lines of the question before a task is cancelled: the command stands in it as it is.
pub fn confirm_lines(id: &str) -> (r: Vec<String>)
    ensures
        text::texts(r@) == cancel_question(id@),
{
    let mut v: Vec<String> = Vec::new();
    push_text(&mut v, copy_text("Confirm to run the equivalent CLI:"));
    push_text(&mut v, prefixed("$ ", cancel_cmdline(id).as_str()));
    push_text(&mut v, copy_text("[y/Enter] run \u{b7} [n/Esc] abort"));
    proof {
        assert(text::texts(v@) =~= cancel_question(id@));
    }
    v
}

/// What the page of keys says of the selected row.
pub open spec fn help_note(sel: app::SelView) -> Seq<Seq<char>> {
    match sel {
        app::SelView::Worker(_) => seq!["  x is task-rows only (cancel needs a unique task id)"@],
        app::SelView::Task { task, .. } => if rows::terminal(task.status@) {
            seq!["  terminal task: x does nothing (no transition left to cancel)"@]
        } else {
            seq!["  non-terminal task: read is refused until it is answered"@]
        },
        app::SelView::Nothing => Seq::empty(),
    }
}

/// The page of keys.
pub open spec fn help_text(a: AppView, m: Model) -> Seq<Seq<char>> {
    seq![
        "global:"@,
        "  "@ + GLOBAL_KEYS@,
        Seq::<char>::empty(),
        "current row:"@,
        "  "@ + keys_text(a, m),
    ] + help_note(app::selection_of(a, m)) + seq![
        Seq::<char>::empty(),
        "freshness (footer):"@,
        "  disk = age of the last completed scan (a scan can complete with unreadable entries skipped)"@,
        "  tmux = age of the last successful query round; unknown = no successful round yet"@,
        Seq::<char>::empty(),
        "press any key to close"@,
    ]
}

/// The page of keys: those of every row, those of the selected row, and what the freshness in
/// the footer stands for. A scan of the disk only says that it completed; a round of queries
/// says that it succeeded.
pub fn help_lines(model: &Model, app: &App) -> (r: Vec<String>)
    requires
        model.wf(),
    ensures
        text::texts(r@) == help_text(app@, *model),
{
    let mut v: Vec<String> = Vec::new();
    push_text(&mut v, copy_text("global:"));
    push_text(&mut v, prefixed("  ", GLOBAL_KEYS));
    push_text(&mut v, String::new());
    push_text(&mut v, copy_text("current row:"));
    push_text(&mut v, prefixed("  ", row_keys(model, app).as_str()));
    match app.selection(model) {
        Sel::Worker(_) => push_text(
            &mut v,
            copy_text("  x is task-rows only (cancel needs a unique task id)"),
        ),
        Sel::Task { task, .. } => {
            if is_terminal_status(task.status.as_str()) {
                push_text(
                    &mut v,
                    copy_text("  terminal task: x does nothing (no transition left to cancel)"),
                );
            } else {
                push_text(
                    &mut v,
                    copy_text("  non-terminal task: read is refused until it is answered"),
                );
            }
        },
        Sel::Nothing => {},
    }
    push_text(&mut v, String::new());
    push_text(&mut v, copy_text("freshness (footer):"));
    push_text(
        &mut v,
        copy_text(
            "  disk = age of the last completed scan (a scan can complete with unreadable entries skipped)",
        ),
    );
    push_text(
        &mut v,
        copy_text(
            "  tmux = age of the last successful query round; unknown = no successful round yet",
        ),
    );
    push_text(&mut v, String::new());
    push_text(&mut v, copy_text("press any key to close"));
    proof {
        assert(text::texts(v@) =~= help_text(app@, *model));
    }
    v
}

/// The title of the full text of a task.
pub const PAGER_TITLE: &'static str = "read (read-only, full text)";

/// What lies over the panels.
#[derive(Clone, Copy, PartialEq, Eq, Debug, Structural)]
pub enum Overlay {
    Nothing,
    Confirm,
    Evict,
    Pager,
    Info,
    Peek,
    Help,
}

/// What lies over the panels: a question first.
pub open spec fn overlay_of(a: AppView) -> Overlay {
    if a.confirm is Some {
        Overlay::Confirm
    } else if a.evict_prompt is Some {
        Overlay::Evict
    } else if a.pager is Some {
        Overlay::Pager
    } else if a.info is Some {
        Overlay::Info
    } else if a.peek is Some {
        Overlay::Peek
    } else if a.help {
        Overlay::Help
    } else {
        Overlay::Nothing
    }
}

/// What lies over the panels.
pub fn overlay(app: &App) -> (r: Overlay)
    ensures
        r == overlay_of(app@),
{
    if app.confirm.is_some() {
        Overlay::Confirm
    } else if app.evict_prompt.is_some() {
        Overlay::Evict
    } else if app.pager.is_some() {
        Overlay::Pager
    } else if app.info.is_some() {
        Overlay::Info
    } else if app.peek.is_some() {
        Overlay::Peek
    } else if app.help {
        Overlay::Help
    } else {
        Overlay::Nothing
    }
}

/// What is drawn on top is what the keys go to: a question that can be seen is the one that is
/// answered, and only what can be seen is closed.
#[verifier::spinoff_prover]
pub proof fn keys_go_to_what_is_on_top(a: AppView, m: Model, key: app::Key)
    ensures
        ({
            let r = app::pressed(a, m, key);
            let on_top = overlay_of(a);
            &&& on_top == Overlay::Nothing <==> !app::overlaid(a)
            &&& r.1 is Cancel ==> on_top == Overlay::Confirm
            &&& r.1 is Evict ==> on_top == Overlay::Evict
            &&& on_top == Overlay::Confirm || on_top == Overlay::Nothing || r.0.confirm == a.confirm
            &&& on_top == Overlay::Evict || r.0.evict_prompt == a.evict_prompt
            &&& on_top == Overlay::Pager || r.0.pager == a.pager
            &&& on_top == Overlay::Info || r.0.info == a.info
            &&& on_top == Overlay::Peek || r.0.peek == a.peek
            &&& on_top == Overlay::Help || on_top == Overlay::Nothing || r.0.help == a.help
        }),
{
    let after = app::step(a, m, key).0;
    assert(app::pressed(a, m, key) == (app::keyed(after, m), app::step(a, m, key).1));
    if app::overlaid(a) {
        assert(app::step(a, m, key) == app::overlay_step(a, key));
    } else if a.filter_input {
        assert(after == app::filter_step(a, m, key));
    } else {
        assert(app::step(a, m, key) == app::command_step(a, m, key));
        if let app::Key::Char(c) = key {
            assert(app::step(a, m, key) == app::letter_step(a, m, c));
        }
    }
}

/// A box over the panels.
pub struct Popup {
    pub title: String,
    pub lines: Vec<String>,
    pub rect: Rect,
}

/// A box over the panels.
pub struct PopupView {
    pub title: Seq<char>,
    pub lines: Seq<Seq<char>>,
    pub rect: Rect,
}

impl View for Popup {
    type V = PopupView;

    open spec fn view(&self) -> PopupView {
        PopupView { title: self.title@, lines: text::texts(self.lines@), rect: self.rect }
    }
}

/// A box with a title and lines that wants a size.
pub open spec fn popup_at(
    area: Rect,
    title: Seq<char>,
    lines: Seq<Seq<char>>,
    size: (int, int),
) -> PopupView {
    PopupView {
        title,
        lines,
        rect: screen::box_at(area, size.0 as u16, size.1 as u16, screen::widths_of(lines)),
    }
}

/// The box over the panels; the full text of a task is no box.
pub open spec fn popup_of(s: SceneView, area: Rect) -> Option<PopupView> {
    match overlay_of(s.a) {
        Overlay::Confirm => {
            let lines = cancel_question(s.a.confirm->0);
            let w = screen::most(screen::fitted(lines[1].len() + 4int), 34);
            Some(popup_at(area, "cancel task"@, lines, (w, 5)))
        },
        Overlay::Evict => {
            let lines = (s.a.evict_prompt->0).lines;
            Some(
                popup_at(
                    area,
                    "evict (wrap-up task, then reclaim)"@,
                    lines,
                    screen::wanted_size(lines, 46),
                ),
            )
        },
        Overlay::Info => {
            let lines = s.a.info->0;
            Some(
                popup_at(area, "worker info (read-only)"@, lines, screen::wanted_size(lines, 40)),
            )
        },
        Overlay::Peek => {
            let p = s.a.peek->0;
            let lines = screen::peek_text(p, area);
            Some(
                popup_at(
                    area,
                    p.title,
                    lines,
                    (screen::peek_width(p, area), screen::fitted(lines.len() + 2int)),
                ),
            )
        },
        Overlay::Help => {
            let lines = help_text(s.a, s.m);
            Some(
                popup_at(
                    area,
                    "keys (current selection)"@,
                    lines,
                    (118, screen::fitted(lines.len() + 2int)),
                ),
            )
        },
        Overlay::Pager | Overlay::Nothing => None,
    }
}

/// A box with a title and lines that wants a size.
fn boxed(area: Rect, title: &str, lines: Vec<String>, w: u16, h: u16) -> (r: Popup)
    requires
        area.fits(),
    ensures
        r@ == popup_at(area, title@, text::texts(lines@), (w as int, h as int)),
{
    let rect = popup(area, w, h, &lines);
    Popup { title: copy_text(title), lines, rect }
}

/// The box over the panels.
pub fn overlay_popup(s: &Scene, area: Rect) -> (r: Option<Popup>)
    requires
        s.wf(),
        area.fits(),
    ensures
        app::opt_view(r) == popup_of(s@, area),
{
    match overlay(s.app) {
        Overlay::Confirm => match &s.app.confirm {
            Some(id) => {
                let lines = confirm_lines(id.as_str());
                proof {
                    assert(text::texts(lines@)[1] == lines@[1]@);
                    assert(text::texts(lines@).len() == lines@.len());
                }
                let mut cmd: Vec<String> = Vec::new();
                push_text(&mut cmd, copy_text(lines[1].as_str()));
                proof {
                    assert(text::texts(cmd@).len() == 1);
                    reveal_with_fuel(screen::longest_upto, 2);
                }
                let (w, _) = box_size(&cmd, 34);
                Some(boxed(area, "cancel task", lines, w, 5))
            },
            None => None,
        },
        Overlay::Evict => match &s.app.evict_prompt {
            Some(p) => {
                let lines = text::copy_texts(&p.lines);
                let (w, h) = box_size(&lines, 46);
                Some(boxed(area, "evict (wrap-up task, then reclaim)", lines, w, h))
            },
            None => None,
        },
        Overlay::Info => match &s.app.info {
            Some(l) => {
                let lines = text::copy_texts(l);
                let (w, h) = box_size(&lines, 40);
                Some(boxed(area, "worker info (read-only)", lines, w, h))
            },
            None => None,
        },
        Overlay::Peek => match &s.app.peek {
            Some(p) => {
                let (lines, w, h) = peek_box(p, area);
                Some(boxed(area, p.title.as_str(), lines, w, h))
            },
            None => None,
        },
        Overlay::Help => {
            let lines = help_lines(s.model, s.app);
            proof {
                assert(text::texts(lines@).len() == lines@.len());
            }
            let h = fit_u16(lines.len() + 2);
            Some(boxed(area, "keys (current selection)", lines, 118, h))
        },
        Overlay::Pager | Overlay::Nothing => None,
    }
}

} // verus!
