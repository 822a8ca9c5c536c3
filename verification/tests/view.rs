use ab_tui::action::{
    evict_confirm_lines, info_page, pager_lines, EvictPrompt, EvictRequest, EvictShown,
};
use ab_tui::app::{App, PageSizes, Pager, Panel, PeekView};
use ab_tui::blocker::{Blocker, BlockerIndex, Snippets};
use ab_tui::lineage::group_by_lineage;
use ab_tui::live::{Freshness, LiveIndex};
use ab_tui::model::{Filter, Model, Scope, Summaries};
use ab_tui::paint::highlight_pager;
use ab_tui::registry::{AgentSnapshot, InFlight};
use ab_tui::rows::worker_line_of;
use ab_tui::screen::{
    footer_rows, layout, panel_heights, peek_box, popup, scroll_offset, task_scrollbar, Areas,
    Rect, DETAIL_W,
};
use ab_tui::stamp::parse_iso_to_epoch;
use ab_tui::textmap::TextMap;
use ab_tui::theme;
use ab_tui::theme::{BorderType, Color, Line, Palette, Style};
use ab_tui::view;
use ab_tui::view::{Overlay, Popup, Scene, PAGER_TITLE};
use ratatui::buffer::Buffer;
use ratatui::widgets::{Scrollbar, ScrollbarOrientation, ScrollbarState, StatefulWidget};

fn worker(name: &str, pane: &str, runtime: &str, owner: &str, spawned: bool) -> AgentSnapshot {
    AgentSnapshot {
        name: name.to_string(),
        pane: pane.to_string(),
        runtime: runtime.to_string(),
        owner: owner.to_string(),
        ready: "ready".to_string(),
        spawn_tag: format!("t1-{name}"),
        registered_at: "2026-07-31T00:00:00Z".to_string(),

        spawned_at: String::new(),
        spawned,
        corrupt: false,
        lineage_root: None,
        parent_agent: None,
    }
}

fn iso_from_id(id: &str) -> String {
    let s: Vec<char> = id.chars().take(16).collect();
    if s.len() < 16 {
        return String::new();
    }
    let g = |a: usize, b: usize| -> String { s[a..b].iter().collect() };
    format!(
        "{}-{}-{}T{}:{}:{}Z",
        g(0, 4),
        g(4, 6),
        g(6, 8),
        g(9, 11),
        g(11, 13),
        g(13, 15)
    )
}

fn task(id: &str, to: &str, status: &str) -> InFlight {
    InFlight {
        id: id.to_string(),
        created_at: iso_from_id(id),
        from: "boss".to_string(),
        to: to.to_string(),
        status: status.to_string(),
    }
}

fn with_groups(mut m: Model) -> Model {
    m.groups = group_by_lineage(&m.workers);
    m
}

fn fixture() -> (Model, LiveIndex, BlockerIndex, App) {
    let model = with_groups(Model {
        groups: Vec::new(),
        workers: vec![
            worker("alive-w", "%1", "codex", "s:@1", true),
            worker("dead-w", "%2", "codex", "s:@1", true),
            worker("occl-w", "%5", "agy", "s:@1", true),
            worker("manual-w", "%3", "agy", "", false),
            worker("other-w", "%4", "codex", "s:@9", true),
        ],
        tasks: vec![task("20260801T000000Z-aaaa", "alive-w", "running")],
        recent: vec![
            task("20260801T000000Z-aaaa", "alive-w", "running"),
            task("20260801T000001Z-bbbb", "alive-w", "failed"),
            task("20260801T000002Z-cccc", "dead-w", "completed"),
            task("20260801T000003Z-dddd", "alive-w", "queued"),
            task("20260801T000004Z-eeee", "dead-w", "cancelled"),
            task("20260801T000005Z-ffff", "alive-w", "delivered"),
        ],
        recent_truncated: false,
    });
    let mut panes = TextMap::new();
    panes.insert("%1".to_string(), vec![("s".to_string(), "@1".to_string())]);
    panes.insert("%5".to_string(), vec![("s".to_string(), "@1".to_string())]);

    let mut windows = TextMap::new();
    windows.insert("@1".to_string(), vec![("s".to_string(), "main".to_string())]);
    let live = LiveIndex {
        panes: Some(panes),
        windows: Some(windows),
        ..LiveIndex::unknown()
    };
    let mut bl = TextMap::new();
    bl.insert("%1".to_string(), Blocker::Prompt);
    bl.insert("%2".to_string(), Blocker::Nothing);
    bl.insert("%5".to_string(), Blocker::Occluded);
    let blockers = BlockerIndex { panes: Some(bl) };

    let mut app = App::new();
    app.panel = Panel::Workers;
    app.row_idx = 0;

    app.warnings.push("WARN-fixture".to_string());
    (model, live, blockers, app)
}

const ROW_DEAD_W: usize = 2;
const ROW_OCCL_W: usize = 3;

/// What stands on a screen of a given size.
struct Shot {
    areas: Areas,
    workers: Vec<Line>,
    tasks_title: String,
    tasks: Vec<Line>,
    detail: Vec<Line>,
    footer: Vec<Line>,
    pager: Vec<Line>,
    popup: Option<Popup>,
}

fn palette() -> Palette {
    Palette::ansi16()
}

fn rect(width: u16, height: u16) -> Rect {
    Rect {
        x: 0,
        y: 0,
        width,
        height,
    }
}

fn shoot(
    area: Rect,
    fresh: Freshness,
    model: &Model,
    live: &LiveIndex,
    blockers: &BlockerIndex,
    app: &App,
) -> Shot {
    let p = palette();
    let scene = Scene {
        model,
        live,
        blockers,
        app,
        sums: &Summaries::default(),
        snippets: &Snippets::default(),
        now: parse_iso_to_epoch("2026-08-01T00:10:00Z").unwrap(),
        palette: &p,
    };
    let areas = layout(
        area,
        app.warnings.len(),
        view::footer_extra_rows(model, app, blockers),
    );
    let fit = if areas.detail_strip {
        Some(areas.detail.width.saturating_sub(2) as usize)
    } else {
        None
    };
    Shot {
        workers: view::worker_lines(&scene),
        tasks_title: view::tasks_title(model, app),
        tasks: view::task_lines(&scene),
        detail: view::detail_lines(&scene, fit),
        footer: view::footer_lines(&scene, fresh),
        pager: match &app.pager {
            Some(pg) => highlight_pager(&p, &pager_lines(pg)),
            None => Vec::new(),
        },
        popup: view::overlay_popup(&scene, area),
        areas,
    }
}

fn draw() -> Shot {
    draw_with(|_| {})
}

fn draw_with(tweak: impl FnOnce(&mut App)) -> Shot {
    draw_model_with(|_, app| tweak(app))
}

fn draw_model_with(tweak: impl FnOnce(&mut Model, &mut App)) -> Shot {
    draw_fresh(Freshness::default(), tweak)
}

fn draw_fresh(fresh: Freshness, tweak: impl FnOnce(&mut Model, &mut App)) -> Shot {
    draw_at(120, 40, fresh, tweak)
}

fn draw_at(w: u16, h: u16, fresh: Freshness, tweak: impl FnOnce(&mut Model, &mut App)) -> Shot {
    let (mut model, live, blockers, mut app) = fixture();
    tweak(&mut model, &mut app);
    shoot(rect(w, h), fresh, &model, &live, &blockers, &app)
}

fn draw_blockers(bl: BlockerIndex, tweak: impl FnOnce(&mut App)) -> Shot {
    let (model, live, _, mut app) = fixture();
    tweak(&mut app);
    shoot(rect(120, 40), Freshness::default(), &model, &live, &bl, &app)
}

const WORKERS_X0: u16 = 0;
const DETAIL_X0: u16 = 120 - DETAIL_W;

fn lines_of(buf: &Shot) -> Vec<(u16, u16, &Line)> {
    let mut v = Vec::new();
    for (i, l) in buf.workers.iter().enumerate() {
        v.push((WORKERS_X0, i as u16 + 1, l));
    }
    for (i, l) in buf.tasks.iter().enumerate() {
        v.push((WORKERS_X0, i as u16 + 100, l));
    }
    for (i, l) in buf.detail.iter().enumerate() {
        v.push((DETAIL_X0, i as u16 + 1, l));
    }
    for (i, l) in buf.footer.iter().enumerate() {
        v.push((WORKERS_X0, i as u16 + 1000, l));
    }
    for (i, l) in buf.pager.iter().enumerate() {
        v.push((WORKERS_X0, i as u16 + 2000, l));
    }
    v
}

fn find(buf: &Shot, needle: &str) -> (u16, u16) {
    find_in(buf, needle, 0, u16::MAX)
}

fn find_in(buf: &Shot, needle: &str, x0: u16, x1: u16) -> (u16, u16) {
    for (x, y, l) in lines_of(buf) {
        if x0 <= x && x < x1 {
            let t = l.text();
            if let Some(at) = t.find(needle) {
                return (x + t[..at].chars().count() as u16, y);
            }
        }
    }
    panic!("{needle} is not on the screen");
}

/// The style of a character: that of its span over that of its line.
fn cell(buf: &Shot, (x, y): (u16, u16)) -> Style {
    for (x0, y0, l) in lines_of(buf) {
        let in_detail = x >= DETAIL_X0;
        if y0 == y && (x0 == DETAIL_X0) == in_detail {
            let mut at = x0 as usize;
            for s in &l.spans {
                at += s.text.chars().count();
                if (x as usize) < at {
                    if s.style.reset {
                        return s.style;
                    }
                    return Style {
                        fg: s.style.fg.or(l.style.fg),
                        bg: s.style.bg.or(l.style.bg),
                        bold: s.style.bold || l.style.bold,
                        reset: l.style.reset,
                    };
                }
            }
        }
    }
    panic!("nothing stands there");
}

fn style_at(buf: &Shot, needle: &str) -> Style {
    cell(buf, find(buf, needle))
}

fn style_in_detail(buf: &Shot, needle: &str) -> Style {
    cell(buf, find_in(buf, needle, DETAIL_X0, 120))
}

fn style_in_workers(buf: &Shot, needle: &str) -> Style {
    cell(buf, find_in(buf, needle, WORKERS_X0, DETAIL_X0))
}

fn detail_lines(buf: &Shot) -> Vec<String> {
    buf.detail.iter().map(|l| l.text()).collect()
}

fn text(buf: &Shot) -> String {
    let mut s = String::new();
    for (_, _, l) in lines_of(buf) {
        s.push_str(&l.text());
        s.push('\n');
    }
    s.push_str(&buf.tasks_title);
    s.push('\n');
    if let Some(p) = &buf.popup {
        s.push_str(&p.title);
        s.push('\n');
        for l in &p.lines {
            s.push_str(l);
            s.push('\n');
        }
    }
    s
}

#[test]
fn status_words_carry_their_semantic_colour() {
    let buf = draw();
    assert_eq!(style_at(&buf, "running").fg, Some(Color::Cyan));
    assert_eq!(style_at(&buf, "completed").fg, Some(Color::Green));
    assert_eq!(style_at(&buf, "failed").fg, Some(Color::Red));
    assert_eq!(style_at(&buf, "queued").fg, Some(Color::Yellow));
    assert_eq!(style_at(&buf, "cancelled").fg, Some(Color::DarkGray));
    assert_eq!(style_at(&buf, "delivered").fg, Some(Color::Yellow));
}

#[test]
fn detail_keeps_origin_as_evidence_next_to_agent_state() {
    let buf = draw();
    let (x, y) = find_in(&buf, "origin : s:main (@1, live)", DETAIL_X0, 120);
    assert!(x >= DETAIL_X0 && y > 0);

    find_in(&buf, "state  : live", DETAIL_X0, 120);
}

#[test]
fn selection_background_never_swallows_a_semantic_foreground() {
    let buf = draw_with(|a| {
        a.panel = Panel::Tasks;
        a.task_idx = 4;
    });

    let (x, y) = find_in(&buf, "cancelled", WORKERS_X0, DETAIL_X0);
    let s = cell(&buf, (x, y));
    assert_eq!(s.bg, Some(Color::Blue));
    assert_ne!(s.fg, s.bg);
}

#[test]
fn selected_row_uses_background_and_keeps_semantic_foreground() {
    let buf = draw();
    let (x, y) = find_in(&buf, "alive-w", WORKERS_X0, DETAIL_X0);
    assert_eq!(cell(&buf, (x, y)).bg, Some(Color::Blue));

    let (bx, by) = find_in(&buf, "blocked", WORKERS_X0, DETAIL_X0);
    assert_eq!(by, y);
    assert_eq!(cell(&buf, (bx, by)).bg, Some(Color::Blue));
    assert_eq!(cell(&buf, (bx, by)).fg, Some(Color::Red));
}

#[test]
fn footer_warning_is_bold_yellow() {
    let buf = draw();
    let s = style_at(&buf, "WARN-fixture");
    assert_eq!(s.fg, Some(Color::Yellow));
    assert!(s.bold);
}

#[test]
fn character_layer_still_carries_the_authoritative_words() {
    let buf = draw();
    let t = text(&buf);
    for w in [
        "queued",
        "delivered",
        "running",
        "completed",
        "failed",
        "cancelled",
    ] {
        assert!(t.contains(w));
    }

    for g in ["✗", "⛔"] {
        assert!(t.contains(g));
    }
    assert!(
        !t.contains("●"));

    assert_eq!(
        theme::status_style(&palette(), "blocked"),
        Style::default());
}

#[test]
fn the_footer_offers_the_tail_preview_only_where_it_works() {
    assert!(text(&draw()).contains("L tail preview"));
    assert!(
        !text(&draw_with(|a| a.row_idx = 1)).contains("L tail preview"));
    let t = text(&draw_model_with(|m, _| m.workers[0].pane = String::new()));
    assert!(
        !t.contains("L tail preview"));
}

#[test]
fn the_tail_preview_shows_the_end_not_the_beginning() {
    let lines: Vec<String> = (0..300).map(|i| format!("line-{i}")).collect();
    let t = text(&draw_with(|a| {
        a.peek = Some(PeekView {
            title: "tail preview — w1 (%5)".to_string(),
            lines: lines.clone(),
            truncated: true,
        })
    }));
    assert!(t.contains("tail preview \u{2014} w1 (%5)"));
    assert!(t.contains("line-299"));
    assert!(!t.contains("line-0 "));
    assert!(t.contains("truncated at"));
    assert!(t.contains("press any key to close"));

    let t = text(&draw_with(|a| {
        a.peek = Some(PeekView {
            title: "tail preview \u{2014} w1 (%5)".to_string(),
            lines: vec!["only".to_string()],
            truncated: false,
        })
    }));
    assert!(t.contains("only"));
    assert!(!t.contains("truncated at"));
}

#[test]
fn footer_lists_only_the_keys_valid_for_the_selected_row() {
    let t = text(&draw());
    assert!(t.contains("Enter focus pane"));
    assert!(t.contains("e evict"));
    assert!(
        !t.contains("x cancel"));

    let t = text(&draw_with(|a| a.row_idx = 1));
    assert!(t.contains("Enter/r read full text"));
    assert!(t.contains("x cancel"));
    assert!(
        !t.contains("e evict"));

    let t = text(&draw_with(|a| a.panel = Panel::Tasks));
    assert!(t.contains("Enter/r read full text"));
    assert!(
        !t.contains("e evict"));

    for buf in [
        draw(),
        draw_with(|a| a.row_idx = 1),
        draw_with(|a| a.panel = Panel::Tasks),
    ] {
        assert!(text(&buf).contains("? keys \u{b7} q quit"));
    }
}

#[test]
fn footer_hides_cancel_on_terminal_tasks() {
    let t = text(&draw_with(|a| {
        a.panel = Panel::Tasks;
        a.task_idx = 1;
    }));
    assert!(t.contains("Enter/r read full text"));
    assert!(!t.contains("x cancel"));
}

#[test]
fn footer_drops_every_key_hint_when_nothing_is_selected() {
    let t = text(&draw());
    assert!(t.contains("Enter focus pane"));

    let t = text(&draw_model_with(|m, _| {
        m.workers.clear();
        m.tasks.clear();
        m.groups.clear();
    }));
    assert!(
        !t.contains("Enter focus pane"));
    assert!(
        t.contains("(no row selected)"));
    assert!(
        t.contains("(no workers registered)"));
}

#[test]
fn footer_drops_the_info_hint_when_the_recipient_is_gone() {
    let t = text(&draw_model_with(|m, a| {
        m.recent
            .insert(0, task("20260801T000009Z-9999", "vanished-w", "completed"));
        a.panel = Panel::Tasks;
        a.task_idx = 0;
    }));
    assert!(t.contains("Enter/r read full text"));
    assert!(t.contains("c copy evidence"));
    assert!(
        !t.contains("i info"));

    let t = text(&draw_with(|a| {
        a.panel = Panel::Tasks;
        a.task_idx = 0;
    }));
    assert!(t.contains("i info"));
}

#[test]
fn help_page_has_a_global_zone_and_a_current_row_zone() {
    let t = text(&draw_with(|a| a.help = true));
    assert!(t.contains("global:"));
    assert!(t.contains("current row:"));
    assert!(t.contains("Tab/S-Tab panes"));

    assert!(t.contains("/ filter"));
    assert!(t.contains("S scope"));
    assert!(t.contains("Enter focus pane"));

    let t = text(&draw_with(|a| {
        a.panel = Panel::Tasks;
        a.help = true;
    }));
    assert!(t.contains("Enter/r read full text"));
    assert!(!t.contains("Enter focus pane"));
}

fn canon(tag: &str) -> String {
    format!("AGENT_BRIDGE_SPAWN_TAG=ab-spawn-{tag}")
}

fn lin(name: &str, pane: &str, tag: &str, root: &str, parent: Option<&str>) -> AgentSnapshot {
    AgentSnapshot {
        spawn_tag: canon(tag),
        lineage_root: Some(canon(root)),
        parent_agent: parent.map(canon),
        ..worker(name, pane, "codex", "s:@1", true)
    }
}

fn draw_workers(ws: Vec<AgentSnapshot>) -> Shot {
    draw_model_with(move |m, _| {
        m.workers = ws;
        m.tasks.clear();
        m.groups = group_by_lineage(&m.workers);
    })
}

#[test]
fn workers_column_prints_a_header_line_before_each_group() {
    let root = "root-1-aaaaaaaaaaaa";
    let buf = draw_workers(vec![
        lin("root", "%1", root, root, None),
        lin("kid", "%2", "kid-2-bbbbbbbbbbbb", root, Some(root)),
        worker("solo", "%3", "agy", "", false),
    ]);
    let (_, y_head) = find_in(&buf, "lineage root (2)", WORKERS_X0, DETAIL_X0);
    let (_, y_root) = find_in(&buf, "\u{25b8} root ", WORKERS_X0, DETAIL_X0);
    let (_, y_kid) = find_in(&buf, "\u{25b8} kid ", WORKERS_X0, DETAIL_X0);
    let (_, y_stand) = find_in(&buf, "(standalone) (1)", WORKERS_X0, DETAIL_X0);
    let (_, y_solo) = find_in(&buf, "\u{25b8} solo ", WORKERS_X0, DETAIL_X0);
    assert!(y_head < y_root && y_root < y_kid);
    assert!(y_kid < y_stand);
    assert!(y_stand < y_solo);
}

#[test]
fn a_lineage_header_still_covers_the_survivor_after_its_middle_is_gone() {
    let root = "root-1-aaaaaaaaaaaa";
    let buf = draw_workers(vec![
        lin("root", "%1", root, root, None),
        lin(
            "C",
            "%4",
            "c-4-dddddddddddd",
            root,
            Some("b-3-cccccccccccc"),
        ),
    ]);
    let (_, y_head) = find_in(&buf, "lineage root (2)", WORKERS_X0, DETAIL_X0);
    let (_, y_c) = find_in(&buf, "\u{25b8} C ", WORKERS_X0, DETAIL_X0);
    assert!(y_head < y_c);
    assert!(
        !text(&buf).contains("(standalone)"));

    let buf = draw_workers(vec![lin(
        "C",
        "%4",
        "c-4-dddddddddddd",
        root,
        Some("b-3-cccccccccccc"),
    )]);
    let t = text(&buf);
    assert!(
        t.contains("lineage root\u{2020} (aaaa)"));
    assert!(!t.contains("(standalone)"));
}

#[test]
fn detail_projects_the_lineage_breadcrumb() {
    let root = "root-1-aaaaaaaaaaaa";
    let buf = draw_model_with(|m, app| {
        m.workers = vec![
            lin("root", "%1", root, root, None),

            lin(
                "C",
                "%4",
                "C-4-dddddddddddd",
                root,
                Some("B-3-cccccccccccc"),
            ),
        ];
        m.tasks.clear();
        m.groups = group_by_lineage(&m.workers);
        app.row_idx = 1;
    });
    let want = "lineage: root \u{2192} \u{2026} \u{2192} B\u{2020} (cccc) \u{2192} C";
    let lines = detail_lines(&buf);
    assert!(
        lines.iter().any(|l| l.contains(want)));

    let plain = detail_lines(&draw());
    assert!(
        plain.iter().any(|l| l.contains("lineage: (standalone)")));
    assert!(
        !plain.iter().any(|l| l.contains("lineage: alive-w")));
}

#[test]
fn the_two_column_detail_still_wraps_instead_of_collapsing() {
    let names: Vec<String> = (1..=8).map(|i| format!("relay-node-{i:02}")).collect();
    let tags: Vec<String> = (1..=8)
        .map(|i| format!("relay-node-{i:02}-{i}-{i:012x}"))
        .collect();
    let ws: Vec<AgentSnapshot> = (0..8)
        .map(|i| {
            lin(
                &names[i],
                &format!("%{}", i + 1),
                &tags[i],
                &tags[0],
                if i == 0 { None } else { Some(&tags[i - 1]) },
            )
        })
        .collect();
    let buf = draw_model_with(|m, app| {
        m.workers = ws;
        m.tasks.clear();
        m.groups = group_by_lineage(&m.workers);
        app.row_idx = 7;
    });
    let lines = detail_lines(&buf);
    assert!(
        lines
            .iter()
            .any(|l| l.contains("relay-node-01 \u{2192} relay-node-02")));
}

#[test]
fn the_filter_says_it_is_on_and_why_the_panel_is_empty() {
    let t = text(&draw_with(|a| {
        a.filter_input = true;
        a.filter.query = "ali".into();
    }));
    assert!(t.contains("/ali\u{2588}"));

    let t = text(&draw_with(|a| a.filter.query = "ali".into()));
    assert!(t.contains("filter: ali"));

    let t = text(&draw_with(|a| a.filter.query = "zzzz".into()));
    assert!(t.contains("(no rows match the filter)"));
    assert!(
        !t.contains("(no workers registered)"));
}

#[test]
fn a_group_header_counts_only_the_rows_it_still_has() {
    let root = "root-1-aaaaaaaaaaaa";
    let buf = draw_model_with(|m, app| {
        m.workers = vec![
            lin("root", "%1", root, root, None),
            lin("kid", "%2", "kid-2-bbbbbbbbbbbb", root, Some(root)),
        ];
        m.tasks.clear();
        m.groups = group_by_lineage(&m.workers);
        app.filter.query = "kid".into();
    });
    let t = text(&buf);
    assert!(t.contains("lineage root (1)"));
    assert!(!t.contains("lineage root (2)"));
}

#[test]
fn the_tasks_panel_shows_its_scope() {
    let t = text(&draw());
    assert!(t.contains("[all]"));
    let t = text(&draw_with(|a| a.scope = Scope::Unattached));
    assert!(t.contains("[unattached]"));
    assert!(
        t.contains("(every task is attached to a worker)"));

    let t = text(&draw_model_with(|m, a| {
        m.recent = Vec::new();
        a.scope = Scope::Unattached;
    }));
    assert!(t.contains("(no recent tasks)"));
    assert!(
        !t.contains("(every task is attached"));
}

#[test]
fn an_unattached_task_never_borrows_the_current_worker() {
    let buf = draw_model_with(|m, app| {
        m.workers = vec![AgentSnapshot {
            registered_at: "2026-08-02T00:00:00Z".to_string(),
            spawned_at: String::new(),
            ..worker("occl-w", "%5", "codex", "s:@1", true)
        }];
        m.groups = group_by_lineage(&m.workers);
        m.tasks.clear();
        m.recent = vec![task("20260801T000000Z-aaaa", "occl-w", "running")];
        app.panel = Panel::Tasks;
        app.task_idx = 0;
    });
    let d = detail_lines(&buf);
    let joined = d.join("\n");
    assert!(
        joined.contains("task-id: 20260801T000000Z-aaaa"));
    assert!(
        !joined.contains("pane   : %5") && !joined.contains("pane   : "));
    let t = text(&buf);
    assert!(
        !t.contains("i info"));

    assert!(
        !t.contains("[info] "));
}

#[test]
fn the_copy_mode_banner_follows_the_three_state_snapshot() {
    let word = "occluded (copy-mode: a human is reading)";

    let t = text(&draw_with(|a| a.row_idx = ROW_OCCL_W));
    assert!(t.contains("[info] 'occl-w' is"));
    assert!(t.contains(word));

    let t = text(&draw_with(|a| a.row_idx = ROW_DEAD_W));
    assert!(!t.contains("[info] "));

    let t = text(&draw_blockers(BlockerIndex::unknown(), |a| {
        a.row_idx = ROW_OCCL_W
    }));
    assert!(
        !t.contains("[info] "));
}

#[test]
fn legacy_manual_and_invalid_all_land_under_standalone() {
    let mut legacy = worker("legacy-w", "%1", "codex", "s:@1", true);
    legacy.spawn_tag = "ab-spawn-old-1-aaaaaaaaaaaa".to_string();
    let manual = AgentSnapshot {
        spawn_tag: String::new(),
        ..worker("manual-w", "%2", "agy", "", false)
    };
    let mut invalid = worker("invalid-w", "%3", "codex", "s:@1", true);
    invalid.spawn_tag = canon("inv-9-eeeeeeeeeeee");
    invalid.lineage_root = Some(String::new());

    let buf = draw_workers(vec![legacy, manual, invalid]);
    let t = text(&buf);
    assert!(t.contains("(standalone) (3)"));
    assert!(
        !t.contains("lineage "));
}

fn with_tasks(n: usize, truncated: bool) -> impl FnOnce(&mut Model, &mut App) {
    move |m: &mut Model, a: &mut App| {
        m.recent = (0..n)
            .map(|i| {
                task(
                    &format!("20260801T0000{i:02}Z-t{i:03}"),
                    "alive-w",
                    "completed",
                )
            })
            .collect();
        m.recent_truncated = truncated;
        a.panel = Panel::Tasks;
    }
}

#[test]
fn tasks_title_shows_position_total_and_truncation() {
    let t = text(&draw_model_with(with_tasks(6, false)));
    assert!(t.contains("TASKS 1/6"));
    let t = text(&draw_model_with(|m, a| {
        with_tasks(6, false)(m, a);
        a.task_idx = 3;
    }));
    assert!(t.contains("TASKS 4/6"));
    assert!(!t.contains("TASKS 4/6+"));

    let t = text(&draw_model_with(with_tasks(6, true)));
    assert!(
        t.contains("TASKS 1/6+"));
}

#[test]
fn the_truncation_flag_never_rides_on_an_empty_task_list() {
    let t = text(&draw_model_with(with_tasks(6, true)));
    assert!(t.contains("TASKS 1/6+"));

    let t = text(&draw_model_with(|m, a| {
        with_tasks(6, true)(m, a);
        m.recent = Vec::new();
    }));
    assert!(t.contains("TASKS 0/0"));
    assert!(!t.contains("TASKS 0/0+"));

    let t = text(&draw_model_with(|m, a| {
        with_tasks(6, true)(m, a);
        a.filter.query = "20260801".into();
    }));
    assert!(!t.contains("+ ["));
    let t = text(&draw_model_with(|m, a| {
        with_tasks(6, true)(m, a);
        a.scope = Scope::Unattached;
    }));
    assert!(!t.contains("+ ["));
}

fn fresh_at(disk: u64, tmux: u64) -> Freshness {
    Freshness {
        disk,
        tmux: Some(tmux),
    }
}

#[test]
fn footer_shows_freshness_and_marks_stale_axes() {
    let t = text(&draw_fresh(
        fresh_at(0, 0),
        |_, _| {},
    ));
    assert!(t.contains("[disk 500ms · tmux 2s]"));
    assert!(!t.contains("STALE"));

    let t = text(&draw_fresh(
        fresh_at(0, 30_000),
        |_, _| {},
    ));
    assert!(t.contains("tmux STALE 30s"));
    assert!(t.contains("disk 500ms"));

    let t = text(&draw_fresh(
        fresh_at(2_000, 0),
        |_, _| {},
    ));
    assert!(t.contains("disk 2s ago"));
}

#[test]
fn footer_says_unknown_before_the_first_successful_tmux_round() {
    let t = text(&draw_fresh(Freshness::default(), |_, _| {}));
    assert!(
        t.contains("tmux unknown"));
    assert!(
        !t.contains("tmux 2s") && !t.contains("tmux 0s"));
    assert!(t.contains("disk 500ms"));
}

#[test]
fn help_states_what_each_freshness_axis_actually_proves() {
    let t = text(&draw_with(|a| a.help = true));
    assert!(
        t.contains("disk = age of the last completed scan"));
    assert!(
        t.contains("tmux = age of the last successful query round"));
    assert!(
        t.contains("no successful round yet"));
}

fn is_cjk(c: char) -> bool {
    matches!(c as u32,
        0x3000..=0x303F
        | 0x3040..=0x30FF
        | 0x3400..=0x4DBF
        | 0x4E00..=0x9FFF
        | 0xF900..=0xFAFF
        | 0xFF00..=0xFFEF)
}

fn assert_no_cjk(buf: &Shot, _what: &str) {
    for c in text(buf).chars() {
        assert!(
            !is_cjk(c));
    }
}

#[test]
fn every_chrome_surface_is_english_only() {
    assert_no_cjk(&draw(), "dashboard");

    assert_no_cjk(
        &draw_with(|a| {
            a.filter_input = true;
            a.filter.query = "ali".into();
        }),
        "filter prompt",
    );
    assert_no_cjk(
        &draw_with(|a| a.filter.query = "zzzz".into()),
        "filter empty",
    );
    assert_no_cjk(&draw_with(|a| a.row_idx = ROW_OCCL_W), "copy-mode banner");
    assert_no_cjk(
        &draw_with(|a| a.scope = Scope::Unattached),
        "unattached scope",
    );
    assert_no_cjk(&draw_with(|a| a.help = true), "? keys page");
    assert_no_cjk(
        &draw_with(|a| a.confirm = Some("20260801T000000Z-aaaa".into())),
        "cancel confirm",
    );
    let mut req = EvictRequest::new("alive-w");
    req.expect_pane = Some("%1".to_string());
    req.expect_generation = Some("t1".to_string());
    assert_no_cjk(
        &draw_with(|a| {
            a.evict_prompt = Some(EvictPrompt {
                shown: EvictShown {
                    name: "alive-w".into(),
                    pane: "%1".into(),
                    spawn_tag: "t1".into(),
                },
                lines: evict_confirm_lines(&req),
            });
        }),
        "evict evidence box",
    );

    let (model, live, blockers, _) = fixture();
    assert_no_cjk(
        &draw_with(|a| {
            a.info = Some(info_page(
                &model, &live, &blockers, "alive-w",
            ));
        }),
        "worker info page",
    );

    assert_no_cjk(
        &draw_model_with(|m, _| {
            m.workers.clear();
            m.tasks.clear();
            m.groups.clear();
            m.recent.clear();
        }),
        "empty-list placeholders",
    );
}

#[test]
fn payload_text_is_never_translated_or_stripped() {
    let payload = "收尾筆記：這段是 payload 原文";
    let buf = draw_with(|a| {
        a.pager = Some(Pager {
            id: "20260801T000000Z-aaaa".into(),
            from: "boss".into(),
            to: "alive-w".into(),
            bytes: payload.as_bytes().to_vec(),
            scroll: 0,
        });
    });

    let rendered = text(&buf);
    for c in payload.chars().filter(|c| !c.is_whitespace()) {
        assert!(
            rendered.contains(c));
    }

    assert_eq!(PAGER_TITLE, "read (read-only, full text)");
    find(&buf, "Esc/q close");
}

fn pager_of(body: &str) -> Pager {
    Pager {
        id: "20260801T000000Z-aaaa".into(),
        from: "boss".into(),
        to: "alive-w".into(),
        bytes: body.as_bytes().to_vec(),
        scroll: 0,
    }
}

fn body_styles(body: &str) -> Vec<Style> {
    let p = pager_of(body);
    let lines = highlight_pager(&palette(), &pager_lines(&p));
    lines[4..lines.len() - 2]
        .iter()
        .map(|l| {
            l.spans
                .iter()
                .map(|s| s.style)
                .find(|s| *s != Style::default())
                .unwrap_or_default()
        })
        .collect()
}

#[test]
fn fenced_code_blocks_start_and_stop_where_the_fence_says() {
    let code = theme::md_code_style(&palette());
    let st = body_styles("before\n```rust\nfn main() {}\n```\nafter\n");
    assert_ne!(st[0], code);
    assert_eq!(st[1], code);
    assert_eq!(st[2], code);
    assert_eq!(st[3], code);
    assert_ne!(st[4], code);

    let st = body_styles("```\n~~~\nstill code\n```\nout\n");
    assert_eq!(st[1], code);
    assert_eq!(st[2], code);
    assert_ne!(st[4], code);

    let st = body_styles("```\ncode here\n# Heading\nprose again\n");
    assert_eq!(st[1], code);
    assert_eq!(
        st[2],
        theme::md_heading_style(&palette()));
    assert_ne!(st[3], code);
}

#[test]
fn atx_headings_match_only_at_line_start() {
    let h = theme::md_heading_style(&palette());
    let st = body_styles("# One\n### Three\n####### Seven\na # b\n#hashtag\n  # indented\n");
    assert_eq!(st[0], h);
    assert_eq!(st[1], h);
    assert_ne!(st[2], h);
    assert_ne!(st[3], h);
    assert_ne!(st[4], h);
    assert_ne!(st[5], h);
}

#[test]
fn prose_plus_and_minus_are_never_coloured_as_diff() {
    let (add, del) = (theme::diff_add_style(&palette()), theme::diff_del_style(&palette()));
    let st = body_styles("- item one\n+ item two\n-5 度是散文\n+1 也是\n");
    for (i, s) in st.iter().enumerate() {
        assert_ne!(*s, del);
        assert_ne!(*s, add);
    }

    assert_eq!(st[0], theme::md_list_marker_style(&palette()));
    assert_eq!(st[1], theme::md_list_marker_style(&palette()));

    let st = body_styles("```diff\n- item one\n+ item two\n```\n- back to prose\n");
    assert_eq!(st[1], del);
    assert_eq!(st[2], add);
    assert_eq!(st[4], theme::md_list_marker_style(&palette()));

    let st = body_styles("diff --git a/x b/x\n@@ -1,2 +1,2 @@\n-old\n+new\n\n- next steps\n");
    assert_eq!(st[2], del);
    assert_eq!(st[3], add);
    assert_eq!(
        st[5],
        theme::md_list_marker_style(&palette()));
}

#[test]
fn liveness_glyphs_keep_three_states_apart() {
    let buf = draw();
    assert_eq!(style_at(&buf, "✗dead").fg, Some(Color::Red));

    let (x, y) = find_in(&buf, "state  : live", DETAIL_X0, 120);
    assert_eq!(
        cell(&buf, (x + "state  : ".len() as u16, y)).fg,
        Some(Color::Green)
    );
    let dead = draw_with(|a| a.row_idx = ROW_DEAD_W);
    let (dx, dy) = find_in(&dead, "state  : dead", DETAIL_X0, 120);
    assert_eq!(
        cell(&dead, (dx + "state  : ".len() as u16, dy)).fg,
        Some(Color::Red)
    );
}

#[test]
fn blocker_is_red_bold_and_none_is_not_coloured() {
    let buf = draw();
    let (x, y) = find(&buf, "⛔blocked");
    for at in [x, x + 1] {
        assert_eq!(cell(&buf, (at, y)).fg, Some(Color::Red));
        assert!(cell(&buf, (at, y)).bold);
    }

    let d = style_in_detail(&buf, "permission/plan prompt");
    assert_eq!(d.fg, Some(Color::Red));
    assert!(d.bold);

    let buf_none = draw_with(|a| a.row_idx = ROW_DEAD_W);
    let n = style_in_detail(&buf_none, "none");
    assert_ne!(n.fg, Some(Color::Red));
    assert!(!n.bold);

    let buf_occ = draw_with(|a| a.row_idx = ROW_OCCL_W);
    let o = style_in_detail(&buf_occ, "occluded");
    assert_ne!(o.fg, Some(Color::Red));
    assert!(!o.bold);

    let m = style_in_workers(&buf_occ, "copy-mode");
    assert_ne!(m.fg, Some(Color::Red));
    assert!(!m.bold);
}

fn looks(app: &App) -> [view::PanelLook; 3] {
    let p = palette();
    [
        view::panel_look(&p, app, Some(Panel::Workers)),
        view::panel_look(&p, app, Some(Panel::Tasks)),
        view::panel_look(&p, app, None),
    ]
}

#[test]
fn unfocused_panel_title_is_not_dimmed_with_its_border() {
    let (_, _, _, app) = fixture();
    let [_, tasks, _] = looks(&app);
    assert_ne!(tasks.title_style.fg, Some(Color::DarkGray));
    assert!(tasks.title_style.reset);
    assert_eq!(tasks.border_style.fg, Some(Color::DarkGray));
}

#[test]
fn focused_panel_is_distinguishable_from_the_rest() {
    let (_, _, _, mut app) = fixture();
    let [workers, tasks, detail] = looks(&app);
    assert_eq!(tasks.border, BorderType::Plain);
    assert_eq!(tasks.border_style.fg, Some(Color::DarkGray));
    assert_eq!(workers.border, BorderType::Thick);
    assert!(workers.border_style.bold && workers.title_style.bold);
    assert_eq!(detail, tasks);

    app.panel = Panel::Tasks;
    assert_eq!(looks(&app), [tasks, workers, detail]);
}

#[test]
fn a_stale_tmux_axis_reads_as_unknown_not_as_gone() {
    let (model, _, _, app) = fixture();
    let fresh = fresh_at(0, 30_000);
    let buf = shoot(
        rect(120, 40),
        fresh,
        &model,
        &LiveIndex::unknown(),
        &BlockerIndex::unknown(),
        &app,
    );
    let txt = text(&buf);
    assert!(txt.contains("tmux STALE"));
    assert!(!txt.contains("✗dead"));
    assert!(text(&draw()).contains("✗dead"));
    assert!(txt.contains("state  : unknown"));
}

/// The lines of the task panel in which a scroll bar shows a symbol.
fn bar_rows(rows: usize, pos: usize, symbol: &str) -> Vec<u16> {
    let area = layout(rect(120, 40), 1, 0).tasks;
    let within = ratatui::layout::Rect::new(area.x, area.y + 1, area.width, area.height - 2);
    let mut buf = Buffer::empty(within);
    if let Some((total, at)) = task_scrollbar(rows, pos, area) {
        let mut state = ScrollbarState::new(total).position(at);
        Scrollbar::new(ScrollbarOrientation::VerticalRight).render(within, &mut buf, &mut state);
    }
    let x = within.right() - 1;
    (within.top()..within.bottom())
        .filter(|&y| buf[(x, y)].symbol() == symbol)
        .collect()
}

#[test]
fn tasks_scrollbar_tracks_the_selection_and_only_shows_when_needed() {
    let thumb = |pos: usize| bar_rows(40, pos, "█")[0];
    assert!(thumb(0) < thumb(20));
    assert!(thumb(20) < thumb(39));
    for symbol in ["█", "║", "▲", "▼"] {
        assert!(!bar_rows(40, 0, symbol).is_empty());
        assert!(bar_rows(3, 0, symbol).is_empty());
    }

    let area = layout(rect(120, 40), 1, 0).tasks;
    let at = |rows: usize, pos: usize| task_scrollbar(rows, pos, area);
    let top = at(40, 0).expect("more rows than fit");
    let mid = at(40, 20).expect("more rows than fit");
    let bottom = at(40, 39).expect("more rows than fit");
    assert_eq!(top, (80, 0));
    assert_eq!(mid, (80, 40));
    assert_eq!(bottom, (80, 78));
    assert!(at(3, 0).is_none());

    let ten = rect(50, 12);
    assert_eq!(task_scrollbar(5, 2, ten), None);
    assert_eq!(task_scrollbar(6, 2, ten), Some((12, 4)));
}

#[test]
fn a_pane_line_as_wide_as_the_byte_bound_still_renders() {
    for len in [65_535, 65_536] {
        let wide = "w".repeat(len);
        let t = text(&draw_with(|a| {
            a.peek = Some(PeekView {
                title: "tail preview \u{2014} w1 (%5)".to_string(),
                lines: vec![wide.clone(), "tail-marker".to_string()],
                truncated: true,
            })
        }));
        assert!(t.contains("tail-marker"));
        assert!(t.contains("press any key to close"));
    }
}

fn eight_generations(app_row: usize) -> impl FnOnce(&mut Model, &mut App) {
    move |m: &mut Model, app: &mut App| {
        let names: Vec<String> = (1..=8).map(|i| format!("relay-node-{i:02}")).collect();
        let tags: Vec<String> = (1..=8)
            .map(|i| format!("relay-node-{i:02}-{i}-{i:012x}"))
            .collect();
        m.workers = (0..8)
            .map(|i| {
                lin(
                    &names[i],
                    &format!("%{}", i + 1),
                    &tags[i],
                    &tags[0],
                    if i == 0 { None } else { Some(&tags[i - 1]) },
                )
            })
            .collect();
        m.tasks.clear();
        m.groups = group_by_lineage(&m.workers);
        app.row_idx = app_row;
    }
}

#[test]
fn the_detail_strip_still_fits_the_breadcrumb_and_the_command() {
    let buf = draw_at(70, 24, Freshness::default(), eight_generations(7));
    assert!(buf.areas.detail_strip);
    let inner_w = buf.areas.detail.width as usize - 2;
    let inner_h = buf.areas.detail.height as usize - 2;
    let lines = detail_lines(&buf);
    assert!(lines.len() <= inner_h);
    let lineage = lines.iter().find(|l| l.starts_with("lineage: ")).unwrap();
    assert!(lineage.chars().count() <= inner_w);
    let t = text(&buf);
    assert!(
        t.contains("lineage: relay-node-01 \u{2192} \u{2026} \u{2192} relay-node-08"));
    assert!(
        !t.contains("relay-node-01 \u{2192} relay-node-02"));
    assert!(
        t.contains("$ agent-bridge list --long"));
}

#[test]
fn highlighting_never_changes_the_character_layer() {
    let body = "# Title\n\nprose - not a list\n- item one\n  1. nested\n\n```rust\nfn main() {}\n- inside code\n```\n\ndiff --git a/x b/x\n@@ -1,2 +1,2 @@\n-old line\n+new line\n\ntask-id: 20260801T000000Z-bbbb\nsee: below\n\t tabbed  and  spaced \n";
    let raw = pager_lines(&pager_of(body));
    let lines = highlight_pager(&palette(), &raw);
    assert_eq!(lines.len(), raw.len());
    let mut styled = 0;
    for (l, r) in lines.iter().zip(raw.iter()) {
        let joined: String = l.spans.iter().map(|s| s.text.as_str()).collect();
        assert_eq!(&joined, r);
        assert_eq!(&l.text(), r);
        if l.spans.iter().any(|s| s.style != Style::default()) {
            styled += 1;
        }
    }
    assert!(styled > 0);
}

#[test]
fn list_markers_and_meta_keys_colour_only_their_own_span() {
    let p = pager_of("- item one\ntask-id: 20260801T000000Z-bbbb\nsee: below\n");
    let lines = highlight_pager(&palette(), &pager_lines(&p));

    let list = &lines[4];
    assert_eq!(list.spans[0].text, "-");
    assert_eq!(list.spans[0].style, theme::md_list_marker_style(&palette()));
    assert_eq!(list.spans[1].text, " item one");
    assert_eq!(list.spans[1].style, Style::default());

    let meta = &lines[5];
    assert_eq!(meta.spans[0].text, "task-id:");
    assert_eq!(meta.spans[0].style, theme::md_meta_key_style(&palette()));
    assert_eq!(meta.spans[1].style, Style::default());

    let prose = &lines[6];
    assert_eq!(prose.spans.len(), 1);
    assert_eq!(prose.spans[0].style, Style::default());
}

#[test]
fn the_screen_is_parted_as_the_widths_demand() {
    let r = |x, y, width, height| Rect {
        x,
        y,
        width,
        height,
    };
    let a = layout(rect(120, 40), 1, 0);
    assert!(!a.detail_strip);
    assert_eq!(a.footer, r(0, 35, 120, 5));
    assert_eq!(a.detail, r(75, 0, 45, 35));
    assert_eq!((a.workers.x, a.workers.y, a.workers.width), (0, 0, 75));
    assert_eq!((a.tasks.x, a.tasks.width), (0, 75));
    assert_eq!(a.tasks.y, a.workers.height);
    assert_eq!(a.workers.height + a.tasks.height, 35);

    let a = layout(rect(71, 40), 0, 0);
    assert!(a.detail_strip);
    assert_eq!(a.footer, r(0, 37, 71, 3));
    assert_eq!(a.detail, r(0, 24, 71, 13));
    assert_eq!(a.workers, r(0, 0, 71, 12));
    assert_eq!(a.tasks, r(0, 12, 71, 12));

    assert!(!layout(rect(72, 40), 0, 0).detail_strip);
    assert_eq!(layout(rect(72, 40), 0, 0).workers.width, 27);

    assert_eq!(
        panel_heights(rect(71, 40), 0, 0),
        PageSizes {
            workers: 10,
            tasks: 10,
            pager: 38
        }
    );
}

#[test]
fn the_footer_grows_with_what_it_shows() {
    assert_eq!(footer_rows(0, 0), 3);
    assert_eq!(footer_rows(0, 2), 5);
    assert_eq!(footer_rows(1, 0), 5);
    assert_eq!(footer_rows(3, 1), 8);
    assert_eq!(footer_rows(9, 0), 7);

    for (warnings, filter) in [(0, false), (1, false), (2, true), (5, true)] {
        let buf = draw_with(|a| {
            a.warnings = (0..warnings).map(|i| format!("w{i}")).collect();
            if filter {
                a.filter.query = "ali".into();
            }
        });
        assert_eq!(buf.footer.len() as u16, buf.areas.footer.height);
    }
}

#[test]
fn warnings_that_do_not_fit_are_counted() {
    let buf = draw_with(|a| a.warnings = (1..=5).map(|i| format!("trouble {i}")).collect());
    let t = text(&buf);
    assert!(t.contains(" \u{26a0} (2 older warning(s) not shown) trouble 3\n"));
    assert!(t.contains(" \u{26a0} trouble 4\n"));
    assert!(t.contains(" \u{26a0} trouble 5\n"));
    assert!(!t.contains("trouble 2"));
    assert!(t.contains(" (Esc clears warnings)"));
}

#[test]
fn the_selected_line_is_scrolled_into_view() {
    assert_eq!(scroll_offset(0, rect(20, 12)), 0);
    assert_eq!(scroll_offset(9, rect(20, 12)), 0);
    assert_eq!(scroll_offset(10, rect(20, 12)), 1);
    assert_eq!(scroll_offset(30, rect(20, 12)), 21);
    assert_eq!(scroll_offset(30, rect(20, 2)), 0);
}

#[test]
fn rows_have_a_second_line_and_are_counted_so() {
    let buf = draw();
    let (_, first) = find(&buf, "\u{25b8} alive-w");
    let (_, sub) = find(&buf, "\u{2514} 20260801T000000Z-aaaa");
    let (_, second) = find(&buf, "\u{25b8} dead-w");
    assert_eq!((sub - first, second - sub), (2, 1));
    assert_eq!(buf.tasks.len(), 12);
}

#[test]
fn a_box_wraps_wide_characters() {
    let lines = |s: &str| vec![s.to_string()];
    let narrow = popup(rect(22, 20), 100, 3, &lines(&"a".repeat(40)));
    assert_eq!(
        narrow,
        Rect {
            x: 0,
            y: 8,
            width: 22,
            height: 4
        }
    );
    let wide = popup(rect(22, 20), 100, 3, &lines(&"\u{6f22}".repeat(40)));
    assert_eq!(wide.height, 6);
    let small = popup(rect(80, 20), 10, 5, &lines("x"));
    assert_eq!(
        small,
        Rect {
            x: 35,
            y: 7,
            width: 10,
            height: 5
        }
    );
}

#[test]
fn a_preview_is_cut_to_its_box() {
    let p = PeekView {
        title: "t".into(),
        lines: (0..10).map(|i| format!("line {i}")).collect(),
        truncated: true,
    };
    let (lines, w, h) = peek_box(&p, rect(60, 8));
    assert_eq!((w, h), (40, 8));
    assert_eq!(
        lines,
        vec![
            "\u{2026} truncated at 64 KiB (byte bound)".to_string(),
            "line 6".into(),
            "line 7".into(),
            "line 8".into(),
            "line 9".into(),
            "press any key to close".into(),
        ]
    );
    let (lines, w, _) = peek_box(&p, rect(10, 8));
    assert_eq!(w, 10);
    assert_eq!(lines[1], "line 6");
    assert_eq!(lines[5], "press a\u{2026}");
}

#[test]
fn the_question_lies_over_everything_else() {
    let mut app = App::new();
    assert_eq!(view::overlay(&app), Overlay::Nothing);
    app.help = true;
    assert_eq!(view::overlay(&app), Overlay::Help);
    app.peek = Some(PeekView {
        title: String::new(),
        lines: vec![],
        truncated: false,
    });
    assert_eq!(view::overlay(&app), Overlay::Peek);
    app.info = Some(vec![]);
    assert_eq!(view::overlay(&app), Overlay::Info);
    app.pager = Some(pager_of("x"));
    assert_eq!(view::overlay(&app), Overlay::Pager);
    app.evict_prompt = Some(EvictPrompt {
        shown: EvictShown {
            name: "w".into(),
            pane: "%1".into(),
            spawn_tag: "t".into(),
        },
        lines: vec![],
    });
    assert_eq!(view::overlay(&app), Overlay::Evict);
    app.confirm = Some("20260801T000000Z-aaaa".into());
    assert_eq!(view::overlay(&app), Overlay::Confirm);
}

#[test]
fn the_question_before_a_cancellation_shows_the_command() {
    let buf = draw_with(|a| a.confirm = Some("20260801T000000Z-aaaa".into()));
    let p = buf.popup.unwrap();
    assert_eq!(p.title, "cancel task");
    assert_eq!(
        p.lines,
        vec![
            "Confirm to run the equivalent CLI:".to_string(),
            "$ agent-bridge cancel 20260801T000000Z-aaaa".into(),
            "[y/Enter] run \u{b7} [n/Esc] abort".into(),
        ]
    );
    assert_eq!((p.rect.width, p.rect.height), (47, 5));
}

#[test]
fn the_age_of_a_source_is_shown_when_it_matters() {
    let at = |age| view::axis_label("disk", "500ms", age, 3_000);
    assert_eq!(at(Some(0)), ("disk 500ms".into(), false));
    assert_eq!(at(Some(1_499)), ("disk 500ms".into(), false));
    assert_eq!(at(Some(2_999)), ("disk 2s ago".into(), false));
    assert_eq!(at(Some(3_000)), ("disk STALE 3s".into(), true));
    assert_eq!(at(None), ("disk unknown".into(), true));
}

#[test]
fn group_headers_and_second_lines_shift_the_line_of_a_row() {
    let root = "root-1-aaaaaaaaaaaa";
    let m = with_groups(Model {
        groups: Vec::new(),
        workers: vec![
            lin("root", "%1", root, root, None),
            lin("kid", "%2", "kid-2-bbbbbbbbbbbb", root, Some(root)),
            worker("solo", "%3", "agy", "", false),
        ],
        tasks: Vec::new(),
        recent: Vec::new(),
        recent_truncated: false,
    });
    let nof = Filter::default();
    assert_eq!(worker_line_of(&m, &nof, 0), 1);
    assert_eq!(worker_line_of(&m, &nof, 1), 3);
    assert_eq!(worker_line_of(&m, &nof, 2), 6);
}
