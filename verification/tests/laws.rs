use ab_tui::action::{copy_payload, evidence, pager_lines};
use ab_tui::app::{handle_key, App, Key, Pager, Panel, Sel};
use ab_tui::blocker::{Blocker, BlockerIndex, Snippets};
use ab_tui::live::{pane_location_label, LiveIndex};
use ab_tui::model::{
    apply_triage, fmt_elapsed, scrub_for_display, tasks_of, Filter, Model, Summaries,
};
use ab_tui::registry::{AgentSnapshot, InFlight};
use ab_tui::rows::{
    row_key, task_rows, worker_line_of, worker_lines_total, worker_page_row, worker_row_lines,
    worker_rows, Row, RowKey,
};
use ab_tui::screen::{layout, scroll_offset, Rect};
use ab_tui::stamp::{parse_iso_to_epoch, NOW_MAX};
use ab_tui::text::lines;
use ab_tui::textmap::TextMap;
use ab_tui::theme::Palette;
use ab_tui::view::{task_lines, task_scroll, worker_lines, worker_scroll, Scene};

fn key(tag: &str) -> String {
    format!("AGENT_BRIDGE_SPAWN_TAG=ab-spawn-{tag}")
}

fn worker(name: &str, pane: &str, root: Option<&str>) -> AgentSnapshot {
    let tag = format!("{name}-1-{:0>12}", name.len());
    AgentSnapshot {
        name: name.into(),
        pane: pane.into(),
        runtime: "codex".into(),
        owner: "s:@1".into(),
        ready: "ready".into(),
        spawn_tag: key(&tag),
        registered_at: "2026-07-31T00:00:00Z".into(),
        spawned_at: "2026-07-31T00:00:00Z".into(),
        spawned: true,
        corrupt: false,
        lineage_root: root.map(key),
        parent_agent: None,
    }
}

fn root(name: &str, pane: &str) -> AgentSnapshot {
    let mut w = worker(name, pane, None);
    w.lineage_root = Some(w.spawn_tag.clone());
    w
}

fn task(id: &str, to: &str, status: &str) -> InFlight {
    InFlight {
        id: id.into(),
        created_at: "2026-08-01T00:00:00Z".into(),
        from: "boss".into(),
        to: to.into(),
        status: status.into(),
    }
}

fn pool() -> Model {
    let t1 = task("20260801T000000Z-aaaa", "a", "running");
    let t2 = task("20260801T000001Z-bbbb", "a", "queued");
    let t3 = task("20260801T000002Z-cccc", "ccc", "completed");
    Model::load(
        vec![root("a", "%1"), root("bb", "%2"), worker("ccc", "%3", None), root("dddd", "%4")],
        vec![t1.clone(), t2.clone()],
        vec![t3, t2, t1],
        false,
    )
}

fn scene_lines(m: &Model, app: &App) -> (Vec<String>, Vec<String>) {
    let (live, blockers) = (LiveIndex::unknown(), BlockerIndex::unknown());
    let (sums, snippets) = (Summaries::default(), Snippets::default());
    let palette = Palette::ansi16();
    let s = Scene {
        model: m,
        live: &live,
        blockers: &blockers,
        app,
        sums: &sums,
        snippets: &snippets,
        now: parse_iso_to_epoch("2026-08-02T00:00:00Z").unwrap(),
        palette: &palette,
    };
    (
        worker_lines(&s).iter().map(|l| l.text()).collect(),
        task_lines(&s).iter().map(|l| l.text()).collect(),
    )
}

#[test]
fn every_row_stands_in_one_group() {
    let m = pool();
    let mut seen: Vec<usize> = m.groups.iter().flat_map(|g| g.members.clone()).collect();
    seen.sort();
    assert_eq!(seen, vec![0, 1, 2, 3]);
    assert!(m.groups.iter().all(|g| !g.members.is_empty()));
}

#[test]
fn triage_does_not_depend_on_the_order_before() {
    let mut panes = TextMap::new();
    panes.insert("%4".to_string(), Blocker::Prompt);
    let b = BlockerIndex { panes: Some(panes) };
    let live = LiveIndex::unknown();
    let order = |m: &Model| -> Vec<Vec<usize>> { m.groups.iter().map(|g| g.members.clone()).collect() };

    let mut m = pool();
    apply_triage(&mut m, &live, &b);
    let once = order(&m);
    assert_eq!(once[0], vec![3]);
    apply_triage(&mut m, &live, &b);
    assert_eq!(order(&m), once);

    let mut other = pool();
    other.groups.reverse();
    apply_triage(&mut other, &live, &b);
    assert_eq!(order(&other), once);

    apply_triage(&mut other, &live, &BlockerIndex::unknown());
    assert_eq!(order(&other), order(&pool()));
}

#[test]
fn rows_stand_on_the_lines_that_are_counted() {
    let m = pool();
    let app = App::new();
    let f = Filter::default();
    let rows = worker_rows(&m, &f);
    let tops = worker_row_lines(&m, &f);
    let (drawn, tasks) = scene_lines(&m, &app);
    assert_eq!(drawn.len(), worker_lines_total(&m, &f));
    assert_eq!(rows.len(), tops.len());
    for (i, r) in rows.iter().enumerate() {
        assert_eq!(tops[i], worker_line_of(&m, &f, i));
        match row_key(&m, *r) {
            RowKey::Worker { name, .. } => assert!(drawn[tops[i]].contains(&format!("\u{25b8} {name} "))),
            RowKey::Task(id) => assert!(drawn[tops[i]].contains(&format!("\u{2514} {id} "))),
        }
    }
    let recent = task_rows(&m, &f, Default::default());
    assert_eq!(tasks.len(), 2 * recent.len());
    for (i, ti) in recent.iter().enumerate() {
        assert!(tasks[2 * i].contains(&m.recent[*ti].id));
    }
}

#[test]
fn tasks_stand_below_the_worker_that_they_belong_to() {
    let m = pool();
    let rows = worker_rows(&m, &Filter::default());
    assert_eq!(
        rows,
        vec![
            Row::Worker(0),
            Row::Task { worker: 0, task: 0 },
            Row::Task { worker: 0, task: 1 },
            Row::Worker(1),
            Row::Worker(3),
            Row::Worker(2),
        ]
    );
}

#[test]
fn a_page_passes_no_row_over() {
    let m = pool();
    let f = Filter::default();
    let tops = worker_row_lines(&m, &f);
    let mut at = 0;
    loop {
        let next = worker_page_row(&m, &f, at, 3, true);
        if next == at {
            break;
        }
        assert!(next > at);
        assert!((at + 1..next).all(|k| tops[k] - tops[at] < 3));
        at = next;
    }
    assert_eq!(at, tops.len() - 1);
    while at > 0 {
        let next = worker_page_row(&m, &f, at, 3, false);
        assert!(next < at);
        assert!((next + 1..at).all(|k| tops[at] - tops[k] < 3));
        at = next;
    }
}

#[test]
fn the_panels_lie_side_by_side_within_the_screen() {
    for w in [0u16, 1, 27, 71, 72, 80, 120, 300] {
        for h in [0u16, 1, 3, 10, 24, 40, 200] {
            for warnings in [0, 2, 9] {
                let area = Rect {
                    x: 2,
                    y: 1,
                    width: w,
                    height: h,
                };
                let a = layout(area, warnings, 1);
                for r in [a.workers, a.tasks, a.detail, a.footer] {
                    assert!(r.x >= area.x && r.y >= area.y);
                    assert!(r.x + r.width <= area.x + area.width);
                    assert!(r.y + r.height <= area.y + area.height);
                }
                assert!(w < 72 || a.workers.width >= 27);
                assert!(w < 72 || a.detail.width == 45);
            }
        }
    }
}

#[test]
fn a_scrolled_line_can_be_seen() {
    for line in 0..60usize {
        for h in 3..12u16 {
            let r = Rect {
                x: 0,
                y: 0,
                width: 10,
                height: h,
            };
            let at = scroll_offset(line, r) as usize;
            assert!(at <= line && line < at + (h as usize - 2));
        }
    }
}

#[test]
fn moves_undo_each_other() {
    let m = pool();
    let mut app = App::new();
    handle_key(&mut app, &m, Key::Tab);
    assert_eq!(app.panel, Panel::Tasks);
    handle_key(&mut app, &m, Key::BackTab);
    assert_eq!(app.panel, Panel::Workers);

    handle_key(&mut app, &m, Key::Down);
    handle_key(&mut app, &m, Key::Down);
    assert_eq!(app.row_idx, 2);
    handle_key(&mut app, &m, Key::Up);
    assert_eq!(app.row_idx, 1);
    handle_key(&mut app, &m, Key::End);
    assert_eq!(app.row_idx, 5);
    handle_key(&mut app, &m, Key::Down);
    assert_eq!(app.row_idx, 5);
    handle_key(&mut app, &m, Key::Home);
    assert_eq!(app.row_idx, 0);
    handle_key(&mut app, &m, Key::Up);
    assert_eq!(app.row_idx, 0);
}

#[test]
fn evidence_only_reads() {
    let m = pool();
    let sels = [
        Sel::Worker(&m.workers[0]),
        Sel::Task {
            task: &m.recent[0],
            worker: None,
        },
        Sel::Task {
            task: &m.tasks[0],
            worker: Some(&m.workers[0]),
        },
    ];
    for s in &sels {
        for line in evidence(s) {
            for verb in ["cancel", "evict", "despawn", "kill", "gc"] {
                assert!(!line.starts_with(&format!("agent-bridge {verb}")));
            }
        }
        assert!(!copy_payload(s).starts_with('-'));
    }
}

#[test]
fn every_stamp_can_be_counted_from() {
    assert_eq!(parse_iso_to_epoch("1970-01-01T00:00:00Z"), Some(0));
    assert_eq!(parse_iso_to_epoch("2026-08-01T00:00:00Z"), Some(1_785_542_400));
    assert!(fmt_elapsed("0000-01-01T00:00:00Z", NOW_MAX).ends_with('d'));
}

#[test]
fn the_filter_folds_the_case_of_every_alphabet() {
    let f = |q: &str| Filter { query: q.into() };
    assert!(f("ÉCOLE").matches("l'école"));
    assert!(f("école").matches("L'ÉCOLE"));
    assert!(f("ΑΘΗΝΑ").matches("αθηνα"));
    assert!(!f("ecole").matches("école"));
    assert!(f("").matches("anything"));
}

#[test]
fn bytes_that_are_no_text_are_shown_as_such() {
    let p = Pager {
        id: "t".into(),
        from: "a".into(),
        to: "b".into(),
        bytes: vec![b'o', b'k', 0xff, b'\n', 0xe6, 0xbc, 0xa2],
        scroll: 0,
    };
    let page = pager_lines(&p).join("\n");
    assert!(page.contains("ok\u{fffd}\n\u{6f22}"));
}

#[test]
fn a_text_is_cut_into_lines_and_cleaned() {
    assert_eq!(lines("a\r\nb\n\nc"), vec!["a", "b", "", "c"]);
    assert!(lines("").is_empty());
    assert_eq!(scrub_for_display("a\u{1b}[31mb"), "a [31mb");
}

/// The lengths of two parts of which the second has a fixed length.
fn fixed_end(size: u16, least: u16, want: u16) -> (u16, u16) {
    let second = want.min(size.saturating_sub(least));
    (size - second, second)
}

#[test]
fn the_parts_follow_from_the_sizes() {
    let mut sizes: Vec<u16> = (0..=130).collect();
    sizes.extend([200, 255, 256, 1000, 9999, 32767, 32768, 65535]);
    let few = [0, 1, 27, 71, 72, 73, 120, 65535];
    for &w in &few {
        for &h in &sizes {
            let (x, y) = (7.min(u16::MAX - w), 3.min(u16::MAX - h));
            let area = Rect {
                x,
                y,
                width: w,
                height: h,
            };
            let a = layout(area, 2, 0);
            let (main_h, footer_h) = fixed_end(h, 3, 6);
            assert_eq!((a.footer.y, a.footer.height), (y + main_h, footer_h));
            assert_eq!((a.footer.x, a.footer.width), (x, w));
            let (mid_w, mid_h) = if w < 72 {
                let (m, d) = fixed_end(main_h, 6, 13);
                assert_eq!(
                    a.detail,
                    Rect {
                        x,
                        y: y + m,
                        width: w,
                        height: d
                    }
                );
                (w, m)
            } else {
                assert_eq!(
                    a.detail,
                    Rect {
                        x: x + w - 45,
                        y,
                        width: 45,
                        height: main_h
                    }
                );
                (w - 45, main_h)
            };
            let first = mid_h - mid_h / 2;
            assert_eq!(
                a.workers,
                Rect {
                    x,
                    y,
                    width: mid_w,
                    height: first
                }
            );
            assert_eq!(
                a.tasks,
                Rect {
                    x,
                    y: y + first,
                    width: mid_w,
                    height: mid_h - first
                }
            );
        }
    }
}

#[test]
fn a_pane_is_named_by_its_first_place() {
    let panes = "%1\ts\t@1\n%1\tb\t@2\n%2\ts\t@9\n";
    let windows = "s\t@1\tmain\nb\t@2\twork\n";
    let live = LiveIndex::query(Some(panes), 5, Some(windows));
    assert_eq!(live.success_at(), Some(5));
    assert_eq!(pane_location_label(&live, "%1").as_deref(), Some("b:work+1"));
    assert_eq!(pane_location_label(&live, "%2").as_deref(), Some("s:@9"));
    assert_eq!(pane_location_label(&live, "%3"), None);
    assert_eq!(pane_location_label(&LiveIndex::unknown(), "%1"), None);
}

#[test]
fn a_worker_has_the_tasks_that_it_can_claim() {
    let m = pool();
    assert_eq!(tasks_of(&m, 0), vec![0, 1]);
    assert!(tasks_of(&m, 1).is_empty());
}

#[test]
fn seeded_summaries_are_read_back() {
    let s = Summaries::seed(&[("t1", "fix it")], &[("t1", "2026-08-01T00:00:00Z started")]);
    assert_eq!(s.first_line("t1"), "fix it");
    assert_eq!(s.last_event("t1"), "2026-08-01T00:00:00Z started");
    assert_eq!(s.first_line("t2"), "");
    assert_eq!(s.last_event("t2"), "");
}

#[test]
fn the_whole_selected_row_is_scrolled_into_view() {
    let m = pool();
    let mut app = App::new();
    let low = Rect {
        x: 0,
        y: 0,
        width: 40,
        height: 6,
    };
    assert_eq!(worker_scroll(&m, &app, low), 0);
    app.row_idx = 2;
    assert_eq!(worker_scroll(&m, &app, low), 1);
    app.row_idx = 3;
    assert_eq!(worker_scroll(&m, &app, low), 4);
    assert_eq!(task_scroll(&app, low), 0);
    app.task_idx = 2;
    assert_eq!(task_scroll(&app, low), 2);
}
