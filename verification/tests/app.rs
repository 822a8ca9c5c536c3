use ab_tui::app::{
    handle_key, row_caps, App, Effect, EnterAct, Key, PageSizes, Pager, Panel, MAX_WARNINGS,
};
use ab_tui::lineage::group_by_lineage;
use ab_tui::model::{Filter, Model};
use ab_tui::registry::{AgentSnapshot, InFlight};
use ab_tui::rows::{row_key, worker_row_lines, Row, RowKey};

fn iso_from_id(id: &str) -> String {
    format!(
        "{}-{}-{}T{}:{}:{}Z",
        &id[0..4],
        &id[4..6],
        &id[6..8],
        &id[9..11],
        &id[11..13],
        &id[13..15]
    )
}

fn with_groups(mut m: Model) -> Model {
    m.groups = group_by_lineage(&m.workers);
    m
}

fn model() -> Model {
    with_groups(Model {
        groups: Vec::new(),
        workers: vec![
            AgentSnapshot {
                name: "w1".into(),
                pane: "%5".into(),
                runtime: "codex".into(),
                owner: "it:@1".into(),
                ready: "ready".into(),
                spawn_tag: "t-gen1".into(),
                registered_at: "2026-07-31T00:00:00Z".into(),
                spawned_at: String::new(),
                spawned: true,
                corrupt: false,
                lineage_root: None,
                parent_agent: None,
            },
            AgentSnapshot {
                name: "w2".into(),
                pane: "%6".into(),
                runtime: "agy".into(),
                owner: "it:@1".into(),
                ready: "ready".into(),
                spawn_tag: "t-gen1".into(),
                registered_at: "2026-07-31T00:00:00Z".into(),
                spawned_at: String::new(),
                spawned: true,
                corrupt: false,
                lineage_root: None,
                parent_agent: None,
            },
        ],
        tasks: vec![task("20260731T000001Z-aaaa", "w1", "queued")],

        recent: vec![
            task("20260731T000009Z-dddd", "w1", "completed"),
            task("20260731T000001Z-aaaa", "w1", "queued"),
        ],
        recent_truncated: false,
    })
}

fn task(id: &str, to: &str, status: &str) -> InFlight {
    InFlight {
        id: id.into(),
        created_at: iso_from_id(id),
        from: "alice".into(),
        to: to.into(),
        status: status.into(),
    }
}

#[test]
fn x_on_worker_row_is_rejected_with_hint() {
    let m = model();
    let mut app = App::new();
    assert_eq!(handle_key(&mut app, &m, Key::Char('x')), Effect::Nothing);
    assert!(app.confirm.is_none());
    assert!(app.message.contains("task rows"));
}

#[test]
fn x_on_task_row_confirms_then_cancels_by_id() {
    let m = model();
    let mut app = App::new();
    handle_key(&mut app, &m, Key::Char('j'));
    handle_key(&mut app, &m, Key::Char('x'));
    assert_eq!(app.confirm.as_deref(), Some("20260731T000001Z-aaaa"));

    assert_eq!(handle_key(&mut app, &m, Key::Char('j')), Effect::Nothing);
    assert_eq!(app.row_idx, 1);
    assert_eq!(
        handle_key(&mut app, &m, Key::Char('y')),
        Effect::Cancel {
            id: "20260731T000001Z-aaaa".into()
        });
    assert!(app.confirm.is_none());

    handle_key(&mut app, &m, Key::Char('x'));
    assert!(app.confirm.is_some());
    assert_eq!(handle_key(&mut app, &m, Key::Char('n')), Effect::Nothing);
    assert!(app.confirm.is_none());
}

#[test]
fn enter_focuses_the_pane_of_a_worker_row() {
    let m = model();
    let mut app = App::new();
    assert_eq!(
        handle_key(&mut app, &m, Key::Enter),
        Effect::Focus {
            pane: "%5".into(),
            label: "w1".into()
        });

    handle_key(&mut app, &m, Key::Char('j'));
    handle_key(&mut app, &m, Key::Char('j'));
    assert_eq!(
        handle_key(&mut app, &m, Key::Enter),
        Effect::Focus {
            pane: "%6".into(),
            label: "w2".into()
        });
}

#[test]
fn navigation_clamps_and_meta_keys_work() {
    let m = model();
    let mut app = App::new();
    handle_key(&mut app, &m, Key::Char('k'));
    assert_eq!(app.row_idx, 0);
    for _ in 0..10 {
        handle_key(&mut app, &m, Key::Char('j'));
    }
    assert_eq!(app.row_idx, 2);
    assert_eq!(handle_key(&mut app, &m, Key::Char('?')), Effect::Nothing);
    assert!(app.help);
    handle_key(&mut app, &m, Key::Char('j'));
    assert!(!app.help);
    assert_eq!(app.row_idx, 2);
    assert_eq!(handle_key(&mut app, &m, Key::Char('q')), Effect::Quit);
}

#[test]
fn tab_cycles_two_panels_only() {
    let m = model();
    let mut app = App::new();
    assert_eq!(app.panel, Panel::Workers);
    handle_key(&mut app, &m, Key::Tab);
    assert_eq!(app.panel, Panel::Tasks);

    handle_key(&mut app, &m, Key::Tab);
    assert_eq!(app.panel, Panel::Workers);
}

#[test]
fn backtab_cycles_two_panels_in_reverse() {
    let m = model();
    let mut app = App::new();
    assert_eq!(app.panel, Panel::Workers);
    handle_key(&mut app, &m, Key::BackTab);
    assert_eq!(app.panel, Panel::Tasks);
    handle_key(&mut app, &m, Key::BackTab);
    assert_eq!(app.panel, Panel::Workers);

    for start in [Panel::Workers, Panel::Tasks] {
        app.panel = start;
        handle_key(&mut app, &m, Key::Tab);
        handle_key(&mut app, &m, Key::BackTab);
        assert_eq!(app.panel, start);
    }

    app.panel = Panel::Workers;
    app.confirm = Some("20260731T000001Z-aaaa".into());
    assert_eq!(handle_key(&mut app, &m, Key::BackTab), Effect::Nothing);
    assert_eq!(app.panel, Panel::Workers);
    assert!(app.confirm.is_some());
}

#[test]
fn x_in_tasks_panel_gates_on_terminal_status() {
    let m = model();
    let mut app = App::new();
    app.panel = Panel::Tasks;
    assert_eq!(handle_key(&mut app, &m, Key::Char('x')), Effect::Nothing);
    assert!(app.confirm.is_none());
    assert!(app.message.contains("terminal"));

    handle_key(&mut app, &m, Key::Char('j'));
    handle_key(&mut app, &m, Key::Char('x'));
    assert_eq!(app.confirm.as_deref(), Some("20260731T000001Z-aaaa"));
}

#[test]
fn read_and_info_target_rules() {
    let m = model();
    let mut app = App::new();

    assert_eq!(handle_key(&mut app, &m, Key::Char('r')), Effect::Nothing);
    assert!(app.message.contains("task rows"));
    assert_eq!(
        handle_key(&mut app, &m, Key::Char('i')),
        Effect::Info {
            worker: "w1".into()
        });
    app.info = None;

    handle_key(&mut app, &m, Key::Char('j'));
    assert_eq!(
        handle_key(&mut app, &m, Key::Char('r')),
        Effect::Read {
            id: "20260731T000001Z-aaaa".into()
        });

    app.panel = Panel::Tasks;
    assert_eq!(
        handle_key(&mut app, &m, Key::Char('r')),
        Effect::Read {
            id: "20260731T000009Z-dddd".into()
        });
}

fn open_pager(app: &mut App, n: usize) {
    let body: String = (0..n).map(|i| format!("line{i}\n")).collect();
    app.pager = Some(Pager {
        id: "20260731T000009Z-dddd".into(),
        from: "alice".into(),
        to: "w1".into(),
        bytes: body.into_bytes(),
        scroll: 0,
    });
}

#[test]
fn pager_swallows_navigation_and_keeps_selection() {
    let m = model();
    let mut app = App::new();
    handle_key(&mut app, &m, Key::Char('j'));
    open_pager(&mut app, 20);
    assert_eq!(handle_key(&mut app, &m, Key::Char('j')), Effect::Nothing);
    assert_eq!(app.row_idx, 1);
    assert_eq!(app.pager.as_ref().unwrap().scroll, 1);
    handle_key(&mut app, &m, Key::Char('k'));
    assert_eq!(app.pager.as_ref().unwrap().scroll, 0);
    handle_key(&mut app, &m, Key::Char('k'));
    assert_eq!(app.pager.as_ref().unwrap().scroll, 0);

    assert_eq!(handle_key(&mut app, &m, Key::Char('q')), Effect::Nothing);
    assert!(app.pager.is_none());
    assert_eq!(app.row_idx, 1);
}

#[test]
fn pager_pages_with_pgup_pgdn_home_end_without_touching_selection() {
    let m = model();
    let mut app = App::new();
    handle_key(&mut app, &m, Key::Char('j'));
    open_pager(&mut app, 40);
    let page = app.pages.pager as usize;
    let scroll = |a: &App| a.pager.as_ref().unwrap().scroll;
    let max = app.pager.as_ref().unwrap().max_scroll(page);
    assert!(max > page);

    handle_key(&mut app, &m, Key::PageDown);
    assert_eq!(scroll(&app), page);
    handle_key(&mut app, &m, Key::PageUp);
    assert_eq!(scroll(&app), 0);
    handle_key(&mut app, &m, Key::PageUp);
    assert_eq!(scroll(&app), 0);

    handle_key(&mut app, &m, Key::End);
    assert_eq!(scroll(&app), max);

    handle_key(&mut app, &m, Key::PageDown);
    assert_eq!(scroll(&app), max);
    handle_key(&mut app, &m, Key::Char('j'));
    assert_eq!(scroll(&app), max);
    handle_key(&mut app, &m, Key::Home);
    assert_eq!(scroll(&app), 0);

    assert_eq!(app.row_idx, 1);

    open_pager(&mut app, 2);
    for k in [Key::PageDown, Key::End, Key::Char('j')] {
        handle_key(&mut app, &m, k);
        assert_eq!(scroll(&app), 0);
    }
}

#[test]
fn copy_key_emits_payload_for_task_rows() {
    let m = model();
    let mut app = App::new();
    handle_key(&mut app, &m, Key::Char('j'));
    let Effect::Copy { payload } = handle_key(&mut app, &m, Key::Char('c')) else {
        panic!("task 列按 c 應產生 Copy");
    };
    assert!(payload.contains("agent-bridge read 20260731T000001Z-aaaa"));

    let mut none = model();
    none.recent.clear();
    app.panel = Panel::Tasks;
    assert_eq!(handle_key(&mut app, &none, Key::Char('c')), Effect::Nothing);
}

#[test]
fn evict_key_targets_worker_rows_only() {
    let m = model();
    let mut app = App::new();
    assert_eq!(
        handle_key(&mut app, &m, Key::Char('e')),
        Effect::EvictPrompt {
            worker: "w1".into()
        });
    assert!(app.evict_prompt.is_none());

    handle_key(&mut app, &m, Key::Char('j'));
    assert_eq!(handle_key(&mut app, &m, Key::Char('e')), Effect::Nothing);
    assert!(app.message.contains("worker rows"));

    app.panel = Panel::Tasks;
    assert_eq!(handle_key(&mut app, &m, Key::Char('e')), Effect::Nothing);
}

#[test]
fn evict_key_is_blocked_while_one_is_in_flight() {
    let m = model();
    let mut app = App::new();
    app.evict_inflight.insert("w1".to_string());
    assert_eq!(handle_key(&mut app, &m, Key::Char('e')), Effect::Nothing);
    assert!(app.message.contains("in progress"));
    assert!(app.evict_prompt.is_none());

    handle_key(&mut app, &m, Key::Char('j'));
    handle_key(&mut app, &m, Key::Char('j'));
    assert_eq!(
        handle_key(&mut app, &m, Key::Char('e')),
        Effect::EvictPrompt {
            worker: "w2".into()
        });
}

#[test]
fn evict_prompt_is_modal_and_carries_shown_generation() {
    let m = model();
    let mut app = App::new();
    let shown = ab_tui::action::EvictShown {
        name: "w1".into(),
        pane: "%5".into(),
        spawn_tag: "t-gen1".into(),
    };
    let prompt = || ab_tui::action::EvictPrompt {
        shown: shown.clone(),
        lines: vec!["wrap-up task, then reclaim".into()],
    };

    app.evict_prompt = Some(prompt());
    assert_eq!(handle_key(&mut app, &m, Key::Char('j')), Effect::Nothing);
    assert_eq!(app.row_idx, 0);
    assert!(app.evict_prompt.is_some());
    assert_eq!(
        handle_key(&mut app, &m, Key::Char('y')),
        Effect::Evict {
            shown: shown.clone()
        });
    assert!(app.evict_prompt.is_none());

    app.evict_prompt = Some(prompt());
    assert_eq!(handle_key(&mut app, &m, Key::Esc), Effect::Nothing);
    assert!(app.evict_prompt.is_none());
    assert!(
        app.message.contains("evict aborted"));
}

#[test]
fn warnings_accumulate_and_are_only_cleared_by_the_human() {
    let m = model();
    let mut app = App::new();
    app.push_warning("無法通知 w1".into());
    app.message = "evict：收尾任務已派出，等待筆記落地".to_string();
    assert_eq!(
        app.warnings,
        vec!["無法通知 w1".to_string()]);

    app.push_warning("無法通知 w1".into());
    assert_eq!(app.warnings.len(), 1);

    for i in 0..MAX_WARNINGS + 2 {
        app.push_warning(format!("w{i}"));
    }
    assert_eq!(app.warnings.len(), MAX_WARNINGS);
    assert_eq!(
        app.warnings.last().unwrap(),
        &format!("w{}", MAX_WARNINGS + 1));
    assert!(
        !app.warnings.iter().any(|w| w == "無法通知 w1"));

    handle_key(&mut app, &m, Key::Char('j'));
    assert_eq!(app.warnings.len(), MAX_WARNINGS);

    assert_eq!(handle_key(&mut app, &m, Key::Esc), Effect::Nothing);
    assert!(app.warnings.is_empty());
    assert!(app.message.contains("cleared"));
}

#[test]
fn relocate_after_reload_keeps_selection_valid() {
    let m = model();
    let mut app = App::new();
    app.row_idx = 2;
    app.sync_keys(&m);
    let empty = Model {
        groups: Vec::new(),
        workers: Vec::new(),
        tasks: Vec::new(),
        recent: Vec::new(),
        recent_truncated: false,
    };
    app.relocate(&empty);
    assert_eq!(app.row_idx, 0);
    assert!(app.selected_row(&empty).is_none());

    app.relocate(&m);
    assert_eq!(app.row_idx, 2);
    let Some(Row::Worker(wi)) = app.selected_row(&m) else {
        panic!("應回到 worker 列");
    };
    assert_eq!(m.workers[wi].name, "w2");
}

#[test]
fn enter_matrix_dispatches_by_row_kind() {
    let m = model();

    let mut app = App::new();
    assert_eq!(
        handle_key(&mut app, &m, Key::Enter),
        Effect::Focus {
            pane: "%5".into(),
            label: "w1".into()
        });

    handle_key(&mut app, &m, Key::Char('j'));
    assert_eq!(
        handle_key(&mut app, &m, Key::Enter),
        Effect::Read {
            id: "20260731T000001Z-aaaa".into()
        });

    app.panel = Panel::Tasks;
    assert_eq!(
        handle_key(&mut app, &m, Key::Enter),
        Effect::Read {
            id: "20260731T000009Z-dddd".into()
        });
}

#[test]
fn enter_on_an_empty_list_is_a_no_op() {
    let m = Model {
        groups: Vec::new(),
        workers: Vec::new(),
        tasks: Vec::new(),
        recent: Vec::new(),
        recent_truncated: false,
    };
    let mut app = App::new();
    for panel in [Panel::Workers, Panel::Tasks] {
        app.panel = panel;
        app.sync_keys(&m);
        assert_eq!(handle_key(&mut app, &m, Key::Enter), Effect::Nothing);
        assert_eq!(app.panel, panel);
        assert_eq!(row_caps(&app, &m).enter, EnterAct::Nothing);
    }
}

#[test]
fn r_is_an_exact_alias_of_enter_on_task_rows() {
    let m = model();
    for panel in [Panel::Workers, Panel::Tasks] {
        let mut a = App::new();
        a.panel = panel;
        if panel == Panel::Workers {
            handle_key(&mut a, &m, Key::Char('j'));
        }
        let mut b = App::new();
        b.panel = panel;
        if panel == Panel::Workers {
            handle_key(&mut b, &m, Key::Char('j'));
        }
        let via_enter = handle_key(&mut a, &m, Key::Enter);
        let via_r = handle_key(&mut b, &m, Key::Char('r'));
        assert!(matches!(via_enter, Effect::Read { .. }));
        assert_eq!(via_enter, via_r);
    }
}

#[test]
fn relocate_follows_the_item_when_rows_are_inserted_above() {
    let m = model();
    let mut app = App::new();
    handle_key(&mut app, &m, Key::Char('j'));
    handle_key(&mut app, &m, Key::Char('j'));
    assert!(matches!(app.selected_row(&m), Some(Row::Worker(1))));

    let mut m2 = model();
    m2.workers.insert(
        0,
        AgentSnapshot {
            name: "w0".into(),
            pane: "%4".into(),
            runtime: "codex".into(),
            owner: "it:@1".into(),
            ready: "ready".into(),
            spawn_tag: "t-gen1".into(),
            registered_at: "2026-07-31T00:00:00Z".into(),
            spawned_at: String::new(),
            spawned: true,
            corrupt: false,
            lineage_root: None,
            parent_agent: None,
        },
    );
    let m2 = with_groups(m2);
    app.relocate(&m2);
    assert_eq!(app.row_idx, 3);
    let Some(Row::Worker(wi)) = app.selected_row(&m2) else {
        panic!("仍應停在 worker 列");
    };
    assert_eq!(m2.workers[wi].name, "w2");
}

#[test]
fn selection_survives_a_wholesale_regroup() {
    let m = model();
    let mut app = App::new();
    handle_key(&mut app, &m, Key::Char('j'));
    handle_key(&mut app, &m, Key::Char('j'));
    assert!(matches!(app.selected_row(&m), Some(Row::Worker(1))));

    let root = "AGENT_BRIDGE_SPAWN_TAG=ab-spawn-root-1-aaaaaaaaaaaa";
    let mut m2 = model();
    let kid = "AGENT_BRIDGE_SPAWN_TAG=ab-spawn-b-2-bbbbbbbbbbbb";
    for (i, (name, pane, tag)) in [("a", "%81", root), ("b", "%82", kid)].iter().enumerate() {
        m2.workers.insert(
            i,
            AgentSnapshot {
                name: (*name).into(),
                pane: (*pane).into(),
                runtime: "codex".into(),
                owner: "it:@1".into(),
                ready: "ready".into(),
                spawn_tag: (*tag).into(),
                registered_at: "2026-07-31T00:00:00Z".into(),
                spawned_at: String::new(),
                spawned: true,
                corrupt: false,
                lineage_root: Some(root.to_string()),
                parent_agent: (i == 1).then(|| root.to_string()),
            },
        );
    }
    let m2 = with_groups(m2);
    assert_eq!(m2.groups.len(), 2);

    app.relocate(&m2);
    let Some(Row::Worker(wi)) = app.selected_row(&m2) else {
        panic!("仍應停在 worker 列");
    };
    assert_eq!(
        m2.workers[wi].name, "w2");
}

#[test]
fn relocate_falls_back_to_the_neighbour_row() {
    let m = model();
    let mut app = App::new();
    handle_key(&mut app, &m, Key::Char('j'));
    handle_key(&mut app, &m, Key::Char('j'));
    let mut m2 = model();
    m2.workers.remove(1);
    let m2 = with_groups(m2);
    app.relocate(&m2);
    assert_eq!(app.row_idx, 1);

    let mut app = App::new();
    app.panel = Panel::Tasks;
    handle_key(&mut app, &m, Key::Char('j'));
    assert_eq!(app.task_key.as_deref(), Some("20260731T000001Z-aaaa"));
    let mut m3 = model();
    m3.recent.remove(1);
    app.relocate(&m3);
    assert_eq!(app.task_idx, 0);
}

#[test]
fn respawn_with_a_new_generation_is_not_the_same_row() {
    let m = model();
    let mut app = App::new();
    handle_key(&mut app, &m, Key::Char('j'));
    handle_key(&mut app, &m, Key::Char('j'));

    let mut m2 = model();
    m2.workers[1].spawn_tag = "t-gen2".into();
    let m2 = with_groups(m2);
    app.relocate(&m2);
    assert_eq!(app.row_idx, 1);
    assert!(
        !matches!(app.row_key, Some(RowKey::Worker { ref spawn_tag, .. }) if spawn_tag == "t-gen2"));
}

#[test]
fn a_respawn_at_index_zero_never_inherits_the_selection() {
    let m = model();
    let mut app = App::new();
    assert!(
        matches!(app.selected_row(&m), Some(Row::Worker(0))));
    app.sync_keys(&m);

    let mut m2 = model();
    m2.workers[0].spawn_tag = "t-gen2".into();
    let m2 = with_groups(m2);
    app.relocate(&m2);
    assert!(
        !matches!(app.selected_row(&m2), Some(Row::Worker(0))));

    assert!(matches!(app.selected_row(&m2), Some(Row::Task { .. })));

    let mut app2 = App::new();
    app2.sync_keys(&m);
    app2.relocate(&m2);
    assert_eq!(handle_key(&mut app2, &m2, Key::Char('e')), Effect::Nothing);
}

#[test]
fn a_lone_respawn_clears_the_selection_and_stays_cleared() {
    let one = |tag: &str| {
        with_groups(Model {
            groups: Vec::new(),
            workers: vec![AgentSnapshot {
                name: "w1".into(),
                pane: "%5".into(),
                runtime: "codex".into(),
                owner: "it:@1".into(),
                ready: "ready".into(),
                spawn_tag: tag.into(),
                registered_at: "2026-07-31T00:00:00Z".into(),
                spawned_at: String::new(),
                spawned: true,
                corrupt: false,
                lineage_root: None,
                parent_agent: None,
            }],
            tasks: Vec::new(),
            recent: Vec::new(),
            recent_truncated: false,
        })
    };
    let m = one("t-gen1");
    let mut app = App::new();
    app.sync_keys(&m);
    assert!(app.selected_row(&m).is_some());

    let m2 = one("t-gen2");
    app.relocate(&m2);
    assert!(app.selected_row(&m2).is_none());
    assert!(
        app.message.contains("new generation"));

    assert_eq!(handle_key(&mut app, &m2, Key::Char('e')), Effect::Nothing);
    assert!(app.evict_prompt.is_none());

    handle_key(&mut app, &m2, Key::Char('?'));
    handle_key(&mut app, &m2, Key::Char('?'));
    for _ in 0..3 {
        app.relocate(&m2);
    }
    assert!(app.selected_row(&m2).is_none());

    handle_key(&mut app, &m2, Key::Char('j'));
    assert!(app.selected_row(&m2).is_some());
    assert_eq!(
        app.row_key,
        Some(row_key(&m2, Row::Worker(0))));
}

fn many(n: usize) -> Model {
    with_groups(Model {
        groups: Vec::new(),
        workers: (0..n)
            .map(|i| AgentSnapshot {
                name: format!("w{i:02}"),
                pane: format!("%{i}"),
                runtime: "codex".into(),
                owner: "it:@1".into(),
                ready: "ready".into(),
                spawn_tag: "t-gen1".into(),
                registered_at: "2026-07-31T00:00:00Z".into(),
                spawned_at: String::new(),
                spawned: true,
                corrupt: false,
                lineage_root: None,
                parent_agent: None,
            })
            .collect(),
        tasks: Vec::new(),
        recent: Vec::new(),
        recent_truncated: false,
    })
}

fn lineages(n: usize) -> Model {
    let key = |t: &str| format!("AGENT_BRIDGE_SPAWN_TAG=ab-spawn-{t}");
    with_groups(Model {
        groups: Vec::new(),
        workers: (0..n)
            .map(|i| {
                let tag = key(&format!("g{i:02}-{i}-{:012x}", i + 1));
                AgentSnapshot {
                    name: format!("g{i:02}"),
                    pane: format!("%{i}"),
                    runtime: "codex".into(),
                    owner: "it:@1".into(),
                    ready: "ready".into(),
                    spawn_tag: tag.clone(),
                    registered_at: "2026-07-31T00:00:00Z".into(),
                    spawned_at: String::new(),
                    spawned: true,
                    corrupt: false,
                    lineage_root: Some(tag),
                    parent_agent: None,
                }
            })
            .collect(),
        tasks: Vec::new(),
        recent: Vec::new(),
        recent_truncated: false,
    })
}

fn pages(workers: u16, tasks: u16) -> PageSizes {
    PageSizes {
        workers,
        tasks,
        ..PageSizes::default()
    }
}

#[test]
fn a_full_page_sweep_covers_every_row_in_both_directions() {
    for n in [3usize, 9, 17] {
        for h in [1u16, 2, 3, 8] {
            let m = lineages(n);
            let mut app = App::new();
            app.pages = pages(h, h);
            let lines = worker_row_lines(&m, &Filter::default());
            assert_eq!(lines.len(), n);
            let mut seen = vec![false; n];

            let mut mark = |app: &App| {
                let sel = lines[app.row_idx];
                let top = sel.saturating_sub(usize::from(h).saturating_sub(1));
                for (r, &l) in lines.iter().enumerate() {
                    if l >= top && l < top + usize::from(h).max(1) {
                        seen[r] = true;
                    }
                }
            };
            mark(&app);
            for _ in 0..(2 * n + 4) {
                handle_key(&mut app, &m, Key::PageDown);
                mark(&app);
            }
            assert_eq!(app.row_idx, n - 1);
            for _ in 0..(2 * n + 4) {
                handle_key(&mut app, &m, Key::PageUp);
                mark(&app);
            }
            assert_eq!(app.row_idx, 0);
            let missed: Vec<usize> = (0..n).filter(|&r| !seen[r]).collect();
            assert!(
                missed.is_empty());
        }
    }
}

#[test]
fn page_keys_on_a_short_list_land_on_the_edges() {
    let m = many(3);
    let mut app = App::new();
    app.pages = pages(8, 8);
    handle_key(&mut app, &m, Key::PageDown);
    assert_eq!(app.row_idx, 2);
    handle_key(&mut app, &m, Key::PageUp);
    assert_eq!(app.row_idx, 0);
}

#[test]
fn page_keys_on_an_empty_panel_do_nothing() {
    let m = many(0);
    let mut app = App::new();
    for k in [Key::PageDown, Key::PageUp, Key::Home, Key::End] {
        assert_eq!(handle_key(&mut app, &m, k), Effect::Nothing);
        assert_eq!(app.row_idx, 0);
        assert!(app.message.is_empty());
    }

    app.panel = Panel::Tasks;
    for k in [Key::PageDown, Key::End] {
        assert_eq!(handle_key(&mut app, &m, k), Effect::Nothing);
        assert_eq!(app.task_idx, 0);
    }
}

#[test]
fn page_keys_are_swallowed_by_the_confirm_modal() {
    let m = model();
    let mut app = App::new();
    handle_key(&mut app, &m, Key::Char('j'));
    handle_key(&mut app, &m, Key::Char('x'));
    assert!(app.confirm.is_some());
    assert_eq!(handle_key(&mut app, &m, Key::PageDown), Effect::Nothing);
    assert_eq!(app.row_idx, 1);
    assert!(app.confirm.is_some());
}

#[test]
fn repeated_relocate_is_idempotent_when_nothing_changed() {
    let m = model();
    let mut app = App::new();
    handle_key(&mut app, &m, Key::Char('j'));
    let (r, t) = (app.row_idx, app.task_idx);
    for _ in 0..3 {
        app.relocate(&m);
    }
    assert_eq!((app.row_idx, app.task_idx), (r, t));
}

#[test]
fn a_page_of_two_line_rows_is_half_as_many_rows() {
    let m = many(30);
    let mut app = App::new();
    app.pages = pages(16, 4);
    handle_key(&mut app, &m, Key::PageDown);
    assert_eq!(app.row_idx, 8);
    handle_key(&mut app, &m, Key::PageDown);
    assert_eq!(app.row_idx, 16);
    for _ in 0..10 {
        handle_key(&mut app, &m, Key::PageDown);
    }
    assert_eq!(app.row_idx, 29);
    handle_key(&mut app, &m, Key::PageUp);
    assert_eq!(app.row_idx, 21);
    handle_key(&mut app, &m, Key::Home);
    assert_eq!(app.row_idx, 0);
    handle_key(&mut app, &m, Key::PageUp);
    assert_eq!(app.row_idx, 0);
    handle_key(&mut app, &m, Key::End);
    assert_eq!(app.row_idx, 29);

    app.panel = Panel::Tasks;
    handle_key(&mut app, &m, Key::PageDown);
    assert_eq!(app.task_idx, 0);
    assert_eq!(app.row_idx, 29);
}

#[test]
fn a_page_of_the_task_list_counts_two_lines_a_row() {
    let mut m = many(1);
    m.recent = (0..20)
        .map(|i| task(&format!("20260731T0000{i:02}Z-aaaa"), "w00", "completed"))
        .collect();
    let mut app = App::new();
    app.panel = Panel::Tasks;
    app.pages = pages(8, 9);
    handle_key(&mut app, &m, Key::PageDown);
    assert_eq!(app.task_idx, 4);
    app.pages = pages(8, 0);
    handle_key(&mut app, &m, Key::PageDown);
    assert_eq!(app.task_idx, 5);
    handle_key(&mut app, &m, Key::PageUp);
    assert_eq!(app.task_idx, 4);
}

#[test]
fn paging_across_headers_stops_at_every_third_line() {
    let m = lineages(9);
    let mut app = App::new();
    app.pages = pages(12, 8);
    handle_key(&mut app, &m, Key::PageDown);
    assert_eq!(app.row_idx, 4);
    handle_key(&mut app, &m, Key::PageDown);
    assert_eq!(app.row_idx, 8);
    handle_key(&mut app, &m, Key::PageUp);
    assert_eq!(app.row_idx, 4);
    handle_key(&mut app, &m, Key::PageUp);
    assert_eq!(app.row_idx, 0);
}

#[test]
fn a_paged_selection_stays_on_its_worker() {
    let m = many(30);
    let mut app = App::new();
    app.pages = pages(16, 4);
    handle_key(&mut app, &m, Key::PageDown);
    assert_eq!(
        app.row_key,
        Some(RowKey::Worker { name: "w08".into(), spawn_tag: "t-gen1".into() })
    );
    let mut m2 = many(30);
    let mut first = m2.workers[0].clone();
    first.name = "w--".into();
    m2.workers.insert(0, first);
    let m2 = with_groups(m2);
    app.relocate(&m2);
    assert_eq!(app.row_idx, 9);
}

#[test]
fn the_filter_is_typed_and_cleared() {
    let m = model();
    let mut app = App::new();
    handle_key(&mut app, &m, Key::Char('/'));
    assert!(app.filter_input);
    for c in ['w', '2'] {
        assert_eq!(handle_key(&mut app, &m, Key::Char(c)), Effect::Nothing);
    }
    assert_eq!(app.filter.query, "w2");
    assert_eq!(app.rows(&m), vec![Row::Worker(1)]);
    handle_key(&mut app, &m, Key::Char('q'));
    assert_eq!(app.filter.query, "w2q");
    assert!(app.rows(&m).is_empty());
    handle_key(&mut app, &m, Key::Backspace);
    assert_eq!(app.filter.query, "w2");
    handle_key(&mut app, &m, Key::Enter);
    assert!(!app.filter_input);
    assert_eq!(app.filter.query, "w2");
    handle_key(&mut app, &m, Key::Char('/'));
    handle_key(&mut app, &m, Key::Esc);
    assert!(!app.filter_input);
    assert_eq!(app.filter.query, "");
    assert_eq!(app.rows(&m).len(), 3);
    handle_key(&mut app, &m, Key::Char('/'));
    handle_key(&mut app, &m, Key::Backspace);
    assert_eq!(app.filter.query, "");
    assert!(app.filter_input);
}

#[test]
fn the_scope_key_toggles_and_back() {
    let m = model();
    let mut app = App::new();
    app.panel = Panel::Tasks;
    assert_eq!(app.task_rows(&m), vec![0, 1]);
    handle_key(&mut app, &m, Key::Char('S'));
    assert!(app.task_rows(&m).is_empty());
    handle_key(&mut app, &m, Key::Char('S'));
    assert_eq!(app.task_rows(&m), vec![0, 1]);
}

#[test]
fn the_tail_key_asks_for_one_preview_at_a_time() {
    let mut m = model();
    let mut app = App::new();
    let Effect::Peek { target } = handle_key(&mut app, &m, Key::Char('L')) else {
        panic!("a worker with a pane has a preview");
    };
    assert_eq!(target.pane, "%5");
    assert_eq!(target.name, "w1");
    assert_eq!(target.key, row_key(&m, Row::Worker(0)));
    app.peek_inflight = Some(target);
    assert_eq!(handle_key(&mut app, &m, Key::Char('L')), Effect::Nothing);
    assert!(app.message.contains("in progress"));
    app.peek_inflight = None;
    handle_key(&mut app, &m, Key::Char('j'));
    assert_eq!(handle_key(&mut app, &m, Key::Char('L')), Effect::Nothing);
    m.workers[0].pane = String::new();
    handle_key(&mut app, &m, Key::Home);
    assert!(!row_caps(&app, &m).peek);
    assert_eq!(handle_key(&mut app, &m, Key::Char('L')), Effect::Nothing);
}

#[test]
fn any_key_closes_a_page() {
    let m = model();
    let mut app = App::new();
    app.info = Some(vec!["name".into()]);
    assert_eq!(handle_key(&mut app, &m, Key::Char('q')), Effect::Nothing);
    assert!(app.info.is_none());
    app.peek = Some(ab_tui::app::PeekView {
        title: "t".into(),
        lines: vec![],
        truncated: false,
    });
    assert_eq!(handle_key(&mut app, &m, Key::Char('e')), Effect::Nothing);
    assert!(app.peek.is_none());
    assert_eq!(app.row_idx, 0);
}
