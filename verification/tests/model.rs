use ab_tui::blocker::{
    blocker_probe, Blocker, BlockerDebounce, BlockerIndex, Capture, Probe, Snippets,
};
use ab_tui::lineage::{
    breadcrumb, breadcrumb_line, breadcrumb_line_fit, crumb_of, group_by_lineage, group_label,
    hop_limit, worker_affiliation, Affiliation, Crumb, GroupKey, TagIndex,
};
use ab_tui::live::{
    focus_plan, pane_liveness, window_detail, window_state, FocusPlan, LiveIndex, Liveness, Places,
    WindowState,
};
use ab_tui::model::{
    apply_triage, fmt_elapsed, worker_activity, worker_of_task, worker_severity, Activity, Filter,
    Model, Scope, Severity, Summaries, SummaryRead,
};
use ab_tui::registry::{attached, AgentSnapshot, InFlight};
use ab_tui::rows::{
    group_line_offsets, group_visible_members, group_visible_severities, is_terminal_status,
    row_height, task_rows, worker_line_of, worker_lines_total, worker_row_lines, worker_rows, Row,
};
use ab_tui::stamp::parse_iso_to_epoch;
use ab_tui::textmap::{TextMap, TextSet};

fn set_of(keys: &[String]) -> TextSet {
    let mut s = TextSet::new();
    for k in keys {
        s.insert(k.clone());
    }
    s
}

fn map_of<V>(entries: Vec<(String, V)>) -> TextMap<V> {
    let mut m = TextMap::new();
    for (k, v) in entries {
        m.insert(k, v);
    }
    m
}

fn snap(name: &str, spawned: bool, owner: &str) -> AgentSnapshot {
    AgentSnapshot {
        name: name.to_string(),
        pane: format!("%{}", name.len()),
        runtime: "codex".to_string(),
        owner: owner.to_string(),
        ready: "ready".to_string(),
        spawn_tag: format!("tag-{name}"),
        registered_at: "2026-07-31T00:00:00Z".to_string(),
        spawned_at: String::new(),
        spawned,
        corrupt: false,
        lineage_root: None,
        parent_agent: None,
    }
}

fn lin(name: &str, tag: &str, root: Option<&str>, parent: Option<&str>) -> AgentSnapshot {
    let key = |t: &str| format!("AGENT_BRIDGE_SPAWN_TAG=ab-spawn-{t}");
    AgentSnapshot {
        spawn_tag: key(tag),
        lineage_root: root.map(key),
        parent_agent: parent.map(key),
        ..snap(name, true, "it:@1")
    }
}

fn manual(name: &str) -> AgentSnapshot {
    AgentSnapshot {
        spawn_tag: String::new(),
        spawned: false,
        ..snap(name, false, "")
    }
}

fn model_of(workers: Vec<AgentSnapshot>, tasks: Vec<InFlight>) -> Model {
    Model {
        groups: group_by_lineage(&workers),
        workers,
        tasks,
        recent: Vec::new(),
        recent_truncated: false,
    }
}

fn canon(tag: &str) -> String {
    format!("AGENT_BRIDGE_SPAWN_TAG=ab-spawn-{tag}")
}

fn iso_from_id(id: &str) -> String {
    let s: Vec<char> = id.chars().take(16).collect();
    if s.len() < 16 {
        return String::new();
    }
    let g = |a: usize, b: usize| -> String { s[a..b].iter().collect() };
    format!(
        "{}-{}-{}T{}:{}:{}Z",
        g(0, 4),
        g(4, 6),
        g(6, 8),
        g(9, 11),
        g(11, 13),
        g(13, 15)
    )
}

fn inflight(id: &str, to: &str) -> InFlight {
    InFlight {
        created_at: iso_from_id(id),
        id: id.to_string(),
        from: "alice".to_string(),
        to: to.to_string(),
        status: "queued".to_string(),
    }
}

#[test]
fn worker_rows_group_by_lineage_and_interleave_tasks() {
    let model = model_of(
        vec![
            lin(
                "root",
                "root-1-aaaaaaaaaaaa",
                Some("root-1-aaaaaaaaaaaa"),
                None,
            ),
            lin(
                "w1",
                "w1-2-bbbbbbbbbbbb",
                Some("root-1-aaaaaaaaaaaa"),
                Some("root-1-aaaaaaaaaaaa"),
            ),
            manual("manual"),
        ],
        vec![
            inflight("20260731T000001Z-aaaa", "w1"),
            inflight("20260731T000002Z-bbbb", "root"),
            inflight("20260731T000003Z-cccc", "w1"),
        ],
    );

    assert_eq!(model.groups.len(), 2);
    assert_eq!(
        model.groups[0].key,
        GroupKey::Lineage(canon("root-1-aaaaaaaaaaaa")));
    assert_eq!(model.groups[1].key, GroupKey::Standalone);
    assert_eq!(
        worker_rows(&model, &Filter::default()),
        vec![
            Row::Worker(0),
            Row::Task { worker: 0, task: 1 },
            Row::Worker(1),
            Row::Task { worker: 1, task: 0 },
            Row::Task { worker: 1, task: 2 },
            Row::Worker(2),
        ]);
}

#[test]
fn a_lineage_survives_the_removal_of_its_middle_generations() {
    let root = "root-1-aaaaaaaaaaaa";
    let full = model_of(
        vec![
            lin("root", root, Some(root), None),
            lin("A", "a-2-bbbbbbbbbbbb", Some(root), Some(root)),
            lin(
                "B",
                "b-3-cccccccccccc",
                Some(root),
                Some("a-2-bbbbbbbbbbbb"),
            ),
            lin(
                "C",
                "c-4-dddddddddddd",
                Some(root),
                Some("b-3-cccccccccccc"),
            ),
        ],
        Vec::new(),
    );
    assert_eq!(full.groups.len(), 1);
    assert_eq!(full.groups[0].members, vec![0, 1, 2, 3]);

    let pruned = model_of(
        vec![
            lin("root", root, Some(root), None),
            lin(
                "C",
                "c-4-dddddddddddd",
                Some(root),
                Some("b-3-cccccccccccc"),
            ),
        ],
        Vec::new(),
    );
    assert_eq!(pruned.groups.len(), 1);
    assert_eq!(
        pruned.groups[0].key,
        GroupKey::Lineage(canon(root)));
    assert_eq!(pruned.groups[0].members, vec![0, 1]);

    let with_tasks = model_of(
        vec![
            lin("root", root, Some(root), None),
            lin(
                "C",
                "c-4-dddddddddddd",
                Some(root),
                Some("b-3-cccccccccccc"),
            ),
        ],
        vec![InFlight {
            created_at: "2026-07-31T00:00:09Z".into(),
            id: "20260731T000009Z-zzzz".into(),
            from: "A".into(),
            to: "C".into(),
            status: "queued".into(),
        }],
    );
    assert_eq!(
        with_tasks.groups, pruned.groups);
}

#[test]
fn legacy_manual_and_invalid_rows_follow_the_contract() {
    let root = "root-1-aaaaaaaaaaaa";

    let legacy_root = AgentSnapshot {
        lineage_root: None,
        parent_agent: None,
        ..lin("legacy-root", root, None, None)
    };
    let legacy_orphan = AgentSnapshot {
        lineage_root: None,
        parent_agent: None,
        ..lin("legacy-orphan", "orphan-9-999999999999", None, None)
    };

    let mut bad_root = lin("bad-root", "bad-5-eeeeeeeeeeee", Some(root), None);
    bad_root.lineage_root = Some(String::new());

    let self_parent = lin(
        "self-parent",
        "sp-6-ffffffffffff",
        Some(root),
        Some("sp-6-ffffffffffff"),
    );
    let model = model_of(
        vec![
            lin("child", "c-2-bbbbbbbbbbbb", Some(root), Some(root)),
            legacy_root,
            legacy_orphan,
            manual("manual"),
            bad_root,
            self_parent,
        ],
        Vec::new(),
    );
    let roots = set_of(&[canon(root)]);
    let idx = TagIndex::build(&model.workers);
    let aff = |i: usize| worker_affiliation(&model.workers[i], &roots, &idx);
    assert_eq!(
        aff(0),
        Affiliation::Lineage(canon(root)));
    assert_eq!(
        aff(1),
        Affiliation::Lineage(canon(root)));
    assert_eq!(
        aff(2),
        Affiliation::Legacy);
    assert_eq!(aff(3), Affiliation::Manual);
    assert_eq!(
        aff(4),
        Affiliation::Invalid);
    assert_eq!(aff(5), Affiliation::Invalid);

    assert_eq!(model.groups.len(), 2);
    assert_eq!(model.groups[0].members, vec![0, 1]);
    assert_eq!(model.groups[1].key, GroupKey::Standalone);
    assert_eq!(model.groups[1].members, vec![2, 3, 4, 5]);
}

#[test]
fn half_shaped_rows_are_invalid_and_never_contaminate_the_roots() {
    let root = "root-1-aaaaaaaaaaaa";

    let mut ghost = manual("ghost");
    ghost.spawned = true;

    let mut rootless = manual("rootless");
    rootless.lineage_root = Some(canon(root));

    let parent_only = AgentSnapshot {
        lineage_root: None,
        ..lin("parent-only", "po-2-bbbbbbbbbbbb", None, Some(root))
    };

    let foreign = lin("foreign", "fr-3-cccccccccccc", Some(root), None);

    let model = model_of(
        vec![ghost, rootless, parent_only, foreign, manual("real-manual")],
        Vec::new(),
    );
    let idx = TagIndex::build(&model.workers);
    let roots = TextSet::new();
    let aff = |i: usize| worker_affiliation(&model.workers[i], &roots, &idx);
    assert_eq!(
        aff(0),
        Affiliation::Invalid);
    assert_eq!(
        aff(1),
        Affiliation::Invalid);
    assert_eq!(aff(2), Affiliation::Invalid);
    assert_eq!(
        aff(3),
        Affiliation::Invalid);
    assert_eq!(aff(4), Affiliation::Manual);

    assert_eq!(model.groups.len(), 1);
    assert_eq!(model.groups[0].key, GroupKey::Standalone);
    assert_eq!(model.groups[0].members, vec![0, 1, 2, 3, 4]);
}

#[test]
fn an_invalid_rows_root_never_creates_a_group_for_a_legacy_row() {
    let r = "r-1-aaaaaaaaaaaa";

    let legacy = AgentSnapshot {
        lineage_root: None,
        parent_agent: None,
        ..lin("legacy", r, None, None)
    };

    let bad = lin("bad", "bad-2-bbbbbbbbbbbb", Some(r), None);
    let model = model_of(vec![legacy, bad], Vec::new());

    assert_eq!(
        model.groups.len(),
        1);
    assert_eq!(model.groups[0].key, GroupKey::Standalone);
    assert_eq!(model.groups[0].members, vec![0, 1]);

    let good = lin("good", "good-2-cccccccccccc", Some(r), Some(r));
    let ok = model_of(
        vec![
            AgentSnapshot {
                lineage_root: None,
                parent_agent: None,
                ..lin("legacy", r, None, None)
            },
            good,
        ],
        Vec::new(),
    );
    assert_eq!(ok.groups.len(), 1);
    assert_eq!(ok.groups[0].key, GroupKey::Lineage(canon(r)));
    assert_eq!(ok.groups[0].members, vec![0, 1]);
}

#[test]
fn a_cycle_or_cross_lineage_parent_never_forms_a_group() {
    let ra = "ra-1-aaaaaaaaaaaa";
    let rb = "rb-1-bbbbbbbbbbbb";

    let model = model_of(
        vec![
            lin("A", "a-2-cccccccccccc", Some(ra), Some("b-3-dddddddddddd")),
            lin("B", "b-3-dddddddddddd", Some(ra), Some("a-2-cccccccccccc")),
        ],
        Vec::new(),
    );

    assert_eq!(model.groups.len(), 1);
    assert_eq!(model.groups[0].members, vec![0, 1]);

    let model = model_of(
        vec![
            lin("P", rb, Some(rb), None),
            lin("C", "c-3-ffffffffffff", Some(ra), Some(rb)),
        ],
        Vec::new(),
    );
    let roots = set_of(&[canon(ra), canon(rb)]);
    let idx = TagIndex::build(&model.workers);
    assert_eq!(
        worker_affiliation(&model.workers[1], &roots, &idx),
        Affiliation::Invalid);
    assert_eq!(model.groups[1].key, GroupKey::Standalone);
    assert_eq!(model.groups[1].members, vec![1]);
}

fn at(mut w: AgentSnapshot, registered_at: &str) -> AgentSnapshot {
    w.registered_at = registered_at.to_string();
    w
}

fn task_to(id: &str, to: &str) -> InFlight {
    InFlight {
        created_at: iso_from_id(id),
        id: id.to_string(),
        from: "alice".into(),
        to: to.to_string(),
        status: "running".into(),
    }
}

#[test]
fn the_filter_is_literal_and_case_insensitive() {
    let f = |q: &str| Filter { query: q.into() };
    assert!(f("w1").matches("p4w1x"));
    assert!(f("W1").matches("p4w1x"));
    assert!(f("P4").matches("p4w1x"));
    assert!(Filter::default().matches("anything"));

    assert!(!f("a.c").matches("abc"));
    assert!(!f("a*c").matches("ac"));
    assert!(!f("a*c").matches("abbbc"));
    assert!(!f("[ab]").matches("a"));
    assert!(!f("a?c").matches("ac"));
    assert!(!f("a+").matches("aaa"));
    assert!(!f("a|b").matches("a"));
    assert!(!f("^a").matches("abc"));
    assert!(!f("c$").matches("abc"));
    assert!(!f("(a)").matches("a"));
    assert!(!f("a\\d").matches("a1"));

    assert!(f("a.c").matches("xa.cx"));
    assert!(f("[ab]").matches("x[ab]y"));
}

#[test]
fn attachment_needs_same_name_and_a_later_stamp() {
    let w = at(snap("w1", true, "s:@1"), "2026-07-31T12:00:00Z");

    assert!(attached(&task_to("20260731T130000Z-aaaa", "w1"), &w));

    assert!(
        !attached(&task_to("20260731T120000Z-aaaa", "w1"), &w));

    assert!(
        !attached(&task_to("20260731T110000Z-aaaa", "w1"), &w));

    assert!(!attached(&task_to("not-a-stamp-xxxx", "w1"), &w));

    let mut no_created = task_to("20260731T130000Z-aaaa", "w1");
    no_created.created_at = String::new();
    assert!(!attached(&no_created, &w));
    let mut bad_created = task_to("20260731T130000Z-aaaa", "w1");
    bad_created.created_at = "31/07/2026 13:00".into();
    assert!(!attached(&bad_created, &w));

    for bad in [
        "2026-00-00T00:00:00Z",
        "2026-99-99T99:99:99Z",
        "2026-02-31T12:00:00Z",
        "2026:07:31T12-00-00Z",
        "2026-07-31T12:00:00+08:00",
    ] {
        let bad_w = at(snap("w1", true, ""), bad);
        assert!(
            !attached(&task_to("20260731T130000Z-aaaa", "w1"), &bad_w));
        let mut bad_t = task_to("20260731T130000Z-aaaa", "w1");
        bad_t.created_at = bad.into();
        assert!(!attached(&bad_t, &w));
    }

    let mut late_created = task_to("20260731T004141Z-41cc", "w1");
    late_created.created_at = "2026-07-31T13:00:00Z".into();
    assert!(
        attached(&late_created, &w));
    let mut early_created = task_to("20260731T230000Z-zzzz", "w1");
    early_created.created_at = "2026-07-31T09:00:00Z".into();
    assert!(
        !attached(&early_created, &w));
    assert!(
        !attached(
            &task_to("20260731T130000Z-aaaa", "w1"),
            &at(snap("w1", true, ""), "")
        ));
    assert!(!attached(
        &task_to("20260731T130000Z-aaaa", "w1"),
        &at(snap("w1", true, ""), "31/07/2026 12:00")
    ));

    assert!(!attached(&task_to("20260731T130000Z-aaaa", "w2"), &w));
}

#[test]
fn a_task_binds_to_a_worker_only_when_exactly_one_can_claim_it() {
    let cur = at(snap("w1", true, "s:@1"), "2026-07-31T12:00:00Z");
    let model = model_of(vec![cur], Vec::new());

    assert_eq!(
        worker_of_task(&model, &task_to("20260731T130000Z-aaaa", "w1")),
        Some(0));

    assert_eq!(
        worker_of_task(&model, &task_to("20260731T110000Z-aaaa", "w1")),
        None);

    assert_eq!(
        worker_of_task(&model, &task_to("20260731T130000Z-aaaa", "gone")),
        None);

    let dup = model_of(
        vec![
            at(snap("w1", true, "s:@1"), "2026-07-31T10:00:00Z"),
            at(snap("w1", true, "s:@2"), "2026-07-31T11:00:00Z"),
        ],
        Vec::new(),
    );
    assert_eq!(
        worker_of_task(&dup, &task_to("20260731T130000Z-aaaa", "w1")),
        None);
}

#[test]
fn the_unattached_scope_lists_only_what_nobody_can_claim() {
    let mut model = model_of(
        vec![
            at(snap("w1", true, "s:@1"), "2026-07-31T12:00:00Z"),
            at(snap("w2", true, "s:@1"), "2026-07-31T12:00:00Z"),
        ],
        Vec::new(),
    );
    model.recent = vec![
        task_to("20260731T130000Z-aaaa", "w1"),
        task_to("20260731T110000Z-bbbb", "w1"),
        task_to("20260731T130000Z-cccc", "gone"),
        task_to("20260731T130000Z-dddd", "w2"),
    ];
    let all = task_rows(&model, &Filter::default(), Scope::All);
    assert_eq!(all, vec![0, 1, 2, 3]);
    assert_eq!(
        task_rows(&model, &Filter::default(), Scope::Unattached),
        vec![1, 2]);

    assert_eq!(
        task_rows(
            &model,
            &Filter {
                query: "cccc".into()
            },
            Scope::Unattached
        ),
        vec![2]);
    assert_eq!(Scope::All.toggled(), Scope::Unattached);
    assert_eq!(Scope::Unattached.toggled(), Scope::All);
}

#[test]
fn the_three_row_walks_never_drift() {
    let ra = "ra-1-aaaaaaaaaaaa";
    let rb = "rb-1-bbbbbbbbbbbb";
    let old = at(lin("dup", ra, Some(ra), None), "2026-07-31T10:00:00Z");
    let new = at(lin("dup", rb, Some(rb), None), "2026-07-31T20:00:00Z");
    let other = at(
        lin("solo", "s-2-cccccccccccc", Some(ra), Some(ra)),
        "2026-07-31T10:00:00Z",
    );
    let model = model_of(
        vec![old, other, new],
        vec![
            task_to("20260731T110000Z-aaaa", "dup"),
            task_to("20260731T210000Z-bbbb", "dup"),
            task_to("20260731T110000Z-cccc", "solo"),
        ],
    );

    for f in [
        Filter::default(),
        Filter {
            query: "dup".into(),
        },
    ] {
        let rows = worker_rows(&model, &f);
        let lines = worker_row_lines(&model, &f);
        let heads = group_line_offsets(&model, &f);
        assert_eq!(rows.len(), lines.len());
        assert!(
            lines.windows(2).all(|w| w[0] < w[1]));

        assert_eq!(
            lines.last().copied().unwrap_or(0)
                + rows.last().map(|r| row_height(*r)).unwrap_or(0),
            worker_lines_total(&model, &f));
        for (&row, _) in heads.iter() {
            assert!(
                matches!(rows.get(row), Some(Row::Worker(_))));
        }

        let last = rows.len() - 1;
        assert_eq!(
            worker_line_of(&model, &f, last),
            lines[last]);
    }
    let f = Filter::default();
    let rows = worker_rows(&model, &f);
    let lines = worker_row_lines(&model, &f);
    let heads = group_line_offsets(&model, &f);
    assert_eq!(rows.len(), lines.len());

    let under = |wi: usize| -> Vec<usize> {
        rows.iter()
            .filter_map(|r| match r {
                Row::Task { worker, task } if *worker == wi => Some(*task),
                _ => None,
            })
            .collect()
    };
    assert_eq!(under(2), vec![1]);
    assert!(
        !under(2).contains(&0));

    assert_eq!(
        under(0),
        vec![0, 1]);

    assert!(lines.windows(2).all(|w| w[0] < w[1]));
    assert_eq!(
        lines.last().copied().unwrap_or(0) + rows.last().map(|r| row_height(*r)).unwrap_or(0),
        worker_lines_total(&model, &f));

    for (&row, _) in heads.iter() {
        assert!(
            matches!(rows.get(row), Some(Row::Worker(_))));
    }
}

#[test]
fn filtering_keeps_workers_and_their_tasks_together() {
    let root = "root-1-aaaaaaaaaaaa";
    let model = model_of(
        vec![
            at(lin("alpha", root, Some(root), None), "2026-07-31T00:00:00Z"),
            at(
                lin("beta", "b-2-bbbbbbbbbbbb", Some(root), Some(root)),
                "2026-07-31T00:00:00Z",
            ),
            at(manual("gamma"), "2026-07-31T00:00:00Z"),
        ],
        vec![
            task_to("20260731T010000Z-aaaa", "alpha"),
            task_to("20260731T010000Z-bbbb", "alpha"),
            task_to("20260731T010000Z-cccc", "beta"),
        ],
    );

    let rows = worker_rows(
        &model,
        &Filter {
            query: "alpha".into(),
        },
    );
    assert_eq!(
        rows,
        vec![
            Row::Worker(0),
            Row::Task { worker: 0, task: 0 },
            Row::Task { worker: 0, task: 1 },
        ]);

    let heads = group_line_offsets(
        &model,
        &Filter {
            query: "alpha".into(),
        },
    );
    assert_eq!(heads.len(), 1);

    let rows = worker_rows(
        &model,
        &Filter {
            query: "cccc".into(),
        },
    );
    assert_eq!(rows, vec![Row::Worker(1), Row::Task { worker: 1, task: 2 }]);

    assert!(
        worker_rows(
            &model,
            &Filter {
                query: "zzz".into()
            }
        )
        .is_empty());
    assert!(
        group_line_offsets(
            &model,
            &Filter {
                query: "zzz".into()
            }
        )
        .is_empty());

    let vis = group_visible_members(
        &model,
        &Filter {
            query: "beta".into(),
        },
    );
    assert_eq!(
        vis.get(&0).copied(),
        Some(1));
}

const T_ROOT: &str = "root-1-aaaaaaaaaaaa";
const T_A: &str = "A-2-bbbbbbbbbbbb";
const T_B: &str = "B-3-cccccccccccc";
const T_C: &str = "C-4-dddddddddddd";

fn bc(model: &Model, name: &str) -> Option<String> {
    let w = model
        .workers
        .iter()
        .find(|w| w.name == name)
        .expect("fixture 裡沒有這個 worker");
    breadcrumb(model, w).map(|c| breadcrumb_line(&c))
}

#[test]
fn gate_a_breadcrumb_reads_root_gap_tombstone_self() {
    let model = model_of(
        vec![
            lin("root", T_ROOT, Some(T_ROOT), None),
            lin("C", T_C, Some(T_ROOT), Some(T_B)),

            AgentSnapshot {
                lineage_root: None,
                parent_agent: None,
                ..lin("B", "decoy-9-999999999999", None, None)
            },
        ],
        Vec::new(),
    );
    assert_eq!(
        bc(&model, "C").as_deref(),
        Some("root \u{2192} \u{2026} \u{2192} B\u{2020} (cccc) \u{2192} C"));

    let w = &model.workers[1];
    let crumbs = breadcrumb(&model, w).expect("C 是合法的 lineage 列");
    assert_eq!(crumbs.len(), 4);
    assert_eq!(crumbs[1], Crumb::Gap);
    assert!(
        matches!(&crumbs[0], Crumb::Node { tombstone, .. } if !tombstone));
    assert!(
        matches!(&crumbs[2], Crumb::Node { tombstone, .. } if *tombstone));

    let temptation = || InFlight {
        created_at: "2026-07-31T00:00:09Z".into(),
        id: "20260731T000009Z-zzzz".into(),
        from: "B".into(),
        to: "C".into(),
        status: "queued".into(),
    };
    let mut tempted = model_of(
        vec![
            lin("root", T_ROOT, Some(T_ROOT), None),
            lin("C", T_C, Some(T_ROOT), Some(T_B)),
        ],
        vec![temptation()],
    );
    tempted.recent = vec![temptation()];
    assert_eq!(
        bc(&tempted, "C"),
        bc(&model, "C"));
}

#[test]
fn breadcrumb_shapes_follow_what_the_registry_can_prove() {
    let solo = model_of(vec![lin("root", T_ROOT, Some(T_ROOT), None)], Vec::new());
    assert_eq!(bc(&solo, "root").as_deref(), Some("root"));

    let two = model_of(
        vec![
            lin("root", T_ROOT, Some(T_ROOT), None),
            lin("A", T_A, Some(T_ROOT), Some(T_ROOT)),
        ],
        Vec::new(),
    );
    assert_eq!(bc(&two, "A").as_deref(), Some("root \u{2192} A"));

    let full = model_of(
        vec![
            lin("root", T_ROOT, Some(T_ROOT), None),
            lin("A", T_A, Some(T_ROOT), Some(T_ROOT)),
            lin("B", T_B, Some(T_ROOT), Some(T_A)),
            lin("C", T_C, Some(T_ROOT), Some(T_B)),
        ],
        Vec::new(),
    );
    assert_eq!(
        bc(&full, "C").as_deref(),
        Some("root \u{2192} A \u{2192} B \u{2192} C"));
    assert_eq!(
        bc(&full, "B").as_deref(),
        Some("root \u{2192} A \u{2192} B"));
}

#[test]
fn an_absent_root_degrades_to_a_tombstone_not_to_silence() {
    let model = model_of(vec![lin("C", T_C, Some(T_ROOT), Some(T_B))], Vec::new());
    assert_eq!(
        bc(&model, "C").as_deref(),
        Some("root\u{2020} (aaaa) \u{2192} \u{2026} \u{2192} B\u{2020} (cccc) \u{2192} C"));

    let two = model_of(vec![lin("A", T_A, Some(T_ROOT), Some(T_ROOT))], Vec::new());
    assert_eq!(
        bc(&two, "A").as_deref(),
        Some("root\u{2020} (aaaa) \u{2192} A"));

    let idx = TagIndex::build(&[]);
    assert_eq!(
        crumb_of("not-a-generation-key", &idx),
        Crumb::Node {
            label: "?\u{2020}".to_string(),
            tombstone: true
        });
}

#[test]
fn a_cycle_cannot_walk_forever() {
    let model = model_of(
        vec![
            lin("root", T_ROOT, Some(T_ROOT), None),
            lin("B", T_B, Some(T_ROOT), Some(T_C)),
            lin("C", T_C, Some(T_ROOT), Some(T_B)),
        ],
        Vec::new(),
    );
    let line = bc(&model, "C").expect("形狀合法（cycle 的傷害在 traversal）");
    assert_eq!(
        line, "root \u{2192} \u{2026} \u{2192} B \u{2192} C");
    assert_eq!(line.matches(" C").count(), 1);

    let self_root = model_of(
        vec![
            lin("A", T_ROOT, Some(T_ROOT), Some(T_B)),
            lin("B", T_B, Some(T_ROOT), Some(T_ROOT)),
        ],
        Vec::new(),
    );
    assert_eq!(bc(&self_root, "A"), None);

    assert_eq!(bc(&self_root, "B").as_deref(), Some("A \u{2192} B"));
}

#[test]
fn contradictory_rows_are_invalid_not_lineage() {
    let self_root = lin("self-root", T_ROOT, Some(T_ROOT), Some(T_B));

    let not_spawned = AgentSnapshot {
        spawned: false,
        ..lin("not-spawned", T_A, Some(T_ROOT), Some(T_ROOT))
    };

    let legacy_parent = AgentSnapshot {
        lineage_root: None,
        parent_agent: None,
        ..lin("legacy-parent", T_B, None, None)
    };
    let false_claim = lin("false-claim", T_C, Some(T_ROOT), Some(T_B));
    let model = model_of(
        vec![
            lin("root", T_ROOT, Some(T_ROOT), None),
            self_root,
            not_spawned,
            legacy_parent,
            false_claim,
        ],
        Vec::new(),
    );
    let roots = set_of(&[canon(T_ROOT)]);
    let idx = TagIndex::build(&model.workers);
    let aff = |i: usize| worker_affiliation(&model.workers[i], &roots, &idx);
    assert_eq!(aff(1), Affiliation::Invalid);
    assert_eq!(
        aff(2),
        Affiliation::Invalid);
    assert_eq!(
        aff(4),
        Affiliation::Invalid);
    for name in ["self-root", "not-spawned", "false-claim"] {
        assert_eq!(bc(&model, name), None);
    }

    let ok = model_of(
        vec![
            AgentSnapshot {
                lineage_root: None,
                parent_agent: None,
                ..lin("legacy-parent", T_B, None, None)
            },
            lin("kid", T_C, Some(T_B), Some(T_B)),
        ],
        Vec::new(),
    );
    assert_eq!(
        bc(&ok, "kid").as_deref(),
        Some("legacy-parent \u{2192} kid"));
}

#[test]
fn a_duplicated_spawn_tag_proves_nothing() {
    let other = "other-9-999999999999";

    let dup_a = lin("dup-a", T_B, Some(T_B), None);
    let dup_b = lin("dup-b", T_B, Some(other), Some(other));
    let child = lin("C", T_C, Some(T_ROOT), Some(T_B));
    let model = model_of(
        vec![lin("root", T_ROOT, Some(T_ROOT), None), dup_a, dup_b, child],
        Vec::new(),
    );
    let roots = set_of(&[canon(T_ROOT)]);
    let idx = TagIndex::build(&model.workers);
    assert_eq!(
        worker_affiliation(&model.workers[1], &roots, &idx),
        Affiliation::Invalid);
    assert_eq!(
        worker_affiliation(&model.workers[2], &roots, &idx),
        Affiliation::Invalid);

    assert_eq!(
        bc(&model, "C").as_deref(),
        Some("root \u{2192} \u{2026} \u{2192} B\u{2020} (cccc) \u{2192} C"));

    let swapped = model_of(
        vec![
            lin("root", T_ROOT, Some(T_ROOT), None),
            lin("dup-b", T_B, Some(other), Some(other)),
            lin("dup-a", T_B, Some(T_B), None),
            lin("C", T_C, Some(T_ROOT), Some(T_B)),
        ],
        Vec::new(),
    );
    let idx2 = TagIndex::build(&swapped.workers);
    assert_eq!(
        worker_affiliation(&swapped.workers[1], &roots, &idx2),
        Affiliation::Invalid);
    assert_eq!(
        worker_affiliation(&swapped.workers[2], &roots, &idx2),
        Affiliation::Invalid);
    assert_eq!(bc(&swapped, "C"), bc(&model, "C"));
    assert_eq!(swapped.groups, model.groups);
}

#[test]
fn a_breadcrumb_collapses_before_it_wraps() {
    let crumbs = vec![
        Crumb::Node {
            label: "root".into(),
            tombstone: false,
        },
        Crumb::Node {
            label: "middle-one".into(),
            tombstone: false,
        },
        Crumb::Node {
            label: "middle-two".into(),
            tombstone: false,
        },
        Crumb::Node {
            label: "self".into(),
            tombstone: false,
        },
    ];
    let full = "root \u{2192} middle-one \u{2192} middle-two \u{2192} self";
    assert_eq!(breadcrumb_line(&crumbs), full);
    assert_eq!(breadcrumb_line_fit(&crumbs, 80), full);
    assert_eq!(
        breadcrumb_line_fit(&crumbs, 20),
        "root \u{2192} \u{2026} \u{2192} self");

    let fit = breadcrumb_line_fit(&crumbs, 8);
    assert_eq!(fit.chars().count(), 8);
    assert!(fit.ends_with('\u{2026}'));

    let solo = vec![Crumb::Node {
        label: "a-very-long-single-node".into(),
        tombstone: false,
    }];
    assert_eq!(breadcrumb_line_fit(&solo, 6), "a-ver\u{2026}");
}

#[test]
fn a_long_chain_walks_all_the_way_up() {
    let tags: Vec<String> = (0..8).map(|i| format!("g{i}-{}-{i:012x}", i + 1)).collect();
    let workers: Vec<AgentSnapshot> = (0..8)
        .map(|i| {
            lin(
                &format!("g{i}"),
                &tags[i],
                Some(&tags[0]),
                if i == 0 { None } else { Some(&tags[i - 1]) },
            )
        })
        .collect();
    let model = model_of(workers, Vec::new());
    assert_eq!(
        bc(&model, "g7").as_deref(),
        Some(
            "g0 \u{2192} g1 \u{2192} g2 \u{2192} g3 \u{2192} g4 \u{2192} g5 \u{2192} g6 \u{2192} g7"
        ));

    assert_eq!(hop_limit(&model), 9);
}

#[test]
fn rows_without_a_provable_generation_have_no_breadcrumb() {
    let other_root = "other-9-999999999999";
    let model = model_of(
        vec![

            AgentSnapshot {
                lineage_root: None,
                parent_agent: None,
                ..lin("legacy", T_A, None, None)
            },
            manual("manual"),

            lin("self-parent", T_B, Some(T_ROOT), Some(T_B)),

            lin("P", other_root, Some(other_root), None),
            lin("cross", T_C, Some(T_ROOT), Some(other_root)),

            AgentSnapshot {
                corrupt: true,
                ..lin("broken", "bk-7-777777777777", Some(T_ROOT), Some(T_ROOT))
            },
        ],
        Vec::new(),
    );
    for name in ["legacy", "manual", "self-parent", "cross", "broken"] {
        assert_eq!(bc(&model, name), None);
    }

    assert_eq!(bc(&model, "P").as_deref(), Some("P"));
}

#[test]
fn a_broken_intermediate_stops_the_walk() {
    let model = model_of(
        vec![
            lin("root", T_ROOT, Some(T_ROOT), None),

            lin("X", T_B, Some(T_ROOT), None),
            lin("C", T_C, Some(T_ROOT), Some(T_B)),
        ],
        Vec::new(),
    );
    assert_eq!(
        bc(&model, "C").as_deref(),
        Some("root \u{2192} \u{2026} \u{2192} X \u{2192} C"));
}

#[test]
fn task_rows_keep_every_recent_task_including_orphans() {
    let mut model = model_of(vec![lin("w1", "w1-2-bbbbbbbbbbbb", None, None)], Vec::new());
    model.recent = vec![
        inflight("20260731T000003Z-cccc", "w1"),

        inflight("20260731T000002Z-bbbb", "gone"),
    ];
    assert_eq!(
        task_rows(&model, &Filter::default(), Scope::All),
        vec![0, 1]);
    assert!(is_terminal_status("completed") && is_terminal_status("cancelled"));
    assert!(!is_terminal_status("running"));
}

#[test]
fn focus_plan_follows_design_semantics() {
    let locs = vec![
        ("other".to_string(), "@7".to_string()),
        ("cur".to_string(), "@3".to_string()),
    ];

    assert_eq!(
        focus_plan(Some(&locs), Some("cur")),
        Some(FocusPlan {
            switch_to: None,
            window: "@3".to_string()
        }));

    assert_eq!(
        focus_plan(Some(&locs), Some("elsewhere")),
        Some(FocusPlan {
            switch_to: Some("other".to_string()),
            window: "@7".to_string()
        }));

    assert_eq!(focus_plan(None, Some("cur")), None);
    assert_eq!(focus_plan(Some(&Vec::new()), Some("cur")), None);
}

/// What a capture of a screen comes to: only a screen that shows a prompt has lines.
fn capture_of(screen: Option<&str>) -> Capture {
    match screen {
        None => Capture::Failed,
        Some(t) if t.starts_with("Do you want to") => {
            Capture::Prompt(t.lines().map(|l| l.to_string()).collect())
        }
        Some(_) => Capture::Clear,
    }
}

fn probe(pane: &str, in_mode: Option<bool>, screen: Option<&str>) -> Probe {
    Probe { pane: pane.to_string(), in_mode, capture: capture_of(screen) }
}

#[test]
fn blocker_axis_keeps_v1_contract_and_three_states() {
    let prompt = "Do you want to make this edit?\n 1. Yes\n 2. No\nEsc to cancel";
    let cases: [(Option<bool>, Option<&'static str>, Blocker); 6] = [

        (Some(true), Some(prompt), Blocker::Occluded),
        (Some(true), None, Blocker::Occluded),

        (Some(false), Some(prompt), Blocker::Prompt),
        (Some(false), Some("just some output\n$ "), Blocker::Nothing),

        (Some(false), None, Blocker::Unknown),

        (None, Some(prompt), Blocker::Unknown),
    ];
    for (in_mode, screen, want) in cases {
        assert_eq!(
            blocker_probe(in_mode, capture_of(screen)).0,
            want);
    }
}

#[test]
fn blocker_index_defaults_to_unknown_outside_the_queried_set() {
    let idx = BlockerIndex::query_with_snippets(vec![
        probe("%1", Some(false), Some("idle output")),
        probe("", Some(false), Some("idle output")),
    ])
    .0;
    assert_eq!(idx.get("%1"), Blocker::Nothing);

    assert_eq!(idx.get(""), Blocker::Unknown);
    assert_eq!(idx.get("%404"), Blocker::Unknown);

    assert_eq!(BlockerIndex::unknown().get("%1"), Blocker::Unknown);
}

fn win_index(rows: &[(&str, &str, &str)]) -> TextMap<Places> {
    let mut map: std::collections::HashMap<String, Vec<(String, String)>> =
        std::collections::HashMap::new();
    for (s, w, n) in rows {
        map.entry(w.to_string())
            .or_default()
            .push((s.to_string(), n.to_string()));
    }
    for locs in map.values_mut() {
        locs.sort();
        locs.dedup();
    }
    map_of(map.into_iter().collect())
}

#[test]
fn liveness_keeps_unknown_distinct_from_dead() {
    let unknown = LiveIndex::unknown();
    assert!(matches!(pane_liveness(&unknown, "%1"), Liveness::Unknown));
    assert_eq!(window_state(&unknown, "it:@1"), WindowState::Unknown);

    let panes = map_of(vec![(
        "%1".to_string(),
        vec![("it".to_string(), "@1".to_string())],
    )]);
    let live = LiveIndex {
        panes: Some(panes),
        windows: Some(win_index(&[("it", "@1", "main")])),
        ..LiveIndex::unknown()
    };
    assert!(matches!(pane_liveness(&live, "%1"), Liveness::Live));
    assert!(matches!(pane_liveness(&live, "%9"), Liveness::Dead));
    assert_eq!(
        window_state(&live, "it:@1"),
        WindowState::Live("it".into(), "main".into()));
    assert_eq!(window_state(&live, "it:@9"), WindowState::Gone);

    assert_eq!(window_state(&live, "-"), WindowState::NotAWindow);
    assert_eq!(window_state(&live, "?"), WindowState::NotAWindow);
}

#[test]
fn origin_labels_tell_the_truth_in_all_three_window_states() {
    let live = LiveIndex {
        panes: None,
        windows: Some(win_index(&[("scratch", "@108", "main")])),
        ..LiveIndex::unknown()
    };

    assert_eq!(
        window_detail(&live, "scratch:@108"),
        "scratch:main (@108, live)");

    assert_eq!(window_detail(&live, "old:@9"), "old:@9 (gone)");

    let unknown = LiveIndex::unknown();
    assert_eq!(window_detail(&unknown, "old:@9"), "old:@9 (unknown)");

    for label in ["-", "?"] {
        assert_eq!(window_detail(&live, label), format!("{label} (n/a)"));
    }
}

#[test]
fn linked_windows_are_disambiguated_by_session_never_guessed() {
    let live = LiveIndex {
        panes: None,
        windows: Some(win_index(&[
            ("alpha", "@7", "work"),
            ("beta", "@7", "work-linked"),
            ("solo", "@8", "only"),
        ])),
        ..LiveIndex::unknown()
    };

    assert_eq!(
        window_state(&live, "alpha:@7"),
        WindowState::Live("alpha".into(), "work".into()));
    assert_eq!(
        window_state(&live, "beta:@7"),
        WindowState::Live("beta".into(), "work-linked".into()));

    let amb = window_state(&live, "gamma:@7");
    assert_eq!(
        amb,
        WindowState::Ambiguous(vec![
            ("alpha".into(), "work".into()),
            ("beta".into(), "work-linked".into()),
        ]));
    let detail = window_detail(&live, "gamma:@7");
    assert!(
        detail.contains("alpha:work") && detail.contains("beta:work-linked"));
    for banned in ["(live)", "(gone)", "(unknown)"] {
        assert!(
            !detail.contains(banned));
    }

    let dup = LiveIndex {
        panes: None,
        windows: Some(win_index(&[("alpha", "@9", "a"), ("alpha", "@9", "b")])),
        ..LiveIndex::unknown()
    };
    assert!(matches!(
        window_state(&dup, "alpha:@9"),
        WindowState::Ambiguous(_)
    ));

    assert_eq!(
        window_state(&live, "whatever:@8"),
        WindowState::Live("solo".into(), "only".into()));

    let same = LiveIndex {
        panes: None,
        windows: Some(win_index(&[
            ("alpha", "@7", "work"),
            ("alpha", "@7", "work"),
        ])),
        ..LiveIndex::unknown()
    };
    assert_eq!(
        window_state(&same, "alpha:@7"),
        WindowState::Live("alpha".into(), "work".into()));
}

#[test]
fn malformed_origin_labels_are_not_a_window_never_gone() {
    let live = LiveIndex {
        panes: None,
        windows: Some(win_index(&[("s", "@1", "main")])),
        ..LiveIndex::unknown()
    };
    for bad in ["s:@", "s:@garbage", ":@1", "s:@1x", "@1", "-", "?"] {
        assert_eq!(
            window_state(&live, bad),
            WindowState::NotAWindow);
        assert_eq!(window_detail(&live, bad), format!("{bad} (n/a)"));
    }

    assert_eq!(window_state(&live, "s:@2"), WindowState::Gone);
}

#[test]
fn live_index_reads_window_names_without_an_extra_round_trip() {
    let live = LiveIndex::query(
        Some("%1\tscratch\t@108\n"),
        7,
        Some("scratch\t@108\tmain\nit\t@2\tside\n"),
    );
    assert_eq!(
        window_detail(&live, "scratch:@108"),
        "scratch:main (@108, live)");
    assert_eq!(window_detail(&live, "it:@2"), "it:side (@2, live)");
    assert_eq!(pane_liveness(&live, "%1"), Liveness::Live);
    assert_eq!(live.success_at(), Some(7));
}

fn idx(pane: &str, b: Blocker) -> BlockerIndex {
    BlockerIndex { panes: Some(map_of(vec![(pane.to_string(), b)])) }
}

#[test]
fn prompt_blocker_needs_consecutive_rounds_to_raise() {
    let mut d = BlockerDebounce::new();

    assert_eq!(d.apply(idx("%1", Blocker::Prompt)).get("%1"), Blocker::Nothing);

    assert_eq!(
        d.apply(idx("%1", Blocker::Prompt)).get("%1"),
        Blocker::Prompt);

    assert_eq!(
        d.apply(idx("%1", Blocker::Prompt)).get("%1"),
        Blocker::Prompt);
}

#[test]
fn a_single_frame_never_raises_and_streaks_do_not_carry_over() {
    let mut d = BlockerDebounce::new();
    assert_eq!(d.apply(idx("%1", Blocker::Prompt)).get("%1"), Blocker::Nothing);
    assert_eq!(d.apply(idx("%1", Blocker::Nothing)).get("%1"), Blocker::Nothing);

    assert_eq!(d.apply(idx("%1", Blocker::Prompt)).get("%1"), Blocker::Nothing);
}

#[test]
fn lowering_the_flag_is_immediate() {
    let mut d = BlockerDebounce::new();
    d.apply(idx("%1", Blocker::Prompt));
    assert_eq!(
        d.apply(idx("%1", Blocker::Prompt)).get("%1"),
        Blocker::Prompt);
    assert_eq!(d.apply(idx("%1", Blocker::Nothing)).get("%1"), Blocker::Nothing);
}

#[test]
fn structural_verdicts_bypass_the_debounce() {
    let mut d = BlockerDebounce::new();
    assert_eq!(
        d.apply(idx("%1", Blocker::Occluded)).get("%1"),
        Blocker::Occluded);
    assert_eq!(
        d.apply(idx("%2", Blocker::Unknown)).get("%2"),
        Blocker::Unknown);

    assert_eq!(d.apply(BlockerIndex::unknown()).get("%1"), Blocker::Unknown);
}

#[test]
fn debounce_streaks_are_per_pane() {
    let mut d = BlockerDebounce::new();
    let mut m = TextMap::new();
    m.insert("%1".to_string(), Blocker::Prompt);
    m.insert("%2".to_string(), Blocker::Nothing);
    d.apply(BlockerIndex { panes: Some(m) });

    let mut m2 = TextMap::new();
    m2.insert("%1".to_string(), Blocker::Prompt);
    m2.insert("%2".to_string(), Blocker::Prompt);
    let out = d.apply(BlockerIndex { panes: Some(m2) });
    assert_eq!(out.get("%1"), Blocker::Prompt);
    assert_eq!(out.get("%2"), Blocker::Nothing);
}

#[test]
fn fmt_elapsed_boundaries() {
    let base = "2026-08-01T00:00:00Z";
    let t0 = parse_iso_to_epoch(base).unwrap();
    assert_eq!(fmt_elapsed(base, t0), "0s");
    assert_eq!(fmt_elapsed(base, t0 + 59), "59s");
    assert_eq!(fmt_elapsed(base, t0 + 60), "1m00s");
    assert_eq!(fmt_elapsed(base, t0 + 12 * 60 + 40), "12m40s");
    assert_eq!(fmt_elapsed(base, t0 + 3599), "59m59s");
    assert_eq!(fmt_elapsed(base, t0 + 3600), "1h00m");
    assert_eq!(fmt_elapsed(base, t0 + 86_399), "23h59m");
    assert_eq!(fmt_elapsed(base, t0 + 86_400), "1d");
    assert_eq!(fmt_elapsed("not-a-date", t0), "-");
    assert_eq!(fmt_elapsed(base, t0 - 1), "-");
}

#[test]
fn worker_activity_picks_newest_inflight() {
    let model = model_of(
        vec![snap("w1", true, "it:@1")],
        vec![
            inflight("20260731T000001Z-aaaa", "w1"),
            inflight("20260731T000005Z-zzzz", "w1"),
            inflight("20260731T000003Z-cccc", "w1"),
        ],
    );
    match worker_activity(&model, 0) {
        Activity::Current(ti) => assert_eq!(model.tasks[ti].id, "20260731T000005Z-zzzz"),
        other => panic!("預期 Current，得到 {other:?}"),
    }
}

#[test]
fn worker_activity_idle_basis_is_max_of_last_task_and_spawn() {
    let mut m = model_of(
        vec![AgentSnapshot {
            spawned_at: "2026-07-31T00:00:30Z".to_string(),
            ..snap("w1", true, "it:@1")
        }],
        vec![],
    );
    m.recent = vec![
        inflight("20260731T000200Z-bbbb", "w1"),
        inflight("20260731T000100Z-aaaa", "w1"),
    ];
    match worker_activity(&m, 0) {
        Activity::Idle { since, last } => {
            assert_eq!(
                since,
                parse_iso_to_epoch("2026-07-31T00:02:00Z"));
            assert_eq!(last, Some(0));
        }
        other => panic!("預期 Idle，得到 {other:?}"),
    }

    let mut m2 = model_of(
        vec![AgentSnapshot {
            spawned_at: "2026-07-31T00:05:00Z".to_string(),
            ..snap("w1", true, "it:@1")
        }],
        vec![],
    );
    m2.recent = vec![inflight("20260731T000200Z-bbbb", "w1")];
    match worker_activity(&m2, 0) {
        Activity::Idle { since, .. } => assert_eq!(
            since,
            parse_iso_to_epoch("2026-07-31T00:05:00Z")),
        other => panic!("預期 Idle，得到 {other:?}"),
    }

    let m3 = model_of(vec![snap("w1", true, "it:@1")], vec![]);
    match worker_activity(&m3, 0) {
        Activity::Idle { since, last } => {
            assert_eq!(since, None);
            assert_eq!(last, None);
        }
        other => panic!("預期 Idle，得到 {other:?}"),
    }
}

fn read_of(id: &str, request: Option<&[u8]>, len: u64, event: Option<&str>) -> SummaryRead {
    SummaryRead {
        id: id.to_string(),
        len,
        request: request.map(|b| b.to_vec()),
        event: event.map(|e| e.to_string()),
    }
}

#[test]
fn summaries_cache_never_rereads_first_line_and_tracks_events_by_len() {
    let id = "20260731T000001Z-aaaa";
    let mut model = model_of(vec![], vec![inflight(id, "w1")]);
    let mut sums = Summaries::default();
    assert!(sums.needs_first_line(id));
    assert!(sums.needs_event(id, 29));
    sums.sync(
        &model,
        &vec![read_of(id, Some(b"first\tline"), 29, Some("2026-07-31T00:00:01Z created"))],
    );
    assert_eq!(sums.first_line(id), "first line");
    assert!(sums.last_event(id).contains("created"));
    assert!(!sums.needs_first_line(id));
    assert!(!sums.needs_event(id, 29));
    assert!(sums.needs_event(id, 60));

    sums.sync(
        &model,
        &vec![read_of(id, Some(b"REWRITTEN"), 60, Some("2026-07-31T00:00:02Z delivered"))],
    );
    assert_eq!(sums.first_line(id), "first line");
    assert!(sums.last_event(id).contains("delivered"));

    model.tasks.clear();
    sums.sync(&model, &vec![]);
    assert_eq!(sums.first_line(id), "");
    assert_eq!(sums.last_event(id), "");
}

fn blockers_of(pairs: &[(&str, Blocker)]) -> BlockerIndex {
    BlockerIndex {
        panes: Some(map_of(pairs.iter().map(|(p, b)| (p.to_string(), *b)).collect())),
    }
}

fn live_of(panes: &[&str]) -> LiveIndex {
    LiveIndex {
        panes: Some(map_of(
            panes
                .iter()
                .map(|p| (p.to_string(), vec![("s".to_string(), "@1".to_string())]))
                .collect(),
        )),
        ..LiveIndex::unknown()
    }
}

fn group_order(m: &Model) -> Vec<String> {
    m.groups.iter().map(|g| group_label(m, g)).collect()
}

fn triage_model() -> Model {
    let mut ws = vec![
        lin("a1", "aaa-1-aaaaaaaaaaaa", Some("aaa-1-aaaaaaaaaaaa"), None),
        lin("b1", "bbb-1-bbbbbbbbbbbb", Some("bbb-1-bbbbbbbbbbbb"), None),
        lin("c1", "ccc-1-cccccccccccc", Some("ccc-1-cccccccccccc"), None),
    ];
    for (i, w) in ws.iter_mut().enumerate() {
        w.pane = format!("%{}", i + 1);
    }
    model_of(ws, Vec::new())
}

#[test]
fn triage_floats_groups_by_severity_and_keeps_everything_else_stable() {
    let mut m = triage_model();
    let before = group_order(&m);
    assert_eq!(before.len(), 3);

    let live = live_of(&["%1", "%2"]);
    let bl = blockers_of(&[("%2", Blocker::Prompt)]);
    apply_triage(&mut m, &live, &bl);
    let after = group_order(&m);
    assert_eq!(
        (after[0].contains("b1"), after[1].contains("c1")),
        (true, true));

    let mut m2 = triage_model();
    apply_triage(&mut m2, &live_of(&["%1", "%2", "%3"]), &blockers_of(&[]));
    assert_eq!(group_order(&m2), before);

    let mut m3 = m;
    apply_triage(&mut m3, &live, &bl);
    assert_eq!(group_order(&m3), after);
}

#[test]
fn triage_returns_to_the_canonical_order_once_the_severity_clears() {
    let mut m = triage_model();
    let canonical = group_order(&m);

    apply_triage(
        &mut m,
        &live_of(&["%1", "%2", "%3"]),
        &blockers_of(&[("%2", Blocker::Prompt)]),
    );
    assert!(group_order(&m)[0].contains("b1"));

    apply_triage(
        &mut m,
        &live_of(&["%1", "%2", "%3"]),
        &blockers_of(&[("%2", Blocker::Nothing)]),
    );
    assert_eq!(
        group_order(&m),
        canonical);

    apply_triage(
        &mut m,
        &live_of(&["%1", "%2", "%3"]),
        &blockers_of(&[("%3", Blocker::Prompt)]),
    );
    assert!(group_order(&m)[0].contains("c1"));
}

#[test]
fn an_unknown_axis_never_floats_anything() {
    let mut m = triage_model();
    let before = group_order(&m);
    apply_triage(&mut m, &LiveIndex::unknown(), &BlockerIndex::unknown());
    assert_eq!(group_order(&m), before);

    let mut m2 = triage_model();
    apply_triage(
        &mut m2,
        &live_of(&["%1", "%3"]),
        &blockers_of(&[("%2", Blocker::Prompt)]),
    );
    assert!(!group_order(&m2)[0].contains("a1"));
    apply_triage(&mut m2, &LiveIndex::unknown(), &BlockerIndex::unknown());
    assert_eq!(group_order(&m2), before);
    for wi in 0..m.workers.len() {
        assert_eq!(
            worker_severity(&m, wi, &LiveIndex::unknown(), &BlockerIndex::unknown()),
            Severity::Nothing);
    }
}

#[test]
fn severity_ranks_blocked_above_dead_above_failed() {
    let mut m = triage_model();

    m.recent = vec![InFlight {
        id: "20260801T000000Z-zzzz".to_string(),
        created_at: "2026-08-01T00:00:00Z".to_string(),
        from: "boss".to_string(),
        to: "c1".to_string(),
        status: "failed".to_string(),
    }];
    let live = live_of(&["%1", "%2", "%3"]);
    assert_eq!(
        worker_severity(&m, 2, &live, &blockers_of(&[])),
        Severity::Failed);

    assert_eq!(
        worker_severity(&m, 2, &live_of(&["%1", "%2"]), &blockers_of(&[])),
        Severity::Dead);
    assert_eq!(
        worker_severity(
            &m,
            2,
            &live_of(&["%1", "%2"]),
            &blockers_of(&[("%3", Blocker::Prompt)])
        ),
        Severity::Blocked);
    assert!(Severity::Blocked > Severity::Dead);
    assert!(Severity::Dead > Severity::Failed);
    assert!(Severity::Failed > Severity::Nothing);
}

#[test]
fn group_badges_count_only_what_the_filter_left() {
    let m = triage_model();
    let live = live_of(&["%1", "%2"]);
    let bl = blockers_of(&[("%2", Blocker::Prompt)]);
    let all = group_visible_severities(&m, &Filter::default(), &live, &bl);
    let total: usize = all.values().map(|c| c.blocked + c.dead + c.failed).sum();
    assert_eq!(total, 2);

    let f = Filter {
        query: "a1".into(),
    };
    let filtered = group_visible_severities(&m, &f, &live, &bl);
    let total: usize = filtered.values().map(|c| c.blocked + c.dead + c.failed).sum();
    assert_eq!(total, 0);
}

#[test]
fn a_snippet_only_survives_while_its_flag_is_up() {
    let lines = vec!["Do you want to proceed?".to_string(), "> 1. Yes".to_string()];
    let fresh = || map_of(vec![("%1".to_string(), lines.clone())]);

    let mut s = Snippets::default();

    s.apply(fresh(), &blockers_of(&[("%1", Blocker::Prompt)]));
    assert_eq!(s.get("%1").map(|v| v.len()), Some(2));

    let mut s2 = Snippets::default();
    s2.apply(fresh(), &blockers_of(&[("%1", Blocker::Nothing)]));
    assert_eq!(s2.get("%1"), None);

    s.apply(TextMap::new(), &blockers_of(&[("%1", Blocker::Nothing)]));
    assert_eq!(s.get("%1"), None);
    assert_eq!(s.len(), 0);

    let mut s3 = Snippets::default();
    s3.apply(fresh(), &blockers_of(&[("%1", Blocker::Prompt)]));
    s3.apply(TextMap::new(), &BlockerIndex::unknown());
    assert_eq!(s3.get("%1"), None);
}

#[test]
fn the_probe_returns_the_snippet_from_the_same_capture() {
    let prompt = "Do you want to proceed?\n> 1. Yes\n  4. No\n\nesc to cancel";
    let cases = [
        (Some(false), Some(prompt), Blocker::Prompt, true),
        (Some(false), Some("idle output"), Blocker::Nothing, false),
        (Some(true), Some(prompt), Blocker::Occluded, false),
        (Some(false), None, Blocker::Unknown, false),
    ];
    for (in_mode, screen, want, has_snip) in cases {
        let (b, snip) = blocker_probe(in_mode, capture_of(screen));
        assert_eq!(b, want);
        assert_eq!(
            snip.is_some(),
            has_snip);
    }

    let (idx, snips) =
        BlockerIndex::query_with_snippets(vec![probe("%1", Some(false), Some(prompt))]);
    assert_eq!(idx.get("%1"), Blocker::Prompt);
    assert!(snips.contains_key("%1"));
}
