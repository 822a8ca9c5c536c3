use ab_tui::action::{
    cancel_cmdline, copy_payload, copy_step, evict_confirm_lines, evict_message, evict_prompt,
    evict_request, exec_focus, focus, info_page, page_around, pager_lines, peek_page,
    DespawnResult, Error, EvictOutcome, EvictRequest, TailCapture, TmuxStep,
};
use ab_tui::app::{Pager, PeekTarget, Sel};
use ab_tui::blocker::BlockerIndex;
use ab_tui::live::{FocusPlan, LiveIndex};
use ab_tui::model::Model;
use ab_tui::registry::{AgentSnapshot, InFlight};
use ab_tui::rows::RowKey;

fn calls(steps: &[TmuxStep]) -> Vec<Vec<String>> {
    steps.iter().map(|s| s.args.clone()).collect()
}

#[test]
fn exec_focus_same_session_selects_without_switch() {
    let plan = FocusPlan {
        switch_to: None,
        window: "@3".to_string(),
    };
    assert_eq!(
        calls(&exec_focus(&plan, "%9")),
        vec![
            vec!["select-window".to_string(), "-t".into(), "@3".into()],
            vec!["select-pane".to_string(), "-t".into(), "%9".into()],
        ]);
}

#[test]
fn exec_focus_cross_session_switches_first() {
    let plan = FocusPlan {
        switch_to: Some("other".to_string()),
        window: "@7".to_string(),
    };
    let calls = calls(&exec_focus(&plan, "%2"));
    assert_eq!(calls[0], vec!["switch-client", "-t", "other"]);
    assert_eq!(calls[1][0], "select-window");
    assert_eq!(calls[2][0], "select-pane");
}

#[test]
fn focus_degrades_to_error_when_tmux_unavailable() {
    let err = focus(&LiveIndex::unknown(), "%1", Some("it")).unwrap_err();
    assert!(err.message.contains("%1"));
}

const MUTATIONS: [&str; 10] = [
    "cancel",
    "evict",
    "despawn",
    "send",
    "spawn",
    "relay",
    "unregister",
    "kill",
    "gc",
    "register",
];

fn snap(name: &str, pane: &str) -> AgentSnapshot {
    AgentSnapshot {
        name: name.to_string(),
        pane: pane.to_string(),
        runtime: "codex".to_string(),
        owner: "it:@1".to_string(),
        ready: "ready".to_string(),
        spawn_tag: "t-gen1".to_string(),
        registered_at: "2026-07-31T00:00:00Z".to_string(),
        spawned_at: String::new(),
        spawned: true,
        corrupt: false,
        lineage_root: None,
        parent_agent: None,
    }
}

fn task(id: &str) -> InFlight {
    InFlight {
        created_at: "2026-08-01T00:00:00Z".to_string(),
        id: id.to_string(),
        from: "alice".to_string(),
        to: "w1".to_string(),
        status: "completed".to_string(),
    }
}

#[test]
fn copy_payload_is_read_only_evidence_for_every_selection() {
    let w = snap("w1", "%5");
    let t = task("20260731T000009Z-dddd");

    let p = copy_payload(&Sel::Task {
        task: &t,
        worker: Some(&w),
    });
    assert!(p.contains("task-id: 20260731T000009Z-dddd"));
    assert!(p.contains("pane: %5"));
    assert!(
        p.contains("agent-bridge read 20260731T000009Z-dddd"));
    assert!(
        p.contains("agent-bridge status 20260731T000009Z-dddd"));

    let pw = copy_payload(&Sel::Worker(&w));
    assert!(pw.contains("pane: %5") && pw.contains("agent-bridge list --long"));

    for payload in [&p, &pw] {
        for m in MUTATIONS {
            assert!(
                !payload.contains(m));
        }

        assert!(!payload.starts_with('-'));
    }

    assert!(copy_payload(&Sel::Nothing).is_empty());
}

#[test]
fn copy_hands_payload_to_clipboard() {
    let w = snap("w1", "%5");
    let t = task("20260731T000009Z-dddd");
    let sel = Sel::Task {
        task: &t,
        worker: Some(&w),
    };
    let step = copy_step(&copy_payload(&sel));
    assert_eq!(step.args, vec!["set-buffer".to_string(), copy_payload(&sel)]);
}

#[test]
fn tmux_clipboard_degrades_to_error() {
    let step = copy_step("task-id: x\n");
    let err = step.outcome(false).unwrap_err();
    assert!(err.message.contains("set-buffer"));
    assert!(step.outcome(true).is_ok());
}

fn entry(pane: &str, tag: &str) -> Result<(String, String), Error> {
    Ok((pane.to_string(), tag.to_string()))
}

fn refusal(why: &str) -> Result<(String, String), Error> {
    Err(Error::new(why.to_string()))
}

#[test]
fn evict_confirm_lines_state_wrap_up_never_safe_to_delete() {
    let p = evict_prompt("w1", entry("%5", "t-gen1")).unwrap();
    let text = p.lines.join("\n");

    assert!(text.contains("wrap-up task, then reclaim"));

    for banned in [
        "安全刪除",
        "可安全",
        "安全回收",
        "可刪",
        "無殘值",
        "safe to delete",
        "safe to remove",
        "safe to reclaim",
        "no longer needed",
        "disposable",
    ] {
        assert!(!text.contains(banned));
    }
    assert!(
        text.contains("$ agent-bridge evict w1 --expect-pane %5 --expect-generation t-gen1"));
    assert_eq!(p.shown.pane, "%5");
    assert_eq!(p.shown.spawn_tag, "t-gen1");
}

#[test]
fn evict_prompt_rejects_non_spawned_origin() {
    let e = evict_prompt("manual", refusal("agent 'manual' 非 spawn 出身")).unwrap_err();
    assert!(e.message.contains("非 spawn 出身"));
    let e = evict_prompt("notag", refusal("agent 'notag' 缺 spawn_tag")).unwrap_err();
    assert!(e.message.contains("spawn_tag"));
}

#[test]
fn evict_request_rereads_registry_at_confirm_time() {
    let shown = evict_prompt("w1", entry("%5", "t-gen1")).unwrap().shown;

    let req = evict_request(&shown, entry("%5", "t-gen1")).unwrap();
    assert_eq!(req.expect_pane.as_deref(), Some("%5"));
    assert_eq!(req.expect_generation.as_deref(), Some("t-gen1"));
    assert_eq!(req.name, "w1");

    let e = evict_request(&shown, entry("%77", "t-gen2")).unwrap_err();
    assert!(e.message.contains("selection stale"));
    assert!(e.message.contains("%77"));
    assert!(e.message.contains("未建立任何任務"));

    for why in ["registry 消失", "registry 損壞", "改成人工註冊", "spawn_tag 消失"] {
        let e = evict_request(&shown, refusal(why)).unwrap_err();
        assert!(e.message.contains("selection stale"));
        assert!(e.message.contains("未建立任何任務"));
        assert!(e.message.contains(why));
    }
}

#[test]
fn evict_prompt_keeps_original_precheck_reason() {
    let e = evict_prompt("manual", refusal("agent 'manual' 非 spawn 出身")).unwrap_err();
    assert!(e.message.contains("非 spawn 出身"));
    assert!(!e.message.contains("selection stale"));
}

#[test]
fn evict_message_distinguishes_every_outcome() {
    let out = |audit: &'static str, despawn: DespawnResult| EvictOutcome {
        task_id: "20260731T000009Z-dddd".into(),
        final_status: "failed".into(),
        audit: audit.to_string(),
        despawn,
        pane: "%5".into(),
    };
    let m = evict_message("w1", &Ok(out("evicted", DespawnResult::Killed)));
    assert!(m.contains("evicted 'w1'") && m.contains("agent-bridge read"));
    let m = evict_message("w1", &Ok(out("evicted-unfinished", DespawnResult::Killed)));
    assert!(
        m.contains("notes did not land") && m.contains("failed"));
    let m = evict_message("w1", &Ok(out("evicted-timeout", DespawnResult::Killed)));
    assert!(
        m.contains("timed out") && m.contains("notes did not land"));

    let m = evict_message("w1", &Ok(out("evicted", DespawnResult::Stale)));
    assert!(m.contains("NOT reclaimed"));
    assert!(
        !m.contains("evicted 'w1'"));

    let m = evict_message("w1", &Err(Error::new("evict 中止（selection stale）：…".to_string())));
    assert!(m.contains("selection stale"));
}

#[test]
fn cancel_cmdline_is_verbatim() {
    assert_eq!(
        cancel_cmdline("20260731T000001Z-aaaa"),
        "agent-bridge cancel 20260731T000001Z-aaaa");
}

#[test]
fn the_pager_shows_a_header_the_text_and_the_keys() {
    let p = Pager {
        id: "20260731T000009Z-dddd".into(),
        from: "alice".into(),
        to: "w1".into(),
        bytes: b"one\r\ntwo \xff\n".to_vec(),
        scroll: 0,
    };
    let lines = pager_lines(&p);
    assert_eq!(lines.len(), 8);
    assert_eq!(lines[0], "task-id: 20260731T000009Z-dddd");
    assert_eq!(lines[1], "from: alice");
    assert_eq!(lines[2], "to: w1");
    assert_eq!(lines[4], "one");
    assert_eq!(lines[5], "two \u{fffd}");
    assert_eq!(lines[6], "");
    assert!(lines[7].contains("Esc/q close"));
    assert_eq!(p.max_scroll(3), 5);
    assert_eq!(p.max_scroll(80), 0);
    assert_eq!(page_around(&p, "one\ntwo \u{fffd}"), lines);
}

#[test]
fn an_eviction_without_expectations_names_only_the_worker() {
    let req = EvictRequest::new("w9");
    assert_eq!(req.cmdline(), "agent-bridge evict w9");
    let lines = evict_confirm_lines(&req);
    assert_eq!(lines.len(), 9);
    assert_eq!(lines[4], "pane      : -");
    assert_eq!(lines[7], "$ agent-bridge evict w9");
}

#[test]
fn a_pane_without_an_id_cannot_be_focused() {
    let err = focus(&LiveIndex::unknown(), "", None).unwrap_err();
    assert!(err.message.contains("no pane id"));
    let live = LiveIndex::query(Some("%1\tother\t@7\n"), 0, Some(""));
    let steps = focus(&live, "%1", Some("it")).unwrap();
    assert_eq!(
        calls(&steps),
        vec![
            vec!["switch-client".to_string(), "-t".into(), "other".into()],
            vec!["select-window".to_string(), "-t".into(), "@7".into()],
            vec!["select-pane".to_string(), "-t".into(), "%1".into()],
        ]
    );
    assert_eq!(steps[0].failure, "switch-client failed (target session: other)");
    assert_eq!(steps[2].failure, "select-pane failed (target: %1)");
}

#[test]
fn a_preview_drops_the_blank_end_of_the_pane() {
    let target = PeekTarget {
        pane: "%5".into(),
        name: "w1".into(),
        key: RowKey::Worker { name: "w1".into(), spawn_tag: "t-gen1".into() },
    };
    let cap = TailCapture { text: "a  \n\nb\t\n\n  \n".into(), truncated: true };
    let page = peek_page(&target, &cap);
    assert_eq!(page.lines, vec!["a".to_string(), "".into(), "b".into()]);
    assert_eq!(page.title, "tail preview \u{2014} w1 (%5)");
    assert!(page.truncated);
    let empty = TailCapture { text: " \n\n".into(), truncated: false };
    assert_eq!(
        peek_page(&target, &empty).lines,
        vec!["(the pane has produced no output)".to_string()]
    );
}

#[test]
fn the_page_of_a_worker_lists_its_own_tasks() {
    let mut t = task("20260731T000009Z-dddd");
    t.status = "running".into();
    let mut older = task("20260731T000001Z-aaaa");
    older.created_at = "2026-07-30T00:00:00Z".into();
    let model = Model::load(vec![snap("w1", "%5")], vec![t, older], vec![], false);
    let page = info_page(&model, &LiveIndex::unknown(), &BlockerIndex::unknown(), "w1");
    assert_eq!(page[0], "name         : w1");
    assert_eq!(page[7], "liveness     : unknown");
    assert_eq!(page[8], "blocker      : unknown");
    assert_eq!(page[11], "  20260731T000009Z-dddd  running");
    assert_eq!(page[12], "");
    assert_eq!(page[13], "evidence:");
    assert_eq!(page[14], "  pane: %5");
    assert_eq!(page[15], "  agent-bridge list --long");
    assert_eq!(
        info_page(&model, &LiveIndex::unknown(), &BlockerIndex::unknown(), "w9"),
        vec!["'w9' is gone from the registry".to_string()]
    );
}
