use ab_tui::action::{DespawnResult, Error, EvictOutcome, EvictShown, TailCapture};
use ab_tui::app::{peek_target, App, Effect, Key, PageSizes, Panel};
use ab_tui::blocker::{Blocker, BlockerDebounce, BlockerIndex, Snippets};
use ab_tui::lineage::group_by_lineage;
use ab_tui::live::{Freshness, LiveIndex};
use ab_tui::model::{Model, Summaries, SummaryRead};
use ab_tui::registry::{AgentSnapshot, InFlight};
use ab_tui::session::{
    apply_live, ask_evict, confirm_evict, degrade_on_stale, evict_outcome_is_clean, evict_started,
    names_a_window, notify_suffix, on_effect, on_message, panes_to_probe, panic_message,
    peek_arrival, peek_started, retriage, session_of_owner, shown_blockers, shown_live,
    worker_gone, Action, CancelOutcome, Follow, Msg, NotifyOutcome, ReadOutcome, Req, Session,
    Stamps, DISK_POLL, LIVE_POLL,
};
use ab_tui::textmap::TextMap;
use ab_tui::view::blocker_mark;

#[test]
fn only_a_fully_clean_evict_avoids_the_warning_area() {
    let out = |audit: &str, despawn: DespawnResult| {
        Ok(EvictOutcome {
            task_id: "t".into(),
            final_status: "completed".into(),
            audit: audit.into(),
            despawn,
            pane: "%5".into(),
        })
    };
    assert!(evict_outcome_is_clean(&out(
        "evicted",
        DespawnResult::Killed
    )));
    assert!(!evict_outcome_is_clean(&out(
        "evicted",
        DespawnResult::Stale
    )));
    assert!(!evict_outcome_is_clean(&out(
        "evicted-unfinished",
        DespawnResult::Killed
    )));
    assert!(!evict_outcome_is_clean(&out(
        "evicted-timeout",
        DespawnResult::Killed
    )));
    assert!(!evict_outcome_is_clean(&Err(Error::new("selection stale".into()))));
}

const T0: u64 = 1_000_000;

fn one<V>(pane: &str, v: V) -> TextMap<V> {
    let mut m = TextMap::new();
    m.insert(pane.to_string(), v);
    m
}

fn prompt_round() -> BlockerIndex {
    let mut m = TextMap::new();
    m.insert("%1".to_string(), Blocker::Prompt);
    BlockerIndex { panes: Some(m) }
}

#[test]
fn the_degraded_view_is_what_triage_and_snippets_consume() {
    let unknown_live = LiveIndex::unknown();
    let unknown_blockers = BlockerIndex::unknown();
    let live = LiveIndex {
        panes: Some(one("%1", vec![("s".to_string(), "@1".to_string())])),
        ..LiveIndex::unknown()
    };
    let blockers = prompt_round();

    assert_eq!(
        shown_blockers(false, &blockers, &unknown_blockers).get("%1"),
        Blocker::Prompt);
    assert!(shown_live(false, &live, &unknown_live).panes.is_some());

    assert_eq!(
        shown_blockers(true, &blockers, &unknown_blockers).get("%1"),
        Blocker::Unknown);
    assert!(shown_live(true, &live, &unknown_live).panes.is_none());

    let mut snips = Snippets::default();
    snips.apply(
        one("%1", vec!["Do you want to proceed?".to_string()]),
        &blockers,
    );
    assert!(snips.get("%1").is_some());
    snips.apply(TextMap::new(), shown_blockers(true, &blockers, &unknown_blockers));
    assert!(
        snips.get("%1").is_none());
}

#[test]
fn live_message_routes_blockers_through_the_debounce() {
    let mut live = LiveIndex::unknown();
    let mut blockers = BlockerIndex::unknown();
    let mut debounce = BlockerDebounce::new();

    apply_live(
        &mut live,
        &mut blockers,
        &mut debounce,
        &mut Snippets::default(),
        LiveIndex::unknown(),
        prompt_round(),
        TextMap::new(),
    );
    assert_eq!(
        blocker_mark(blockers.get("%1")),
        "");

    apply_live(
        &mut live,
        &mut blockers,
        &mut debounce,
        &mut Snippets::default(),
        LiveIndex::unknown(),
        prompt_round(),
        TextMap::new(),
    );
    assert_eq!(
        blocker_mark(blockers.get("%1")),
        "  ⛔blocked");
}

fn round_at(at: u64) -> LiveIndex {
    LiveIndex {
        panes: Some(TextMap::new()),
        windows: Some(TextMap::new()),
        panes_at: Some(at),
    }
}

#[test]
fn only_a_successful_tmux_round_refreshes_the_freshness_stamp() {
    let t0 = T0;
    let mut s = Stamps::new(t0);
    let later = t0 + 30_000;

    s.note_live(&LiveIndex::unknown());
    let f = s.freshness(later);
    assert!(
        f.tmux_stale());

    s.note_live(&round_at(later));
    assert!(!s.freshness(later).tmux_stale());

    assert!(s.freshness(later).disk >= 30_000);
}

#[test]
fn a_late_arriving_round_cannot_relabel_an_expired_snapshot_as_fresh() {
    let t0 = T0;
    let mut s = Stamps::new(t0);

    let arrived = t0 + 15_000;
    s.note_live(&round_at(t0));

    let f = s.freshness(arrived);
    assert_eq!(
        f.tmux,
        Some(15_000));
    assert!(
        f.tmux_stale());

    let mut s2 = Stamps::new(t0);
    s2.note_live(&round_at(arrived));
    assert!(
        !s2.freshness(arrived).tmux_stale());

    let mut s3 = Stamps::new(t0);
    s3.note_live(&round_at(arrived));
    s3.note_live(&round_at(t0));
    assert!(
        !s3.freshness(arrived).tmux_stale());
}

#[test]
fn a_partial_tmux_round_is_not_a_successful_sample() {
    let t0 = T0;
    let s = Stamps::new(t0);

    assert_eq!(s.freshness(t0).tmux, None);
    assert!(s.freshness(t0).tmux_stale());

    let mut s2 = Stamps::new(t0);
    s2.note_live(&LiveIndex {
        panes: Some(TextMap::new()),
        windows: None,
        panes_at: Some(t0),
    });
    assert_eq!(
        s2.freshness(t0).tmux,
        None);

    let mut s3 = Stamps::new(t0);
    s3.note_live(&round_at(t0));
    assert_eq!(s3.freshness(t0).tmux, Some(0));
}

#[test]
fn a_stale_gap_voids_the_blocker_debounce_streak() {
    let mut live = LiveIndex::unknown();
    let mut blockers = BlockerIndex::unknown();
    let mut debounce = BlockerDebounce::new();

    apply_live(
        &mut live,
        &mut blockers,
        &mut debounce,
        &mut Snippets::default(),
        LiveIndex::unknown(),
        prompt_round(),
        TextMap::new(),
    );
    assert_eq!(blocker_mark(blockers.get("%1")), "");

    let stale = Freshness {
        disk: 0,
        tmux: Some(30_000),
    };
    assert!(degrade_on_stale(stale, &mut debounce));

    apply_live(
        &mut live,
        &mut blockers,
        &mut debounce,
        &mut Snippets::default(),
        LiveIndex::unknown(),
        prompt_round(),
        TextMap::new(),
    );
    assert_eq!(
        blocker_mark(blockers.get("%1")),
        "");

    apply_live(
        &mut live,
        &mut blockers,
        &mut debounce,
        &mut Snippets::default(),
        LiveIndex::unknown(),
        prompt_round(),
        TextMap::new(),
    );
    assert_eq!(blocker_mark(blockers.get("%1")), "  ⛔blocked");

    let ok = Freshness {
        disk: 0,
        tmux: Some(0),
    };
    assert!(!degrade_on_stale(ok, &mut debounce));
}

fn one_worker(tag: &str) -> Model {
    let mut m = Model {
        groups: Vec::new(),
        workers: vec![AgentSnapshot {
            name: "w1".into(),
            pane: "%5".into(),
            runtime: "codex".into(),
            owner: "it:@1".into(),
            ready: "ready".into(),
            spawn_tag: tag.into(),
            registered_at: "2026-07-31T00:00:00Z".into(),
            spawned_at: String::new(),
            spawned: true,
            corrupt: false,
            lineage_root: None,
            parent_agent: None,
        }],
        tasks: Vec::new(),
        recent: Vec::new(),
        recent_truncated: false,
    };
    m.groups = group_by_lineage(&m.workers);
    m
}

#[test]
fn a_peek_result_is_matched_against_a_freshly_loaded_model() {
    let mut model = one_worker("t-gen1");
    let mut app = App::new();
    let target = peek_target(&app, &model).expect("有 pane 的 worker 列");
    app.peek_inflight = Some(target.clone());

    let cap = TailCapture {
        text: "stale\n".to_string(),
        truncated: false,
    };
    peek_arrival(
        &mut app,
        &mut model,
        one_worker("t-gen2"),
        &target,
        Some(cap.clone()),
    );
    assert!(
        app.peek.is_none());
    assert!(app.message.contains("discarded"));
    assert_eq!(
        model.workers[0].spawn_tag, "t-gen2");

    let mut app = App::new();
    let target = peek_target(&app, &model).expect("仍有選中列");
    app.peek_inflight = Some(target.clone());
    peek_arrival(
        &mut app,
        &mut model,
        one_worker("t-gen2"),
        &target,
        Some(cap),
    );
    assert!(app.peek.is_some());
}

fn named(name: &str, pane: &str, tag: &str) -> AgentSnapshot {
    AgentSnapshot {
        name: name.into(),
        pane: pane.into(),
        spawn_tag: tag.into(),
        ..one_worker("t-gen1").workers.remove(0)
    }
}

fn task(id: &str, to: &str, status: &str) -> InFlight {
    InFlight {
        id: id.into(),
        created_at: "2026-08-01T00:00:00Z".into(),
        from: "boss".into(),
        to: to.into(),
        status: status.into(),
    }
}

fn reading(ws: Vec<AgentSnapshot>, tasks: Vec<InFlight>, recent: Vec<InFlight>) -> Model {
    Model::load(ws, tasks, recent, false)
}

#[test]
fn messages_and_follow_ups_of_the_background() {
    let mut app = App::new();
    let focused = |pane: &str| Msg::Focus {
        label: "w1".into(),
        pane: pane.into(),
        res: Ok(()),
    };
    assert_eq!(on_message(&mut app, false, focused("%5")), Follow::Nothing);
    assert_eq!(app.message, "focused 'w1' (%5)");

    app.message.clear();
    assert_eq!(on_message(&mut app, true, focused("%5")), Follow::Quit);
    assert_eq!(app.message, "");

    let r = on_message(
        &mut app,
        true,
        Msg::Focus {
            label: "w1".into(),
            pane: "%5".into(),
            res: Err(Error::new("pane %5 is gone".into())),
        },
    );
    assert_eq!(r, Follow::Nothing);
    assert_eq!(app.message, "pane %5 is gone");

    let r = on_message(
        &mut app,
        false,
        Msg::Cancel {
            id: "t1".into(),
            res: Ok(CancelOutcome {
                to: "w1".into(),
                pane: "%5".into(),
                cmdline: "agent-bridge receive t1".into(),
                notify: Some(NotifyOutcome::Notified),
            }),
        },
    );
    assert_eq!(r, Follow::Reload);
    assert_eq!(app.message, "cancelled task t1; notified w1");

    let r = on_message(
        &mut app,
        false,
        Msg::Cancel {
            id: "t1".into(),
            res: Err(Error::new("already finished".into())),
        },
    );
    assert_eq!(r, Follow::Reload);
    assert_eq!(app.message, "already finished");

    let r = on_message(
        &mut app,
        false,
        Msg::Read {
            id: "t1".into(),
            res: Ok(ReadOutcome {
                from: "boss".into(),
                to: "w1".into(),
                bytes: vec![104, 105],
            }),
        },
    );
    assert_eq!(r, Follow::Nothing);
    assert_eq!(app.message, "");
    let p = app.pager.take().unwrap();
    assert_eq!(
        (p.id.as_str(), p.from.as_str(), p.to.as_str(), p.scroll),
        ("t1", "boss", "w1", 0)
    );
    assert_eq!(p.bytes, vec![104, 105]);

    on_message(
        &mut app,
        false,
        Msg::Read {
            id: "t1".into(),
            res: Err(Error::new("not answered yet".into())),
        },
    );
    assert!(app.pager.is_none());
    assert_eq!(app.message, "not answered yet");

    assert_eq!(
        on_message(&mut app, false, Msg::Copy { res: Ok(()) }),
        Follow::Nothing
    );
    assert_eq!(
        app.message,
        "evidence copied to the tmux buffer (read it back with tmux show-buffer)"
    );
    on_message(
        &mut app,
        false,
        Msg::Copy {
            res: Err(Error::new("no buffer".into())),
        },
    );
    assert_eq!(app.message, "no buffer");
    assert!(app.warnings.is_empty());
}

#[test]
fn progress_is_replaced_and_warnings_stay() {
    let mut app = App::new();
    let step = |line: &str, warn: bool| Msg::EvictProgress {
        name: "w1".into(),
        line: line.into(),
        warn,
    };
    on_message(&mut app, false, step("sent", false));
    assert_eq!(app.message, "evict 'w1': sent");
    on_message(&mut app, false, step("notify-failed", true));
    assert_eq!(app.message, "evict 'w1': sent");
    on_message(&mut app, false, step("waiting", false));
    assert_eq!(app.message, "evict 'w1': waiting");
    assert_eq!(app.warnings, vec!["evict 'w1': notify-failed".to_string()]);
}

#[test]
fn the_end_of_an_eviction_lets_the_next_one_start() {
    let shown = EvictShown {
        name: "w1".into(),
        pane: "%5".into(),
        spawn_tag: "t-gen1".into(),
    };
    let there = || Ok(("%5".to_string(), "t-gen1".to_string()));
    let mut app = App::new();

    let req = confirm_evict(&mut app, &shown, there()).unwrap();
    assert_eq!(req.name, "w1");
    assert_eq!(req.expect_pane.as_deref(), Some("%5"));
    assert_eq!(req.expect_generation.as_deref(), Some("t-gen1"));
    evict_started(&mut app, "w1", &req.cmdline(), true);
    assert!(app.evict_inflight.contains("w1"));
    assert_eq!(
        app.message,
        "evict 'w1' in progress\u{2026} (wrap-up task, then reclaim)"
    );

    assert!(confirm_evict(&mut app, &shown, there()).is_none());
    assert_eq!(app.message, "evict of 'w1' is already in progress");
    assert!(app.warnings.is_empty());

    let r = on_message(
        &mut app,
        false,
        Msg::Evict {
            name: "w1".into(),
            res: Err(Error::new("timed out".into())),
        },
    );
    assert_eq!(r, Follow::Reload);
    assert!(!app.evict_inflight.contains("w1"));
    assert_eq!(app.warnings.len(), 1);
    assert!(app.warnings[0].contains("timed out"));
    assert!(confirm_evict(&mut app, &shown, there()).is_some());
}

#[test]
fn a_clean_eviction_is_a_message_and_no_warning() {
    let mut app = App::new();
    on_message(
        &mut app,
        false,
        Msg::Evict {
            name: "w1".into(),
            res: Ok(EvictOutcome {
                task_id: "t9".into(),
                final_status: "completed".into(),
                audit: "evicted".into(),
                despawn: DespawnResult::Killed,
                pane: "%5".into(),
            }),
        },
    );
    assert!(app.warnings.is_empty());
    assert!(app.message.contains("w1"));
}

#[test]
fn another_generation_is_never_evicted() {
    let shown = EvictShown {
        name: "w1".into(),
        pane: "%5".into(),
        spawn_tag: "t-gen1".into(),
    };
    for registry in [
        Ok(("%5".to_string(), "t-gen2".to_string())),
        Ok(("%6".to_string(), "t-gen1".to_string())),
        Err(Error::new("agent 'w1' is not registered".into())),
    ] {
        let mut app = App::new();
        assert!(confirm_evict(&mut app, &shown, registry).is_none());
        assert_eq!(app.warnings.len(), 1);
        assert!(!app.evict_inflight.contains("w1"));
    }
}

#[test]
fn an_eviction_that_cannot_start_names_the_command() {
    let mut app = App::new();
    evict_started(&mut app, "w1", "agent-bridge evict w1", false);
    assert!(!app.evict_inflight.contains("w1"));
    assert_eq!(
        app.warnings,
        vec![
            "evict 'w1' could not start (background worker failed to spawn); run it from the CLI \
             instead: agent-bridge evict w1"
                .to_string()
        ]
    );
}

#[test]
fn the_question_before_an_eviction_or_why_there_is_none() {
    let mut app = App::new();
    app.message = "old".into();
    ask_evict(&mut app, "w1", Ok(("%5".into(), "t-gen1".into())));
    let p = app.evict_prompt.take().unwrap();
    assert_eq!(
        (p.shown.name.as_str(), p.shown.pane.as_str(), p.shown.spawn_tag.as_str()),
        ("w1", "%5", "t-gen1")
    );
    assert!(p.lines.iter().any(|l| l.contains("agent-bridge evict w1")));
    assert_eq!(app.message, "");

    ask_evict(&mut app, "w1", Err(Error::new("registered by hand".into())));
    assert!(app.evict_prompt.is_none());
    assert_eq!(app.message, "registered by hand");
}

#[test]
fn a_preview_that_cannot_start_lets_the_next_one_start() {
    let m = one_worker("t-gen1");
    let mut app = App::new();
    let t = peek_target(&app, &m).unwrap();
    peek_started(&mut app, t.clone(), true);
    assert_eq!(app.message, "preview of 'w1' in progress\u{2026}");
    assert!(app.peek_inflight.is_some());
    peek_started(&mut app, t, false);
    assert_eq!(
        app.message,
        "preview of 'w1' could not start (background worker failed to spawn)"
    );
    assert!(app.peek_inflight.is_none());
}

#[test]
fn every_outcome_of_a_notification_has_its_words() {
    let o = |notify| CancelOutcome {
        to: "w1".into(),
        pane: "%5".into(),
        cmdline: "agent-bridge receive t1".into(),
        notify,
    };
    assert_eq!(notify_suffix(&o(None)), "");
    assert_eq!(notify_suffix(&o(Some(NotifyOutcome::Notified))), "; notified w1");
    assert_eq!(
        notify_suffix(&o(Some(NotifyOutcome::Deferred))),
        "; w1 is busy, notification deferred (its hook picks it up at turn end)"
    );
    assert_eq!(
        notify_suffix(&o(Some(NotifyOutcome::Failed))),
        "; could not notify w1 (pane %5): run agent-bridge receive t1 by hand"
    );
}

#[test]
fn a_dead_thread_says_where_to_look() {
    assert_eq!(
        panic_message("unknown panic"),
        "the evict background worker died unexpectedly (unknown panic): \
         check the real state with agent-bridge list --long"
    );
}

#[test]
fn the_session_is_what_stands_before_the_last_colon() {
    assert_eq!(session_of_owner("it:@1").as_deref(), Some("it"));
    assert_eq!(session_of_owner("a:b:@1").as_deref(), Some("a:b"));
    assert_eq!(session_of_owner(":@1").as_deref(), Some(""));
    assert_eq!(session_of_owner("nowhere"), None);
    assert!(names_a_window("it:@1"));
    assert!(!names_a_window("it:1"));
    assert!(!names_a_window(""));
}

#[test]
fn a_round_asks_about_the_workers_that_have_a_pane() {
    let ws = vec![named("a", "%1", "ta"), named("b", "", "tb"), named("c", "%3", "tc")];
    assert_eq!(panes_to_probe(&ws), vec!["%1".to_string(), "%3".to_string()]);
}

#[test]
fn effects_become_requests_and_say_that_they_are_under_way() {
    let m = one_worker("t-gen1");
    let (l, b) = (LiveIndex::unknown(), BlockerIndex::unknown());
    let mut app = App::new();
    let r = on_effect(
        &mut app,
        &m,
        &l,
        &b,
        Effect::Focus {
            pane: "%5".into(),
            label: "w1".into(),
        },
    );
    assert!(matches!(r, Action::Send(Req::Focus { pane, label }) if pane == "%5" && label == "w1"));
    assert_eq!(app.message, "focus 'w1' in progress\u{2026}");
    let r = on_effect(&mut app, &m, &l, &b, Effect::Cancel { id: "t1".into() });
    assert!(matches!(r, Action::Send(Req::Cancel { id }) if id == "t1"));
    assert_eq!(app.message, "cancel t1 in progress\u{2026}");
    let r = on_effect(&mut app, &m, &l, &b, Effect::Read { id: "t1".into() });
    assert!(matches!(r, Action::Send(Req::Read { id }) if id == "t1"));
    assert_eq!(app.message, "read t1 in progress\u{2026}");
    let r = on_effect(&mut app, &m, &l, &b, Effect::Copy { payload: "x".into() });
    assert!(matches!(r, Action::Send(Req::Copy { payload }) if payload == "x"));
    assert_eq!(app.message, "copying evidence\u{2026}");
    let r = on_effect(&mut app, &m, &l, &b, Effect::EvictPrompt { worker: "w1".into() });
    assert!(matches!(r, Action::AskEvict { name } if name == "w1"));
    assert!(matches!(on_effect(&mut app, &m, &l, &b, Effect::Quit), Action::Quit));
    assert!(matches!(on_effect(&mut app, &m, &l, &b, Effect::Nothing), Action::Nothing));
    worker_gone(&mut app);
    assert_eq!(
        app.message,
        "background worker is gone (tmux actions cannot run); quit and reopen"
    );
}

#[test]
fn retriage_takes_the_selection_along() {
    let mut m = reading(
        vec![named("a", "%1", ""), named("b", "%2", "")],
        vec![],
        vec![],
    );
    m.workers[0].spawn_tag = "AGENT_BRIDGE_SPAWN_TAG=ab-spawn-a-1-aaaaaaaaaaaa".into();
    m.workers[0].lineage_root = Some(m.workers[0].spawn_tag.clone());
    m.workers[1].spawn_tag = "AGENT_BRIDGE_SPAWN_TAG=ab-spawn-b-2-bbbbbbbbbbbb".into();
    m.workers[1].lineage_root = Some(m.workers[1].spawn_tag.clone());
    m.groups = group_by_lineage(&m.workers);
    let mut app = App::new();
    app.sync_keys(&m);
    assert_eq!(app.row_idx, 0);

    let blockers = BlockerIndex {
        panes: Some(one("%2", Blocker::Prompt)),
    };
    retriage(&mut m, &LiveIndex::unknown(), &blockers, &mut app);
    assert_eq!(m.groups[0].members, vec![1]);
    assert_eq!(app.row_idx, 1);
}

#[test]
fn a_session_from_its_start_to_a_stale_round() {
    let m = reading(
        vec![named("w1", "%1", "t-gen1"), named("w2", "%2", "t-gen2")],
        vec![task("20260801T000000Z-aaaa", "w1", "running")],
        vec![task("20260801T000000Z-aaaa", "w1", "running")],
    );
    let mut s = Session::new(m, Summaries::default(), T0, false);
    assert!(s.live_inflight && !s.degraded);

    assert!(s.begin_frame(T0).tmux_stale());
    assert!(s.degraded);

    assert!(!s.live_due(T0 + LIVE_POLL));
    s.on_live(round_at(T0), prompt_round(), one("%1", vec!["Proceed?".to_string()]));
    assert!(!s.live_inflight);
    assert!(!s.live_due(T0 + LIVE_POLL - 1));
    assert!(s.live_due(T0 + LIVE_POLL));
    s.live_sent(true, T0 + LIVE_POLL);
    assert!(!s.live_due(T0 + 3 * LIVE_POLL));

    assert!(!s.begin_frame(T0 + 100).tmux_stale());
    assert!(!s.degraded);
    assert_eq!(s.blockers.get("%1"), Blocker::Nothing);
    s.on_live(round_at(T0 + 200), prompt_round(), one("%1", vec!["Proceed?".to_string()]));
    assert_eq!(s.blockers.get("%1"), Blocker::Prompt);
    assert!(s.snippets.get("%1").is_some());

    assert!(s.begin_frame(T0 + 20_000).tmux_stale());
    assert!(s.degraded);
    assert!(s.snippets.get("%1").is_none());

    assert!(!s.disk_due(T0 + DISK_POLL - 1));
    assert!(s.disk_due(T0 + DISK_POLL));
    let fresh = reading(vec![named("w2", "%2", "t-gen2")], vec![], vec![]);
    s.refresh_disk(fresh, &vec![], T0 + 20_000);
    assert!(!s.disk_due(T0 + 20_000));
    assert_eq!(s.model.workers.len(), 1);
    assert_eq!(s.stamps.disk, T0 + 20_000);
}

#[test]
fn a_reading_brings_the_summaries_along() {
    let t = task("20260801T000000Z-aaaa", "w1", "running");
    let m = || reading(vec![named("w1", "%1", "t-gen1")], vec![t.clone()], vec![t.clone()]);
    let mut s = Session::new(m(), Summaries::default(), T0, false);
    let reads = vec![SummaryRead {
        id: t.id.clone(),
        len: 10,
        request: Some("fix the\tparser".as_bytes().to_vec()),
        event: Some("2026-08-01T00:00:01Z started".into()),
    }];
    s.refresh_disk(m(), &reads, T0 + 500);
    assert_eq!(s.sums.first_line(&t.id), "fix the parser");
    assert_eq!(s.sums.last_event(&t.id), "2026-08-01T00:00:01Z started");
    s.refresh_disk(m(), &vec![], T0 + 1000);
    assert_eq!(s.sums.first_line(&t.id), "fix the parser");
}

#[test]
fn a_workers_page_says_unknown_where_the_screen_does() {
    let m = || reading(vec![named("w1", "%1", "t-gen1")], vec![], vec![]);
    let mut s = Session::new(m(), Summaries::default(), T0, false);
    let live = LiveIndex {
        panes: Some(one("%1", vec![("s".to_string(), "@1".to_string())])),
        windows: Some(TextMap::new()),
        panes_at: Some(T0),
    };
    s.on_live(live, BlockerIndex::unknown(), TextMap::new());
    assert!(matches!(s.on_key(Key::Char('i'), T0 + 100), Action::Nothing));
    let page = s.app.info.take().unwrap().join("\n");
    assert!(page.contains("liveness     : live"));
    assert!(matches!(s.on_key(Key::Char('i'), T0 + 30_000), Action::Nothing));
    let page = s.app.info.take().unwrap().join("\n");
    assert!(page.contains("liveness     : unknown"));
}

#[test]
fn keys_of_a_session_ask_for_what_they_name() {
    let m = reading(
        vec![named("w1", "%1", "t-gen1")],
        vec![task("20260801T000000Z-aaaa", "w1", "running")],
        vec![task("20260801T000000Z-aaaa", "w1", "running")],
    );
    let mut s = Session::new(m, Summaries::default(), T0, true);
    assert!(s.in_popup);
    assert!(matches!(
        s.on_key(Key::Enter, T0),
        Action::Send(Req::Focus { pane, label }) if pane == "%1" && label == "w1"
    ));
    let Action::StartPeek { target } = s.on_key(Key::Char('L'), T0) else {
        panic!("a preview is captured");
    };
    peek_started(&mut s.app, target.clone(), true);
    let fresh = reading(vec![named("w1", "%1", "t-gen1")], vec![], vec![]);
    let cap = TailCapture {
        text: "done\n".into(),
        truncated: false,
    };
    s.on_peek(fresh, &vec![], &target, Some(cap), T0 + 10);
    assert_eq!(s.app.peek.as_ref().unwrap().lines, vec!["done".to_string()]);
    assert!(s.app.peek_inflight.is_none());
    assert_eq!(s.last_disk, T0 + 10);

    s.app.pages = PageSizes {
        workers: 10,
        tasks: 10,
        pager: 10,
    };
    assert!(matches!(s.on_key(Key::Char('q'), T0), Action::Nothing));
    assert!(s.app.peek.is_none());
    assert_eq!(s.app.panel, Panel::Workers);
    assert!(matches!(s.on_key(Key::Char('q'), T0), Action::Quit));
}
