//! What is done with what comes back: the messages of the background, the effects of the keys, the
//! rounds of tmux and the readings of the disk.

use crate::action;
use crate::action::{DespawnResult, Error, EvictOutcome};
use crate::app;
use crate::app::{AppView, EffectView};
use crate::blocker::Blocker;
use crate::lineage;
use crate::live;
use crate::live::Freshness;
use crate::model;
use crate::model::{Model, SummariesView, SummaryRead};
use crate::registry::AgentSnapshot;
use crate::session;
use crate::session::{
    Action, CancelOutcome, Follow, Msg, NotifyOutcome, ReadOutcome, Req, Session, Stamps,
};
use crate::text;
use crate::wording;
use vstd::prelude::*;

verus! {

/// A state that only says something new.
pub open spec fn saying(a: AppView, message: Seq<char>) -> AppView {
    AppView { message, ..a }
}

/// A pane that came to the front ends a popup and is named elsewhere; one that did not is the
/// subject of the error.
pub proof fn after_a_pane_was_sought(
    a: AppView,
    in_popup: bool,
    label: String,
    pane: String,
    e: Error,
)
    ensures
        session::message_step(a, true, Msg::Focus { label, pane, res: Ok(()) }) == (a, Follow::Quit),
        session::message_step(a, false, Msg::Focus { label, pane, res: Ok(()) }) == (
            saying(a, "focused '"@ + label@ + "' ("@ + pane@ + ")"@),
            Follow::Nothing,
        ),
        session::message_step(a, in_popup, Msg::Focus { label, pane, res: Err(e) }) == (
            saying(a, e.message@),
            Follow::Nothing,
        ),
{
}

/// What is said of the notification that goes with a cancellation.
pub proof fn what_is_said_of_a_notification(o: CancelOutcome)
    ensures
        match o.notify {
            None => session::notify_text(o).len() == 0,
            Some(NotifyOutcome::Notified) => session::notify_text(o) == "; notified "@ + o.to@,
            Some(NotifyOutcome::Deferred) => session::notify_text(o) == "; "@ + o.to@
                + " is busy, notification deferred (its hook picks it up at turn end)"@,
            Some(NotifyOutcome::Failed) => session::notify_text(o) == "; could not notify "@ + o.to@
                + " (pane "@ + o.pane@ + "): run "@ + o.cmdline@ + " by hand"@,
        },
{
}

/// After a cancellation the disk is read again, whether it worked or not, and what came of it is
/// said.
pub proof fn after_a_cancellation(
    a: AppView,
    in_popup: bool,
    id: String,
    o: CancelOutcome,
    e: Error,
)
    ensures
        session::message_step(a, in_popup, Msg::Cancel { id, res: Ok(o) }) == (
            saying(a, "cancelled task "@ + id@ + session::notify_text(o)),
            Follow::Reload,
        ),
        session::message_step(a, in_popup, Msg::Cancel { id, res: Err(e) }) == (
            saying(a, e.message@),
            Follow::Reload,
        ),
{
}

/// The text of a task opens at its beginning, with the sender and the recipient; a failed reading
/// is said.
pub proof fn after_a_reading(a: AppView, in_popup: bool, id: String, o: ReadOutcome, e: Error)
    ensures
        session::message_step(a, in_popup, Msg::Read { id, res: Ok(o) }) == (
            AppView {
                pager: Some(
                    app::PagerView {
                        id: id@,
                        from: o.from@,
                        to: o.to@,
                        bytes: o.bytes@,
                        scroll: 0,
                    },
                ),
                message: Seq::empty(),
                ..a
            },
            Follow::Nothing,
        ),
        session::message_step(a, in_popup, Msg::Read { id, res: Err(e) }) == (
            saying(a, e.message@),
            Follow::Nothing,
        ),
        session::message_step(a, in_popup, Msg::Copy { res: Err(e) }) == (
            saying(a, e.message@),
            Follow::Nothing,
        ),
        session::message_step(a, in_popup, Msg::Copy { res: Ok(()) }) == (
            saying(
                a,
                "evidence copied to the tmux buffer (read it back with tmux show-buffer)"@,
            ),
            Follow::Nothing,
        ),
{
}

/// What an eviction reports on its way is said, and what it warns of is kept as a warning.
pub proof fn while_an_eviction_runs(a: AppView, in_popup: bool, name: String, line: String)
    ensures
        session::message_step(a, in_popup, Msg::EvictProgress { name, line, warn: false }) == (
            saying(a, "evict '"@ + name@ + "': "@ + line@),
            Follow::Nothing,
        ),
        session::message_step(a, in_popup, Msg::EvictProgress { name, line, warn: true }) == (
            AppView { warnings: app::warned(a.warnings, "evict '"@ + name@ + "': "@ + line@), ..a },
            Follow::Nothing,
        ),
{
}

/// At the end of an eviction the worker may be evicted again and the disk is read. Only an eviction
/// that reclaimed the pane and left its notes is merely said; everything else is a warning.
pub proof fn after_an_eviction(
    a: AppView,
    in_popup: bool,
    name: String,
    res: Result<EvictOutcome, Error>,
)
    ensures
        ({
            let good = res matches Ok(o) && o.audit@ == "evicted"@ && o.despawn
                != DespawnResult::Stale;
            let t = action::outcome_text(name@, res);
            session::message_step(a, in_popup, Msg::Evict { name, res }) == (
                if good {
                    AppView { message: t, evict_inflight: a.evict_inflight.remove(name@), ..a }
                } else {
                    AppView {
                        warnings: app::warned(a.warnings, t),
                        evict_inflight: a.evict_inflight.remove(name@),
                        ..a
                    }
                },
                Follow::Reload,
            )
        }),
{
}

/// What a key asks for is asked of the background under the same names, and the screen says so; a
/// worker's page is shown at once.
pub proof fn what_an_effect_leads_to(
    a: AppView,
    m: Model,
    l: live::LiveView,
    b: Option<Map<Seq<char>, Blocker>>,
    x: Seq<char>,
    y: Seq<char>,
    r: Action,
)
    ensures
        session::action_for(EffectView::Nothing, r) <==> r is Nothing,
        session::action_for(EffectView::Info { worker: x }, r) <==> r is Nothing,
        session::action_for(EffectView::Quit, r) <==> r is Quit,
        session::action_for(EffectView::Focus { pane: x, label: y }, r) <==> (r matches Action::Send(
            Req::Focus { pane, label },
        ) && pane@ == x && label@ == y),
        session::action_for(EffectView::Cancel { id: x }, r) <==> (r matches Action::Send(
            Req::Cancel { id },
        ) && id@ == x),
        session::action_for(EffectView::Read { id: x }, r) <==> (r matches Action::Send(
            Req::Read { id },
        ) && id@ == x),
        session::action_for(EffectView::Copy { payload: x }, r) <==> (r matches Action::Send(
            Req::Copy { payload },
        ) && payload@ == x),
        session::action_for(EffectView::EvictPrompt { worker: x }, r) <==> (r
            matches Action::AskEvict { name } && name@ == x),
        session::effect_step(a, m, l, b, EffectView::Nothing) == a,
        session::effect_step(a, m, l, b, EffectView::Quit) == a,
        session::effect_step(a, m, l, b, EffectView::EvictPrompt { worker: x }) == a,
        session::effect_step(a, m, l, b, EffectView::Focus { pane: x, label: y }) == saying(
            a,
            "focus '"@ + y + "' in progress\u{2026}"@,
        ),
        session::effect_step(a, m, l, b, EffectView::Cancel { id: x }) == saying(
            a,
            "cancel "@ + x + " in progress\u{2026}"@,
        ),
        session::effect_step(a, m, l, b, EffectView::Read { id: x }) == saying(
            a,
            "read "@ + x + " in progress\u{2026}"@,
        ),
        session::effect_step(a, m, l, b, EffectView::Copy { payload: x }) == saying(
            a,
            "copying evidence\u{2026}"@,
        ),
        session::effect_step(a, m, l, b, EffectView::Info { worker: x }) == (AppView {
            info: Some(action::page_of(m, l, b, x)),
            ..a
        }),
{
}

/// An eviction and a preview are started for the very generation that the key was about.
pub proof fn what_is_started_for_a_generation(
    a: AppView,
    m: Model,
    l: live::LiveView,
    b: Option<Map<Seq<char>, Blocker>>,
    shown: action::EvictShownView,
    target: app::PeekTargetView,
    r: Action,
)
    ensures
        session::action_for(EffectView::Evict { shown }, r) <==> (r matches Action::StartEvict {
            shown: s,
        } && s.name@ == shown.name && s.pane@ == shown.pane && s.spawn_tag@ == shown.spawn_tag),
        session::action_for(EffectView::Peek { target }, r) <==> (r matches Action::StartPeek {
            target: t,
        } && t@ == target),
        session::effect_step(a, m, l, b, EffectView::Evict { shown }) == a,
        session::effect_step(a, m, l, b, EffectView::Peek { target }) == a,
{
}

/// Before an eviction the registry is asked, and the question shows what it says; where it says
/// nothing, there is no question.
pub proof fn how_the_question_comes_up(
    a: AppView,
    name: Seq<char>,
    pane: String,
    tag: String,
    e: Error,
)
    ensures
        session::asked(a, name, Err(e)) == saying(a, e.message@),
        ({
            let b = session::asked(a, name, Ok((pane, tag)));
            let shown = action::EvictShownView { name, pane: pane@, spawn_tag: tag@ };
            &&& b.evict_prompt == Some(
                action::EvictPromptView { shown, lines: action::question_lines(shown) },
            )
            &&& b == (AppView { evict_prompt: b.evict_prompt, message: Seq::empty(), ..a })
        }),
        session::gone(a) == saying(
            a,
            "background worker is gone (tmux actions cannot run); quit and reopen"@,
        ),
{
}

/// A yes evicts only where no eviction of the name is running and the registry, read again, still
/// shows the pane and the generation that the question showed. Else nothing is started and a
/// person is told.
pub proof fn when_a_yes_is_refused(
    a: AppView,
    shown: action::EvictShownView,
    registry: Result<(String, String), Error>,
)
    ensures
        session::refused(a, shown, registry) is None <==> !a.evict_inflight.contains(shown.name)
            && (registry matches Ok((pane, tag)) && pane@ == shown.pane && tag@ == shown.spawn_tag),
        a.evict_inflight.contains(shown.name) ==> session::refused(a, shown, registry) == Some(
            saying(a, "evict of '"@ + shown.name + "' is already in progress"@),
        ),
        !a.evict_inflight.contains(shown.name) && registry is Err ==> session::refused(
            a,
            shown,
            registry,
        ) == Some(
            AppView {
                warnings: app::warned(
                    a.warnings,
                    action::gone_message(shown.name, (registry->Err_0).message@),
                ),
                ..a
            },
        ),
        !a.evict_inflight.contains(shown.name) && (registry matches Ok((pane, tag)) && !(pane@
            == shown.pane && tag@ == shown.spawn_tag)) ==> session::refused(a, shown, registry)
            == Some(
            AppView {
                warnings: app::warned(
                    a.warnings,
                    action::changed_message(
                        shown,
                        (registry->Ok_0).0@,
                        (registry->Ok_0).1@,
                    ),
                ),
                ..a
            },
        ),
{
}

/// An eviction or a preview that was started is under way and said to be; one that was not started
/// is not under way, and that is said too.
pub proof fn when_something_was_started(
    a: AppView,
    name: Seq<char>,
    cmdline: Seq<char>,
    target: app::PeekTargetView,
)
    ensures
        session::evict_begun(a, name, cmdline, true) == (AppView {
            evict_inflight: a.evict_inflight.insert(name),
            message: "evict '"@ + name + "' in progress\u{2026} (wrap-up task, then reclaim)"@,
            ..a
        }),
        session::evict_begun(a, name, cmdline, false) == (AppView {
            warnings: app::warned(
                a.warnings,
                "evict '"@ + name
                    + "' could not start (background worker failed to spawn); run it from the CLI instead: "@
                    + cmdline,
            ),
            ..a
        }),
        session::peek_begun(a, target, true) == (AppView {
            peek_inflight: Some(target),
            message: "preview of '"@ + target.name + "' in progress\u{2026}"@,
            ..a
        }),
        session::peek_begun(a, target, false) == (AppView {
            peek_inflight: None,
            message: "preview of '"@ + target.name
                + "' could not start (background worker failed to spawn)"@,
            ..a
        }),
{
}

/// The session of an owner is what stands before the last colon; without a colon there is none.
pub proof fn which_session_an_owner_names(sess: Seq<char>, rest: Seq<char>)
    requires
        !rest.contains(':'),
    ensures
        session::session_name(sess + seq![':'] + rest) == Some(sess),
        session::session_name(rest) is None,
{
    let s = sess + seq![':'] + rest;
    wording::where_a_letter_last_stands(s, ':');
    wording::where_a_letter_last_stands(rest, ':');
    let e = text::last_at(s, ':');
    assert(s[sess.len() as int] == ':');
    if e > sess.len() {
        assert(s[e] == rest[e - sess.len() - 1]);
    }
    assert(s.take(sess.len() as int) =~= sess);
}

/// The panes that are looked at are those of the workers that have one, in their order.
pub proof fn which_panes_are_looked_at(ws: Seq<AgentSnapshot>, n: int)
    requires
        0 <= n < ws.len(),
    ensures
        session::panes_upto(ws, 0).len() == 0,
        ws[n].pane@.len() > 0 ==> session::panes_upto(ws, n + 1) == session::panes_upto(ws, n).push(
            ws[n].pane@,
        ),
        ws[n].pane@.len() == 0 ==> session::panes_upto(ws, n + 1) == session::panes_upto(ws, n),
{
}

/// How old a source is, is the time since it was last noted, and nothing where the clock stands
/// before that.
pub proof fn how_old_the_sources_are(s: Stamps, now: u64)
    ensures
        ({
            let f = s.ages(now);
            &&& f.disk == (if now >= s.disk {
                now - s.disk
            } else {
                0
            })
            &&& s.tmux is None ==> f.tmux is None
            &&& s.tmux matches Some(t) ==> f.tmux is Some && f.tmux->0 == (if now >= t {
                now - t
            } else {
                0
            })
        }),
{
}

/// A round of tmux queries is noted by when it was seen, where it was seen whole and later than the
/// last one.
pub proof fn when_a_round_is_noted(s: Stamps, o: u64)
    ensures
        s.noted(None) == s,
        s.tmux is None || (s.tmux->0) < o ==> s.noted(Some(o)) == (Stamps {
            disk: s.disk,
            tmux: Some(o),
        }),
        s.tmux is Some && s.tmux->0 >= o ==> s.noted(Some(o)) == s,
{
}

/// The disk is read twice a second and tmux is asked every two seconds; what is older than three
/// seconds, or than ten, is stale; up to two hundred recent tasks are shown; a prompt is shown
/// from its second round on; five warnings are kept.
pub proof fn the_limits()
    ensures
        session::DISK_POLL == 500,
        session::LIVE_POLL == 2000,
        live::DISK_STALE == 3000,
        live::TMUX_STALE == 10_000,
        model::RECENT_LIMIT == 200,
        crate::blocker::BLOCKER_DEBOUNCE_ROUNDS == 2,
        app::MAX_WARNINGS == 5,
        crate::rows::TASK_ROW_H == 2,
{
}

/// After a reading the groups stand in the order of their severity, and nothing else of the reading
/// is changed.
pub proof fn what_a_reading_keeps(
    before: Model,
    after: Model,
    l: live::LiveView,
    b: Option<Map<Seq<char>, Blocker>>,
)
    requires
        session::in_order(before, after, l, b),
    ensures
        after.workers@ == before.workers@,
        after.tasks@ == before.tasks@,
        after.recent@ == before.recent@,
        after.recent_truncated == before.recent_truncated,
        lineage::group_views(after.groups@).to_multiset() == lineage::groups_of(
            before.workers@,
        ).to_multiset(),
{
    crate::triage::triage_moves_whole_groups(before, l, b);
}

/// Whether a task is in a reading.
pub open spec fn in_reading(m: Model, id: Seq<char>) -> bool {
    (exists|i: int| 0 <= i < m.tasks@.len() && (#[trigger] m.tasks@[i]).id@ == id) || (exists|i: int|
        0 <= i < m.recent@.len() && (#[trigger] m.recent@[i]).id@ == id)
}

/// What is known of the tasks after a reading: something of each task that is in it, and nothing of
/// any other. The first line of a request, once known, stays; else it is what was read, on one
/// line. The last event stays while the log has the same length, and else is what was read.
pub proof fn what_is_kept_of_the_tasks(
    old: SummariesView,
    m: Model,
    reads: Seq<SummaryRead>,
    id: Seq<char>,
    i: int,
)
    requires
        0 <= i < reads.len(),
        reads[i].id@ == id,
        forall|j: int| 0 <= j < i ==> (#[trigger] reads[j]).id@ != id,
    ensures
        ({
            let new = model::synced(old, m, reads);
            &&& new.first.dom().contains(id) <==> in_reading(m, id)
            &&& new.events.dom().contains(id) <==> in_reading(m, id)
            &&& in_reading(m, id) ==> {
                &&& old.first.dom().contains(id) ==> new.first[id] == old.first[id]
                &&& !old.first.dom().contains(id) ==> new.first[id] == (match reads[i].request {
                    Some(bytes) => model::scrubbed(text::lossy(bytes@)),
                    None => Seq::empty(),
                })
                &&& old.events.dom().contains(id) && old.events[id].0 == reads[i].len
                    ==> new.events[id] == old.events[id]
                &&& !(old.events.dom().contains(id) && old.events[id].0 == reads[i].len)
                    ==> new.events[id] == (
                    reads[i].len,
                    match reads[i].event {
                        Some(line) => model::scrubbed(line@),
                        None => Seq::empty(),
                    },
                )
            }
        }),
{
    lemma_read_at(reads, id, 0, i);
    assert(model::wanted(m, id) <==> in_reading(m, id));
}

/// The first reading of a task.
proof fn lemma_read_at(reads: Seq<SummaryRead>, id: Seq<char>, from: int, i: int)
    requires
        0 <= from <= i < reads.len(),
        reads[i].id@ == id,
        forall|j: int| 0 <= j < i ==> (#[trigger] reads[j]).id@ != id,
    ensures
        model::read_at(reads, id, from) == Some(i),
    decreases i - from,
{
    if from < i {
        lemma_read_at(reads, id, from + 1, i);
    }
}

/// What a worker does: its newest unfinished task, or nothing, since its newest recent task or its
/// own start, whichever is the later.
pub proof fn what_a_worker_does(m: Model, wi: int, act: model::Activity)
    requires
        0 <= wi < m.workers@.len(),
        m.tasks@.len() <= usize::MAX,
        model::activity_is(m, wi, act),
    ensures
        ({
            let w = m.workers@[wi];
            let busy = exists|i: int|
                0 <= i < m.tasks@.len() && #[trigger] crate::registry::belongs(m.tasks@[i], w);
            &&& busy <==> act is Current
            &&& act matches model::Activity::Current(t) ==> {
                &&& t < m.tasks@.len()
                &&& crate::registry::belongs(m.tasks@[t as int], w)
                &&& forall|i: int|
                    0 <= i < m.tasks@.len() && #[trigger] crate::registry::belongs(m.tasks@[i], w)
                        ==> !text::less(m.tasks@[t as int].id@, m.tasks@[i].id@)
            }
            &&& act matches model::Activity::Idle { since, last } ==> {
                &&& last matches Some(r) ==> {
                    &&& r < m.recent@.len()
                    &&& crate::registry::belongs(m.recent@[r as int], w)
                    &&& forall|i: int|
                        0 <= i < r ==> !#[trigger] crate::registry::belongs(m.recent@[i], w)
                }
                &&& last is None ==> forall|i: int|
                    0 <= i < m.recent@.len() ==> !#[trigger] crate::registry::belongs(
                        m.recent@[i],
                        w,
                    )
                &&& last is None ==> crate::stamp::as_epoch(since) == crate::stamp::epoch(
                    w.spawned_at@,
                )
                &&& last matches Some(r) ==> crate::stamp::as_epoch(since) == model::later(
                    crate::stamp::epoch(m.recent@[r as int].created_at@),
                    crate::stamp::epoch(w.spawned_at@),
                )
            }
        }),
{
    let w = m.workers@[wi];
    crate::triage::newest_task_of_a_worker(m.tasks@, w, m.tasks@.len() as int);
    crate::triage::first_task_of_a_worker(m.recent@, w, 0);
}

/// Where a worker comes from: not known where its row cannot be read, or it was spawned by nobody
/// named; nowhere where it was not spawned; else from its owner.
pub proof fn where_a_worker_comes_from(w: AgentSnapshot)
    ensures
        model::origin_of(w) == (if w.corrupt || (w.spawned && w.owner@.len() == 0) {
            "?"@
        } else if !w.spawned {
            "-"@
        } else {
            w.owner@
        }),
{
}

/// Before the first round nothing is known of tmux, and that counts as stale.
pub proof fn nothing_is_known_at_first()
    ensures
        session::nothing_known().panes is None,
        session::nothing_known().windows is None,
        session::nothing_known().panes_at is None,
        (Freshness { disk: 0, tmux: None }).stale(),
{
}

/// Of a task that was not read and of which nothing was known, nothing is known afterwards.
pub proof fn what_was_not_read_is_not_known(
    old: SummariesView,
    m: Model,
    reads: Seq<SummaryRead>,
    id: Seq<char>,
)
    requires
        in_reading(m, id),
        !old.first.dom().contains(id),
        !old.events.dom().contains(id),
        forall|j: int| 0 <= j < reads.len() ==> (#[trigger] reads[j]).id@ != id,
    ensures
        model::synced(old, m, reads).first[id].len() == 0,
        model::synced(old, m, reads).events[id].0 == 0,
        model::synced(old, m, reads).events[id].1.len() == 0,
{
    lemma_not_read(reads, id, 0);
    assert(model::wanted(m, id));
}

/// A task that was not read is not found among the readings.
proof fn lemma_not_read(reads: Seq<SummaryRead>, id: Seq<char>, from: int)
    requires
        0 <= from <= reads.len(),
        forall|j: int| 0 <= j < reads.len() ==> (#[trigger] reads[j]).id@ != id,
    ensures
        model::read_at(reads, id, from) is None,
    decreases reads.len() - from,
{
    if from < reads.len() {
        lemma_not_read(reads, id, from + 1);
    }
}

/// While what is known of tmux is too old, nothing of it is shown; else all of it is.
pub proof fn what_is_shown_of_tmux(s: Session)
    ensures
        s.degraded ==> s.live_shown().panes is None && s.live_shown().windows is None
            && s.live_shown().panes_at is None && s.blockers_shown() is None,
        !s.degraded ==> s.live_shown() == s.live@ && s.blockers_shown() == s.blockers@,
{
}

/// A reading of the disk changes nothing of what is known of tmux, and notes when it was.
pub proof fn what_a_reading_leaves(after: Session, before: Session, now: u64)
    requires
        after.reread(before, now),
    ensures
        after.live == before.live,
        after.blockers == before.blockers,
        after.snippets == before.snippets,
        after.debounce == before.debounce,
        after.stamps.disk == now,
        after.stamps.tmux == before.stamps.tmux,
        after.last_disk == now,
        after.last_live == before.last_live,
        after.live_inflight == before.live_inflight,
        after.degraded == before.degraded,
        after.in_popup == before.in_popup,
{
}

/// What is said where the registry no longer shows what the question showed.
pub proof fn what_is_said_of_a_refusal(
    shown: action::EvictShownView,
    why: Seq<char>,
    pane: Seq<char>,
    tag: Seq<char>,
)
    ensures
        action::gone_message(shown.name, why)
            == "evict 中止（selection stale）：確認當下重讀 registry，已取不到 agent '"@ + shown.name
            + "' 框上那一代（"@ + why + "）；未建立任何任務、未通知、未回收"@,
        action::changed_message(shown, pane, tag)
            == "evict 中止（selection stale）：確認當下重讀 registry，agent '"@ + shown.name
            + "' 現為 pane "@ + pane + "／世代 "@ + tag + "，與證據框顯示的 pane "@ + shown.pane
            + "／世代 "@ + shown.spawn_tag + " 不同；未建立任何任務、未通知、未回收"@,
{
}

} // verus!
