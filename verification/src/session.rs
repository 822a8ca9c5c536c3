//! A session of the dashboard: what each message, each key and each tick does to it, and what
//! is to be done outside.
//!
//! Nothing here waits. Whatever can hang, a tmux query or a lock, is done in the background and
//! comes back as a message. Times are milliseconds since the start.

use crate::action;
use crate::action::{
    evict_message, evict_prompt, evict_request, info_page, DespawnResult, Error, EvictOutcome,
    EvictRequest, EvictShown, TailCapture,
};
use crate::app;
use crate::app::{handle_key, peek_apply, App, AppView, Effect, EffectView, Key, Pager, PeekTarget};
use crate::blocker;
use crate::blocker::{Blocker, BlockerDebounce, BlockerIndex, Snippets};
use crate::lineage;
use crate::live;
use crate::live::{Freshness, LiveIndex};
use crate::model;
use crate::model::{apply_triage, Model, Summaries, SummaryRead};
use crate::registry::AgentSnapshot;
use crate::text;
use crate::text::{contains_text, copy_text, from_chars, last_index, same, to_chars, wrapped};
use crate::textmap::TextMap;
use vstd::prelude::*;
use vstd::string::*;

verus! {

/// How often the disk is read.
pub const DISK_POLL: u64 = 500;

/// How often tmux is asked.
pub const LIVE_POLL: u64 = 2000;

/// The time from one moment to a later one; none where it is not later.
pub open spec fn since(from: u64, now: u64) -> u64 {
    if now < from {
        0
    } else {
        (now - from) as u64
    }
}

/// The time from one moment to a later one.
fn elapsed(from: u64, now: u64) -> (r: u64)
    ensures
        r == since(from, now),
{
    if now < from {
        0
    } else {
        now - from
    }
}

/// When the two sources were last read. These are not the times at which they were last asked:
/// a query that is sent again and again and never answered does not make anything fresh.
#[derive(Clone, Copy, PartialEq, Eq, Debug, Structural)]
pub struct Stamps {
    /// The last completed scan of the disk.
    pub disk: u64,
    /// When the last successful round of tmux queries was observed; `None` before the first.
    pub tmux: Option<u64>,
}

impl Stamps {
    /// The stamps after the first scan of the disk.
    pub fn new(now: u64) -> (r: Self)
        ensures
            r == (Stamps { disk: now, tmux: None }),
    {
        Stamps { disk: now, tmux: None }
    }

    /// How old the two sources are.
    pub open spec fn ages(self, now: u64) -> Freshness {
        Freshness {
            disk: since(self.disk, now),
            tmux: match self.tmux {
                Some(t) => Some(since(t, now)),
                None => None,
            },
        }
    }

    /// How old the two sources are.
    pub fn freshness(&self, now: u64) -> (r: Freshness)
        ensures
            r == self.ages(now),
    {
        Freshness {
            disk: elapsed(self.disk, now),
            tmux: match self.tmux {
                Some(t) => Some(elapsed(t, now)),
                None => None,
            },
        }
    }

    /// A scan of the disk has completed.
    pub fn note_disk(&mut self, now: u64)
        ensures
            *final(self) == (Stamps { disk: now, ..*old(self) }),
    {
        self.disk = now;
    }

    /// The stamps after a round that was observed at a time, or was no success.
    pub open spec fn noted(self, observed: Option<u64>) -> Stamps {
        match observed {
            Some(o) => match self.tmux {
                Some(t) => if o > t {
                    Stamps { tmux: Some(o), ..self }
                } else {
                    self
                },
                None => Stamps { tmux: Some(o), ..self },
            },
            None => self,
        }
    }

    /// A round of tmux queries has come back. Only a successful one counts, and it counts from
    /// when it was observed, not from when it arrived: the slower the queries, the older what
    /// they say.
    pub fn note_live(&mut self, l: &LiveIndex)
        ensures
            *final(self) == old(self).noted(l@.observed()),
    {
        if let Some(observed) = l.success_at() {
            match self.tmux {
                Some(t) => if observed > t {
                    self.tmux = Some(observed);
                },
                None => {
                    self.tmux = Some(observed);
                },
            }
        }
    }
}

/// A round that was no success makes nothing fresher, and no round takes a fresher one back.
pub proof fn rounds_never_take_back(s: Stamps, observed: Option<u64>)
    ensures
        observed is None ==> s.noted(observed) == s,
        s.noted(observed).disk == s.disk,
        s.tmux matches Some(t) ==> (s.noted(observed).tmux matches Some(u) && u >= t),
        s.noted(observed).tmux == s.tmux || s.noted(observed).tmux == observed,
{
}

/// A round that arrives when what it saw is already out of date does not make anything fresh.
pub proof fn late_rounds_are_stale(s: Stamps, observed: u64, now: u64)
    requires
        s.ages(now).stale(),
        observed <= now,
        now - observed >= live::TMUX_STALE,
    ensures
        s.noted(Some(observed)).ages(now).stale(),
{
}

/// What is shown of the panes.
pub fn shown_live<'a>(degraded: bool, live: &'a LiveIndex, unknown: &'a LiveIndex) -> (r:
    &'a LiveIndex)
    ensures
        *r == (if degraded {
            *unknown
        } else {
            *live
        }),
{
    if degraded {
        unknown
    } else {
        live
    }
}

/// What is shown of the blockers.
pub fn shown_blockers<'a>(
    degraded: bool,
    blockers: &'a BlockerIndex,
    unknown: &'a BlockerIndex,
) -> (r: &'a BlockerIndex)
    ensures
        *r == (if degraded {
            *unknown
        } else {
            *blockers
        }),
{
    if degraded {
        unknown
    } else {
        blockers
    }
}

/// Whether what is known of tmux is too old to be shown. If it is, the streaks of the prompts
/// end with it: rounds before and after a gap are not in a row.
pub fn degrade_on_stale(fresh: Freshness, debounce: &mut BlockerDebounce) -> (r: bool)
    ensures
        r == fresh.stale(),
        final(debounce)@ == (if fresh.stale() {
            Map::<Seq<char>, u32>::empty()
        } else {
            old(debounce)@
        }),
{
    let stale = fresh.tmux_stale();
    if stale {
        debounce.reset();
    }
    stale
}

/// Takes a round in. The panes are taken as they are; the blockers pass the debounce; the
/// prompts follow what is shown of the blockers.
pub fn apply_live(
    live: &mut LiveIndex,
    blockers: &mut BlockerIndex,
    debounce: &mut BlockerDebounce,
    snippets: &mut Snippets,
    l: LiveIndex,
    b: BlockerIndex,
    s: TextMap<Vec<String>>,
)
    ensures
        *final(live) == l,
        final(blockers)@ == blocker::shown(old(debounce)@, b@),
        final(debounce)@ == blocker::next_streak(old(debounce)@, b@),
        final(snippets)@ == blocker::kept(
            old(snippets)@.union_prefer_right(s@),
            blocker::shown(old(debounce)@, b@),
        ),
{
    *live = l;
    *blockers = debounce.apply(b);
    snippets.apply(s, blockers);
}

/// Whether a model is another with its groups put in order.
pub open spec fn in_order(
    before: Model,
    after: Model,
    live: live::LiveView,
    blockers: Option<Map<Seq<char>, Blocker>>,
) -> bool {
    &&& lineage::group_views(after.groups@) == model::triaged(before, live, blockers)
    &&& after.workers == before.workers
    &&& after.tasks == before.tasks
    &&& after.recent == before.recent
    &&& after.recent_truncated == before.recent_truncated
    &&& after.wf()
}

/// Puts the groups in order and lets the selection follow. The two belong together: after the
/// groups have moved, a place is another worker's.
pub fn retriage(model: &mut Model, live: &LiveIndex, blockers: &BlockerIndex, app: &mut App)
    ensures
        in_order(*old(model), *final(model), live@, blockers@),
        final(app)@ == app::relocated(old(app)@, *final(model)),
{
    apply_triage(model, live, blockers);
    app.relocate(model);
}

/// Takes up a preview that has arrived. `fresh` is a reading of this moment: only against what
/// is on the disk now can it be told whether the row is still the same generation.
pub fn peek_arrival(
    app: &mut App,
    model: &mut Model,
    fresh: Model,
    target: &PeekTarget,
    res: Option<TailCapture>,
)
    requires
        fresh.wf(),
    ensures
        *final(model) == fresh,
        final(app)@ == app::peeked(app::relocated(old(app)@, fresh), fresh, target@, res),
{
    *model = fresh;
    app.relocate(model);
    peek_apply(app, model, target, res);
}

/// Whether an eviction ended so well that a message is enough: the notes landed and the pane
/// was reclaimed.
pub open spec fn clean(res: Result<EvictOutcome, Error>) -> bool {
    match res {
        Ok(o) => o.audit@ == "evicted"@ && o.despawn != DespawnResult::Stale,
        Err(_) => false,
    }
}

/// Whether an eviction ended so well that a message is enough. Everything else is for a person
/// to follow up, and stays.
pub fn evict_outcome_is_clean(res: &Result<EvictOutcome, Error>) -> (r: bool)
    ensures
        r == clean(*res),
{
    match res {
        Ok(o) => same(o.audit.as_str(), "evicted") && o.despawn != DespawnResult::Stale,
        Err(_) => false,
    }
}

/// The end of an eviction whose thread died. Without it the eviction would stay in progress for
/// ever.
pub fn panic_message(cause: &str) -> (r: String)
    ensures
        r@ == "the evict background worker died unexpectedly ("@ + cause@
            + "): check the real state with agent-bridge list --long"@,
{
    let mut s = copy_text("the evict background worker died unexpectedly (");
    s.append(cause);
    s.append("): check the real state with agent-bridge list --long");
    s
}

/// What became of a notification.
#[derive(Clone, Copy, PartialEq, Eq, Debug, Structural)]
pub enum NotifyOutcome {
    Notified,
    Deferred,
    Failed,
}

/// How a cancellation ended.
#[derive(Clone, Debug, PartialEq, Eq)]
pub struct CancelOutcome {
    pub to: String,
    pub pane: String,
    pub cmdline: String,
    /// `None` where the worker is not registered.
    pub notify: Option<NotifyOutcome>,
}

/// What is said of a notification.
pub open spec fn notify_text(o: CancelOutcome) -> Seq<char> {
    match o.notify {
        None => Seq::empty(),
        Some(NotifyOutcome::Notified) => "; notified "@ + o.to@,
        Some(NotifyOutcome::Deferred) => "; "@ + o.to@
            + " is busy, notification deferred (its hook picks it up at turn end)"@,
        Some(NotifyOutcome::Failed) => "; could not notify "@ + o.to@ + " (pane "@ + o.pane@
            + "): run "@ + o.cmdline@ + " by hand"@,
    }
}

/// What is said of a notification.
pub fn notify_suffix(o: &CancelOutcome) -> (r: String)
    ensures
        r@ == notify_text(*o),
{
    match o.notify {
        None => String::new(),
        Some(NotifyOutcome::Notified) => {
            let mut s = copy_text("; notified ");
            s.append(o.to.as_str());
            s
        },
        Some(NotifyOutcome::Deferred) => {
            let mut s = copy_text("; ");
            s.append(o.to.as_str());
            s.append(" is busy, notification deferred (its hook picks it up at turn end)");
            s
        },
        Some(NotifyOutcome::Failed) => {
            let mut s = copy_text("; could not notify ");
            s.append(o.to.as_str());
            s.append(" (pane ");
            s.append(o.pane.as_str());
            s.append("): run ");
            s.append(o.cmdline.as_str());
            s.append(" by hand");
            s
        },
    }
}

/// A task's full text as it was read.
#[derive(Clone, Debug, PartialEq, Eq)]
pub struct ReadOutcome {
    pub from: String,
    pub to: String,
    pub bytes: Vec<u8>,
}

/// What the background is asked for.
pub enum Req {
    Live,
    Focus { pane: String, label: String },
    Cancel { id: String },
    Read { id: String },
    Copy { payload: String },
}

/// What comes back from the background, but for a round of tmux queries and for a preview.
pub enum Msg {
    Focus { label: String, pane: String, res: Result<(), Error> },
    Cancel { id: String, res: Result<CancelOutcome, Error> },
    Read { id: String, res: Result<ReadOutcome, Error> },
    Copy { res: Result<(), Error> },
    EvictProgress { name: String, line: String, warn: bool },
    Evict { name: String, res: Result<EvictOutcome, Error> },
}

/// What is to be done after a message.
#[derive(Clone, Copy, PartialEq, Eq, Debug, Structural)]
pub enum Follow {
    Nothing,
    /// The session ends.
    Quit,
    /// The disk is read at once: what was done has to be seen in the next frame.
    Reload,
}

/// What a message does.
pub open spec fn message_step(a: AppView, in_popup: bool, msg: Msg) -> (AppView, Follow) {
    match msg {
        Msg::Focus { label, pane, res } => match res {
            Ok(_) => if in_popup {
                (a, Follow::Quit)
            } else {
                (
                    app::says(a, "focused '"@ + label@ + "' ("@ + pane@ + ")"@),
                    Follow::Nothing,
                )
            },
            Err(e) => (app::says(a, e.message@), Follow::Nothing),
        },
        Msg::Cancel { id, res } => (
            app::says(
                a,
                match res {
                    Ok(o) => "cancelled task "@ + id@ + notify_text(o),
                    Err(e) => e.message@,
                },
            ),
            Follow::Reload,
        ),
        Msg::Read { id, res } => match res {
            Ok(o) => (
                AppView {
                    pager: Some(
                        app::PagerView {
                            id: id@,
                            from: o.from@,
                            to: o.to@,
                            bytes: o.bytes@,
                            scroll: 0,
                        },
                    ),
                    message: Seq::empty(),
                    ..a
                },
                Follow::Nothing,
            ),
            Err(e) => (app::says(a, e.message@), Follow::Nothing),
        },
        Msg::Copy { res } => (
            app::says(
                a,
                match res {
                    Ok(_) =>
                        "evidence copied to the tmux buffer (read it back with tmux show-buffer)"@,
                    Err(e) => e.message@,
                },
            ),
            Follow::Nothing,
        ),
        Msg::EvictProgress { name, line, warn } => {
            let t = "evict '"@ + name@ + "': "@ + line@;
            (
                if warn {
                    AppView { warnings: app::warned(a.warnings, t), ..a }
                } else {
                    app::says(a, t)
                },
                Follow::Nothing,
            )
        },
        Msg::Evict { name, res } => {
            let t = action::outcome_text(name@, res);
            let b = if clean(res) {
                app::says(a, t)
            } else {
                AppView { warnings: app::warned(a.warnings, t), ..a }
            };
            (
                AppView { evict_inflight: b.evict_inflight.remove(name@), ..b },
                Follow::Reload,
            )
        },
    }
}

/// Takes a message in. What went wrong with an eviction is a warning, which stays; how it goes
/// on is a message, which the next one replaces.
pub fn on_message(app: &mut App, in_popup: bool, msg: Msg) -> (r: Follow)
    ensures
        final(app)@ == message_step(old(app)@, in_popup, msg).0,
        r == message_step(old(app)@, in_popup, msg).1,
{
    match msg {
        Msg::Focus { label, pane, res } => match res {
            Ok(_) => {
                if in_popup {
                    return Follow::Quit;
                }
                let mut s = copy_text("focused '");
                s.append(label.as_str());
                s.append("' (");
                s.append(pane.as_str());
                s.append(")");
                app.message = s;
                Follow::Nothing
            },
            Err(e) => {
                app.message = e.message;
                Follow::Nothing
            },
        },
        Msg::Cancel { id, res } => {
            app.message = match res {
                Ok(o) => {
                    let mut s = copy_text("cancelled task ");
                    s.append(id.as_str());
                    s.append(notify_suffix(&o).as_str());
                    s
                },
                Err(e) => e.message,
            };
            Follow::Reload
        },
        Msg::Read { id, res } => match res {
            Ok(o) => {
                app.pager = Some(
                    Pager { id, from: o.from, to: o.to, bytes: o.bytes, scroll: 0 },
                );
                app.message = String::new();
                Follow::Nothing
            },
            Err(e) => {
                app.message = e.message;
                Follow::Nothing
            },
        },
        Msg::Copy { res } => {
            app.message = match res {
                Ok(_) => copy_text(
                    "evidence copied to the tmux buffer (read it back with tmux show-buffer)",
                ),
                Err(e) => e.message,
            };
            Follow::Nothing
        },
        Msg::EvictProgress { name, line, warn } => {
            let mut s = copy_text("evict '");
            s.append(name.as_str());
            s.append("': ");
            s.append(line.as_str());
            if warn {
                app.push_warning(s);
            } else {
                app.message = s;
            }
            Follow::Nothing
        },
        Msg::Evict { name, res } => {
            let s = evict_message(name.as_str(), &res);
            if evict_outcome_is_clean(&res) {
                app.message = s;
            } else {
                app.push_warning(s);
            }
            app.evict_inflight.remove(name.as_str());
            Follow::Reload
        },
    }
}

/// No message takes a warning away but for the oldest ones that give way to a new one, and none
/// moves the selection or answers a question.
pub proof fn messages_keep_warnings_and_selection(a: AppView, in_popup: bool, msg: Msg)
    ensures
        ({
            let b = message_step(a, in_popup, msg).0;
            &&& b.row_idx == a.row_idx && b.task_idx == a.task_idx && b.panel == a.panel
            &&& b.row_key == a.row_key && b.task_key == a.task_key
            &&& b.confirm == a.confirm && b.evict_prompt == a.evict_prompt
            &&& b.warnings == a.warnings || exists|w: Seq<char>|
                b.warnings == app::warned(a.warnings, w)
        }),
{
}

/// What is to be done after a key.
pub enum Action {
    Nothing,
    /// The session ends.
    Quit,
    /// The background is asked.
    Send(Req),
    /// The registry is read for the question before an eviction.
    AskEvict { name: String },
    /// The registry is read again, and the eviction started.
    StartEvict { shown: EvictShown },
    /// A preview is captured.
    StartPeek { target: PeekTarget },
}

/// What is to be done after a key, by the effect of the key.
pub open spec fn action_for(e: EffectView, r: Action) -> bool {
    match e {
        EffectView::Nothing | EffectView::Info { .. } => r is Nothing,
        EffectView::Quit => r is Quit,
        EffectView::Focus { pane, label } => r matches Action::Send(
            Req::Focus { pane: p, label: l },
        ) && p@ == pane && l@ == label,
        EffectView::Cancel { id } => r matches Action::Send(Req::Cancel { id: i }) && i@ == id,
        EffectView::Read { id } => r matches Action::Send(Req::Read { id: i }) && i@ == id,
        EffectView::Copy { payload } => r matches Action::Send(Req::Copy { payload: p }) && p@
            == payload,
        EffectView::EvictPrompt { worker } => r matches Action::AskEvict { name } && name@ == worker,
        EffectView::Evict { shown } => r matches Action::StartEvict { shown: s } && s@ == shown,
        EffectView::Peek { target } => r matches Action::StartPeek { target: t } && t@ == target,
    }
}

/// The state after the effect of a key: what is under way is said, and a worker's page is put
/// together at once, from what the screen shows.
pub open spec fn effect_step(
    a: AppView,
    m: Model,
    live: live::LiveView,
    blockers: Option<Map<Seq<char>, Blocker>>,
    e: EffectView,
) -> AppView {
    match e {
        EffectView::Focus { label, .. } => app::says(a, "focus '"@ + label + "' in progress\u{2026}"@),
        EffectView::Cancel { id } => app::says(a, "cancel "@ + id + " in progress\u{2026}"@),
        EffectView::Read { id } => app::says(a, "read "@ + id + " in progress\u{2026}"@),
        EffectView::Copy { .. } => app::says(a, "copying evidence\u{2026}"@),
        EffectView::Info { worker } => AppView {
            info: Some(action::page_of(m, live, blockers, worker)),
            ..a
        },
        _ => a,
    }
}

/// Turns the effect of a key into what is to be done. `live` and `blockers` are what the screen
/// shows: a worker's page must not say live where the screen says unknown.
pub fn on_effect(
    app: &mut App,
    model: &Model,
    live: &LiveIndex,
    blockers: &BlockerIndex,
    effect: Effect,
) -> (r: Action)
    ensures
        final(app)@ == effect_step(old(app)@, *model, live@, blockers@, effect@),
        action_for(effect@, r),
{
    match effect {
        Effect::Nothing => Action::Nothing,
        Effect::Quit => Action::Quit,
        Effect::Focus { pane, label } => {
            app.message = wrapped("focus '", label.as_str(), "' in progress\u{2026}");
            Action::Send(Req::Focus { pane, label })
        },
        Effect::Cancel { id } => {
            app.message = wrapped("cancel ", id.as_str(), " in progress\u{2026}");
            Action::Send(Req::Cancel { id })
        },
        Effect::Read { id } => {
            app.message = wrapped("read ", id.as_str(), " in progress\u{2026}");
            Action::Send(Req::Read { id })
        },
        Effect::Copy { payload } => {
            app.message = copy_text("copying evidence\u{2026}");
            Action::Send(Req::Copy { payload })
        },
        Effect::Info { worker } => {
            app.info = Some(info_page(model, live, blockers, worker.as_str()));
            Action::Nothing
        },
        Effect::EvictPrompt { worker } => Action::AskEvict { name: worker },
        Effect::Evict { shown } => Action::StartEvict { shown },
        Effect::Peek { target } => Action::StartPeek { target },
    }
}

/// The background could not be asked.
pub open spec fn gone(a: AppView) -> AppView {
    app::says(a, "background worker is gone (tmux actions cannot run); quit and reopen"@)
}

/// Says that the background could not be asked. A failure that is said is better than something
/// that is in progress for ever.
pub fn worker_gone(app: &mut App)
    ensures
        final(app)@ == gone(old(app)@),
{
    app.message = copy_text(
        "background worker is gone (tmux actions cannot run); quit and reopen",
    );
}

/// The state after the registry was read for the question before an eviction.
pub open spec fn asked(
    a: AppView,
    name: Seq<char>,
    registry: Result<(String, String), Error>,
) -> AppView {
    match registry {
        Ok((pane, tag)) => {
            let shown = action::EvictShownView { name, pane: pane@, spawn_tag: tag@ };
            AppView {
                evict_prompt: Some(
                    action::EvictPromptView { shown, lines: action::question_lines(shown) },
                ),
                message: Seq::empty(),
                ..a
            }
        },
        Err(e) => app::says(a, e.message@),
    }
}

/// Asks before an eviction, or says why the worker cannot be evicted.
pub fn ask_evict(app: &mut App, name: &str, registry: Result<(String, String), Error>)
    ensures
        final(app)@ == asked(old(app)@, name@, registry),
{
    match evict_prompt(name, registry) {
        Ok(p) => {
            app.evict_prompt = Some(p);
            app.message = String::new();
        },
        Err(e) => {
            app.message = e.message;
        },
    }
}

/// The state after an eviction was confirmed, where it is not started.
pub open spec fn refused(
    a: AppView,
    shown: action::EvictShownView,
    registry: Result<(String, String), Error>,
) -> Option<AppView> {
    if a.evict_inflight.contains(shown.name) {
        Some(app::says(a, "evict of '"@ + shown.name + "' is already in progress"@))
    } else {
        match registry {
            Err(e) => Some(
                AppView {
                    warnings: app::warned(
                        a.warnings,
                        action::gone_message(shown.name, e.message@),
                    ),
                    ..a
                },
            ),
            Ok((pane, tag)) => if pane@ == shown.pane && tag@ == shown.spawn_tag {
                None
            } else {
                Some(
                    AppView {
                        warnings: app::warned(
                            a.warnings,
                            action::changed_message(shown, pane@, tag@),
                        ),
                        ..a
                    },
                )
            },
        }
    }
}

/// The eviction to be started after a confirmation. `registry` is what the registry says now.
/// None is started where one is running for the worker, or where what was shown is no longer
/// there; that is a warning, which stays.
pub fn confirm_evict(
    app: &mut App,
    shown: &EvictShown,
    registry: Result<(String, String), Error>,
) -> (r: Option<EvictRequest>)
    ensures
        match refused(old(app)@, shown@, registry) {
            Some(b) => r is None && final(app)@ == b,
            None => r matches Some(req) && action::names_generation(req, shown@) && final(app)@
                == old(app)@,
        },
{
    if app.evict_inflight.contains(shown.name.as_str()) {
        app.message = wrapped("evict of '", shown.name.as_str(), "' is already in progress");
        return None;
    }
    match evict_request(shown, registry) {
        Ok(req) => Some(req),
        Err(e) => {
            app.push_warning(e.message);
            None
        },
    }
}

/// The state after the thread of an eviction was started, or could not be.
pub open spec fn evict_begun(a: AppView, name: Seq<char>, cmdline: Seq<char>, started: bool) -> AppView {
    if started {
        AppView {
            evict_inflight: a.evict_inflight.insert(name),
            message: "evict '"@ + name + "' in progress\u{2026} (wrap-up task, then reclaim)"@,
            ..a
        }
    } else {
        AppView {
            warnings: app::warned(
                a.warnings,
                "evict '"@ + name
                    + "' could not start (background worker failed to spawn); run it from the CLI instead: "@
                    + cmdline,
            ),
            ..a
        }
    }
}

/// Takes up that the thread of an eviction was started, or could not be. Only in the first case
/// is the eviction running: there is no other message that would end it.
pub fn evict_started(app: &mut App, name: &str, cmdline: &str, started: bool)
    ensures
        final(app)@ == evict_begun(old(app)@, name@, cmdline@, started),
{
    if started {
        app.evict_inflight.insert(copy_text(name));
        app.message = wrapped(
            "evict '",
            name,
            "' in progress\u{2026} (wrap-up task, then reclaim)",
        );
    } else {
        let mut s = wrapped(
            "evict '",
            name,
            "' could not start (background worker failed to spawn); run it from the CLI instead: ",
        );
        s.append(cmdline);
        app.push_warning(s);
    }
}

/// The state after the thread of a preview was started, or could not be.
pub open spec fn peek_begun(a: AppView, target: app::PeekTargetView, started: bool) -> AppView {
    if started {
        AppView {
            peek_inflight: Some(target),
            message: "preview of '"@ + target.name + "' in progress\u{2026}"@,
            ..a
        }
    } else {
        AppView {
            peek_inflight: None,
            message: "preview of '"@ + target.name
                + "' could not start (background worker failed to spawn)"@,
            ..a
        }
    }
}

/// Takes up that the thread of a preview was started, or could not be.
pub fn peek_started(app: &mut App, target: PeekTarget, started: bool)
    ensures
        final(app)@ == peek_begun(old(app)@, target@, started),
{
    if started {
        app.message = wrapped("preview of '", target.name.as_str(), "' in progress\u{2026}");
        app.peek_inflight = Some(target);
    } else {
        app.message = wrapped(
            "preview of '",
            target.name.as_str(),
            "' could not start (background worker failed to spawn)",
        );
        app.peek_inflight = None;
    }
}

/// A worker is never evicted twice at a time: while an eviction runs, neither the key nor a
/// confirmation starts another, and only its end lets one start again.
pub proof fn evictions_do_not_overlap(
    a: AppView,
    shown: action::EvictShownView,
    registry: Result<(String, String), Error>,
    cmdline: Seq<char>,
)
    ensures
        a.evict_inflight.contains(shown.name) ==> refused(a, shown, registry) is Some,
        evict_begun(a, shown.name, cmdline, true).evict_inflight.contains(shown.name),
        evict_begun(a, shown.name, cmdline, false).evict_inflight == a.evict_inflight,
{
}

/// What was confirmed is what is evicted: where anything but the shown generation is there, no
/// eviction is started, and a warning says so.
pub proof fn only_the_shown_generation_is_evicted(
    a: AppView,
    shown: action::EvictShownView,
    registry: Result<(String, String), Error>,
)
    requires
        match registry {
            Ok((pane, tag)) => pane@ != shown.pane || tag@ != shown.spawn_tag,
            Err(_) => true,
        },
        !a.evict_inflight.contains(shown.name),
    ensures
        refused(a, shown, registry) matches Some(b) && b.warnings.len() > 0,
{
}

/// The session that a label of the form `session:@window` names.
pub open spec fn session_name(owner: Seq<char>) -> Option<Seq<char>> {
    let i = text::last_at(owner, ':');
    if i < 0 {
        None
    } else {
        Some(owner.take(i))
    }
}

/// The session that a label of the form `session:@window` names.
pub fn session_of_owner(owner: &str) -> (r: Option<String>)
    ensures
        lineage::opt_text(r) == session_name(owner@),
{
    let v = to_chars(owner);
    proof {
        assert(v@.take(v@.len() as int) =~= owner@);
    }
    match last_index(&v, v.len(), ':') {
        Some(i) => {
            proof {
                assert(v@.subrange(0, i as int) =~= owner@.take(i as int));
            }
            Some(from_chars(&v, 0, i))
        },
        None => None,
    }
}

/// Whether an answer of tmux names a session and a window.
pub fn names_a_window(answer: &str) -> (r: bool)
    ensures
        r == text::contains(answer@, ":@"@),
{
    contains_text(answer, ":@")
}

/// The panes of the first `n` workers.
pub open spec fn panes_upto(ws: Seq<AgentSnapshot>, n: int) -> Seq<Seq<char>>
    decreases n,
{
    if n <= 0 {
        Seq::empty()
    } else if ws[n - 1].pane@.len() > 0 {
        panes_upto(ws, n - 1).push(ws[n - 1].pane@)
    } else {
        panes_upto(ws, n - 1)
    }
}

/// The panes that a round asks about: those of the workers that have one.
pub fn panes_to_probe(workers: &Vec<AgentSnapshot>) -> (r: Vec<String>)
    ensures
        text::texts(r@) == panes_upto(workers@, workers@.len() as int),
{
    let mut r: Vec<String> = Vec::new();
    let mut i: usize = 0;
    proof {
        assert(text::texts(r@) =~= Seq::empty());
    }
    while i < workers.len()
        invariant
            i <= workers@.len(),
            text::texts(r@) == panes_upto(workers@, i as int),
        decreases workers@.len() - i,
    {
        let p = workers[i].pane.as_str();
        if !p.is_empty() {
            let t = copy_text(p);
            proof {
                text::lemma_texts_push(r@, t);
            }
            r.push(t);
        }
        i += 1;
    }
    r
}

/// A session of the dashboard.
pub struct Session {
    pub model: Model,
    pub sums: Summaries,
    pub live: LiveIndex,
    pub blockers: BlockerIndex,
    pub snippets: Snippets,
    pub debounce: BlockerDebounce,
    pub app: App,
    pub stamps: Stamps,
    /// When the disk was last read.
    pub last_disk: u64,
    /// When tmux was last asked.
    pub last_live: u64,
    /// tmux was asked and has not answered.
    pub live_inflight: bool,
    /// What is known of tmux is too old to be shown.
    pub degraded: bool,
    /// The dashboard stands in a popup that closes with it.
    pub in_popup: bool,
}

/// What is known of the panes when nothing is.
pub open spec fn nothing_known() -> live::LiveView {
    live::LiveView { panes: None, windows: None, panes_at: None }
}

impl Session {
    /// Whether the reading is in order.
    pub open spec fn wf(self) -> bool {
        self.model.wf()
    }

    /// What is shown of the panes.
    pub open spec fn live_shown(self) -> live::LiveView {
        if self.degraded {
            nothing_known()
        } else {
            self.live@
        }
    }

    /// What is shown of the blockers.
    pub open spec fn blockers_shown(self) -> Option<Map<Seq<char>, Blocker>> {
        if self.degraded {
            None
        } else {
            self.blockers@
        }
    }

    /// Whether nothing but these has changed: the reading, the state of the dashboard, and when
    /// the disk was read.
    pub open spec fn reread(self, before: Session, now: u64) -> bool {
        &&& self.live == before.live
        &&& self.blockers == before.blockers
        &&& self.snippets == before.snippets
        &&& self.debounce == before.debounce
        &&& self.stamps == (Stamps { disk: now, ..before.stamps })
        &&& self.last_disk == now
        &&& self.last_live == before.last_live
        &&& self.live_inflight == before.live_inflight
        &&& self.degraded == before.degraded
        &&& self.in_popup == before.in_popup
    }

    /// A session at its start: the disk was read, and tmux was asked and has not answered.
    pub fn new(model: Model, sums: Summaries, now: u64, in_popup: bool) -> (r: Self)
        requires
            model.wf(),
        ensures
            r.wf(),
            r.model == model,
            r.sums == sums,
            r.live@ == nothing_known(),
            r.blockers@ is None,
            r.snippets@ == Map::<Seq<char>, Vec<String>>::empty(),
            r.debounce@ == Map::<Seq<char>, u32>::empty(),
            r.app@ == app::at_start(),
            r.stamps == (Stamps { disk: now, tmux: None }),
            r.last_disk == now,
            r.last_live == now,
            r.live_inflight,
            !r.degraded,
            r.in_popup == in_popup,
    {
        Session {
            model,
            sums,
            live: LiveIndex::unknown(),
            blockers: BlockerIndex::unknown(),
            snippets: Snippets::default(),
            debounce: BlockerDebounce::new(),
            app: App::new(),
            stamps: Stamps::new(now),
            last_disk: now,
            last_live: now,
            live_inflight: true,
            degraded: false,
            in_popup,
        }
    }

    /// Begins a frame: tells how old everything is, and whether what is known of tmux can still
    /// be shown. In the frame in which that changes the groups are put in order by what is
    /// shown from then on, and the prompts that are no longer shown are dropped.
    pub fn begin_frame(&mut self, now: u64) -> (r: Freshness)
        requires
            old(self).wf(),
        ensures
            r == old(self).stamps.ages(now),
            final(self).wf(),
            final(self).degraded == r.stale(),
            final(self).debounce@ == (if r.stale() {
                Map::<Seq<char>, u32>::empty()
            } else {
                old(self).debounce@
            }),
            final(self).degraded == old(self).degraded ==> final(self).model == old(self).model
                && final(self).app@ == old(self).app@ && final(self).snippets@ == old(
                self,
            ).snippets@,
            final(self).degraded != old(self).degraded ==> in_order(
                old(self).model,
                final(self).model,
                final(self).live_shown(),
                final(self).blockers_shown(),
            ) && final(self).app@ == app::relocated(old(self).app@, final(self).model)
                && final(self).snippets@ == blocker::kept(
                old(self).snippets@,
                final(self).blockers_shown(),
            ),
            final(self).live == old(self).live,
            final(self).blockers == old(self).blockers,
            final(self).sums == old(self).sums,
            final(self).stamps == old(self).stamps,
            final(self).last_disk == old(self).last_disk,
            final(self).last_live == old(self).last_live,
            final(self).live_inflight == old(self).live_inflight,
            final(self).in_popup == old(self).in_popup,
    {
        let fresh = self.stamps.freshness(now);
        let degraded = degrade_on_stale(fresh, &mut self.debounce);
        if degraded != self.degraded {
            self.degraded = degraded;
            let no_live = LiveIndex::unknown();
            let no_blockers = BlockerIndex::unknown();
            let none: TextMap<Vec<String>> = TextMap::new();
            let ghost before = self.snippets@;
            if degraded {
                retriage(&mut self.model, &no_live, &no_blockers, &mut self.app);
                self.snippets.apply(none, &no_blockers);
            } else {
                retriage(&mut self.model, &self.live, &self.blockers, &mut self.app);
                self.snippets.apply(none, &self.blockers);
            }
            proof {
                assert(before.union_prefer_right(Map::<Seq<char>, Vec<String>>::empty()) =~= before);
            }
        }
        fresh
    }

    /// Takes a round of tmux queries in, and puts the groups in order by it.
    pub fn on_live(&mut self, l: LiveIndex, b: BlockerIndex, s: TextMap<Vec<String>>)
        requires
            old(self).wf(),
        ensures
            final(self).wf(),
            final(self).live == l,
            final(self).blockers@ == blocker::shown(old(self).debounce@, b@),
            final(self).debounce@ == blocker::next_streak(old(self).debounce@, b@),
            final(self).snippets@ == blocker::kept(
                old(self).snippets@.union_prefer_right(s@),
                final(self).blockers@,
            ),
            final(self).stamps == old(self).stamps.noted(l@.observed()),
            in_order(old(self).model, final(self).model, l@, final(self).blockers@),
            final(self).app@ == app::relocated(old(self).app@, final(self).model),
            !final(self).live_inflight,
            final(self).sums == old(self).sums,
            final(self).last_disk == old(self).last_disk,
            final(self).last_live == old(self).last_live,
            final(self).degraded == old(self).degraded,
            final(self).in_popup == old(self).in_popup,
    {
        self.stamps.note_live(&l);
        apply_live(
            &mut self.live,
            &mut self.blockers,
            &mut self.debounce,
            &mut self.snippets,
            l,
            b,
            s,
        );
        retriage(&mut self.model, &self.live, &self.blockers, &mut self.app);
        self.live_inflight = false;
    }

    /// Takes a reading of the disk in: first the reading, then the summaries of its tasks, then
    /// the order of its groups by what is shown, then the selection. Each needs the one before.
    pub fn refresh_disk(&mut self, fresh: Model, reads: &Vec<SummaryRead>, now: u64)
        requires
            fresh.wf(),
        ensures
            final(self).wf(),
            in_order(
                fresh,
                final(self).model,
                old(self).live_shown(),
                old(self).blockers_shown(),
            ),
            final(self).sums@.first == model::synced(old(self).sums@, fresh, reads@).first,
            final(self).sums@.events == model::synced(old(self).sums@, fresh, reads@).events,
            final(self).app@ == app::relocated(old(self).app@, final(self).model),
            final(self).reread(*old(self), now),
    {
        self.model = fresh;
        self.sums.sync(&self.model, reads);
        let no_live = LiveIndex::unknown();
        let no_blockers = BlockerIndex::unknown();
        if self.degraded {
            retriage(&mut self.model, &no_live, &no_blockers, &mut self.app);
        } else {
            retriage(&mut self.model, &self.live, &self.blockers, &mut self.app);
        }
        self.last_disk = now;
        self.stamps.note_disk(now);
    }

    /// Takes a preview in that has arrived, together with a reading of this moment.
    pub fn on_peek(
        &mut self,
        fresh: Model,
        reads: &Vec<SummaryRead>,
        target: &PeekTarget,
        res: Option<TailCapture>,
        now: u64,
    )
        requires
            fresh.wf(),
        ensures
            final(self).wf(),
            final(self).model == fresh,
            final(self).sums@.first == model::synced(old(self).sums@, fresh, reads@).first,
            final(self).sums@.events == model::synced(old(self).sums@, fresh, reads@).events,
            final(self).app@ == app::peeked(
                app::relocated(old(self).app@, fresh),
                fresh,
                target@,
                res,
            ),
            final(self).reread(*old(self), now),
    {
        peek_arrival(&mut self.app, &mut self.model, fresh, target, res);
        self.sums.sync(&self.model, reads);
        self.last_disk = now;
        self.stamps.note_disk(now);
    }

    /// Handles a key. What a worker's page shows of the panes is what the screen shows at this
    /// moment.
    pub fn on_key(&mut self, key: Key, now: u64) -> (r: Action)
        requires
            old(self).wf(),
        ensures
            final(self).wf(),
            ({
                let (a, e) = app::pressed(old(self).app@, old(self).model, key);
                let stale = old(self).stamps.ages(now).stale();
                &&& action_for(e, r)
                &&& final(self).app@ == effect_step(
                    a,
                    old(self).model,
                    if stale {
                        nothing_known()
                    } else {
                        old(self).live@
                    },
                    if stale {
                        None
                    } else {
                        old(self).blockers@
                    },
                    e,
                )
            }),
            final(self).model == old(self).model,
            final(self).sums == old(self).sums,
            final(self).live == old(self).live,
            final(self).blockers == old(self).blockers,
            final(self).snippets == old(self).snippets,
            final(self).debounce == old(self).debounce,
            final(self).stamps == old(self).stamps,
            final(self).last_disk == old(self).last_disk,
            final(self).last_live == old(self).last_live,
            final(self).live_inflight == old(self).live_inflight,
            final(self).degraded == old(self).degraded,
            final(self).in_popup == old(self).in_popup,
    {
        let effect = handle_key(&mut self.app, &self.model, key);
        let no_live = LiveIndex::unknown();
        let no_blockers = BlockerIndex::unknown();
        if self.stamps.freshness(now).tmux_stale() {
            on_effect(&mut self.app, &self.model, &no_live, &no_blockers, effect)
        } else {
            on_effect(&mut self.app, &self.model, &self.live, &self.blockers, effect)
        }
    }

    /// Whether the disk is to be read.
    pub fn disk_due(&self, now: u64) -> (r: bool)
        ensures
            r == (since(self.last_disk, now) >= DISK_POLL),
    {
        elapsed(self.last_disk, now) >= DISK_POLL
    }

    /// Whether tmux is to be asked. It is not asked again before it has answered: a background
    /// that hangs must not have requests pile up before it.
    pub fn live_due(&self, now: u64) -> (r: bool)
        ensures
            r == (!self.live_inflight && since(self.last_live, now) >= LIVE_POLL),
    {
        !self.live_inflight && elapsed(self.last_live, now) >= LIVE_POLL
    }

    /// tmux was asked, or could not be.
    pub fn live_sent(&mut self, sent: bool, now: u64)
        ensures
            *final(self) == (Session { live_inflight: sent, last_live: now, ..*old(self) }),
    {
        self.live_inflight = sent;
        self.last_live = now;
    }
}

} // verus!
