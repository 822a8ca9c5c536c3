//! What the pages over the panels show, and what the commands that they lead to say.

use crate::action;
use crate::action::{
    DespawnResult, Error, EvictOutcome, EvictRequest, EvictShownView, TailCapture, TmuxStepView,
};
use crate::app;
use crate::app::SelView;
use crate::blocker::Blocker;
use crate::live;
use crate::model;
use crate::model::Model;
use crate::registry::{AgentSnapshot, InFlight};
use crate::text;
use vstd::prelude::*;

verus! {

/// A preview shows every line of the capture without the blanks at its end, in order, up to the
/// last line that is not blank; where all are blank, one line says that there is no output. Its
/// heading names the worker and the pane.
pub proof fn what_a_preview_shows(target: app::PeekTargetView, cap: TailCapture)
    ensures
        ({
            let ls = text::text_lines(cap.text@);
            let v = action::preview_of(target, cap);
            &&& v.title == "tail preview \u{2014} "@ + target.name + " ("@ + target.pane + ")"@
            &&& v.truncated == cap.truncated
            &&& forall|k: int|
                #![trigger ls[k]]
                0 <= k < ls.len() && text::trim_end(ls[k]).len() > 0 && (forall|j: int|
                    k < j < ls.len() ==> text::trim_end(#[trigger] ls[j]).len() == 0)
                    ==> v.lines.len() == k + 1 && forall|i: int|
                    0 <= i <= k ==> #[trigger] v.lines[i] == text::trim_end(ls[i])
            &&& (forall|j: int| 0 <= j < ls.len() ==> text::trim_end(#[trigger] ls[j]).len() == 0)
                ==> v.lines == seq!["(the pane has produced no output)"@]
        }),
{
    let ls = text::text_lines(cap.text@);
    let all = ls.map_values(|l: Seq<char>| text::trim_end(l));
    let kept = action::without_blank_end(all);
    lemma_blank_end(all);
    if kept.len() > 0 {
        let k = kept.len() - 1;
        assert(kept[k] == all[k]);
        assert(text::trim_end(ls[k]).len() > 0);
    }
    assert forall|k: int|
        #![trigger ls[k]]
        0 <= k < ls.len() && text::trim_end(ls[k]).len() > 0 && (forall|j: int|
            k < j < ls.len() ==> text::trim_end(#[trigger] ls[j]).len() == 0) implies kept.len() == k
        + 1 && forall|i: int|
        0 <= i <= k ==> #[trigger] action::preview_of(target, cap).lines[i] == text::trim_end(
            ls[i],
        ) by {
        if kept.len() <= k {
            assert(all[k].len() == 0);
        } else if kept.len() > k + 1 {
            assert(text::trim_end(ls[kept.len() - 1]).len() == 0);
        }
    }
}

/// What is left without the empty lines at the end.
proof fn lemma_blank_end(s: Seq<Seq<char>>)
    ensures
        ({
            let t = action::without_blank_end(s);
            &&& t.len() <= s.len()
            &&& t == s.take(t.len() as int)
            &&& t.len() > 0 ==> t.last().len() > 0
            &&& forall|i: int| t.len() <= i < s.len() ==> (#[trigger] s[i]).len() == 0
        }),
    decreases s.len(),
{
    if s.len() > 0 && s.last().len() == 0 {
        let d = s.drop_last();
        lemma_blank_end(d);
        let t = action::without_blank_end(s);
        assert(t =~= s.take(t.len() as int));
        assert forall|i: int| t.len() <= i < s.len() implies (#[trigger] s[i]).len() == 0 by {
            if i < s.len() - 1 {
                assert(s[i] == d[i]);
            }
        }
    } else {
        assert(s =~= s.take(s.len() as int));
    }
}

/// The full text of a task stands between three lines that name the task, its sender and its
/// recipient, and a word on the keys; every line of it is there, in order.
pub proof fn what_the_pager_shows(p: app::PagerView)
    ensures
        ({
            let body = text::text_lines(text::lossy(p.bytes));
            let t = action::pager_text(p);
            &&& t.len() == 6 + body.len()
            &&& t[0] == "task-id: "@ + p.id
            &&& t[1] == "from: "@ + p.from
            &&& t[2] == "to: "@ + p.to
            &&& t[3] == "\u{2500}\u{2500}\u{2500}\u{2500}\u{2500}\u{2500}\u{2500}\u{2500}"@
            &&& forall|i: int| 0 <= i < body.len() ==> #[trigger] t[4 + i] == body[i]
            &&& t[4 + body.len() as int].len() == 0
            &&& t.last()
                == "j/k (\u{2193}\u{2191}) scroll \u{b7} PgUp/PgDn page \u{b7} Home/End ends \u{b7} Esc/q close"@
        }),
{
}

/// A text, or a dash where it is empty.
pub open spec fn shown_or_dash(s: Seq<char>) -> Seq<char> {
    if s.len() == 0 {
        "-"@
    } else {
        s
    }
}

/// The evidence of a worker is its pane and the command that lists the workers; that of a task is
/// its id, the pane of its worker where it has one, and the commands that read the task and its
/// state.
pub proof fn what_the_evidence_is(w: AgentSnapshot, t: InFlight)
    ensures
        action::evidence_of(SelView::Nothing).len() == 0,
        action::evidence_of(SelView::Worker(w)) == seq![
            "pane: "@ + shown_or_dash(w.pane@),
            "agent-bridge list --long"@,
        ],
        action::evidence_of(SelView::Task { task: t, worker: None }) == seq![
            "task-id: "@ + t.id@,
            "agent-bridge read "@ + t.id@,
            "agent-bridge status "@ + t.id@,
        ],
        action::evidence_of(SelView::Task { task: t, worker: Some(w) }) == (if w.pane@.len() == 0 {
            seq![
                "task-id: "@ + t.id@,
                "agent-bridge read "@ + t.id@,
                "agent-bridge status "@ + t.id@,
            ]
        } else {
            seq![
                "task-id: "@ + t.id@,
                "pane: "@ + w.pane@,
                "agent-bridge read "@ + t.id@,
                "agent-bridge status "@ + t.id@,
            ]
        }),
{
}

/// What is copied is the evidence, each line ended by a line break.
pub proof fn what_is_copied(sel: SelView)
    ensures
        ({
            let ls = action::evidence_of(sel);
            let p = action::payload_of(sel);
            &&& ls.len() == 2 ==> p == ls[0] + seq!['\n'] + ls[1] + seq!['\n']
            &&& ls.len() == 3 ==> p == ls[0] + seq!['\n'] + ls[1] + seq!['\n'] + ls[2] + seq!['\n']
            &&& ls.len() == 4 ==> p == ls[0] + seq!['\n'] + ls[1] + seq!['\n'] + ls[2] + seq!['\n']
                + ls[3] + seq!['\n']
        }),
{
    let ls = action::evidence_of(sel);
    reveal_strlit("\n");
    assert("\n"@ =~= seq!['\n']);
    reveal_with_fuel(text::join, 5);
}

/// The worker of a name is the first of the list that has it.
pub proof fn which_worker_a_name_means(ws: Seq<AgentSnapshot>, name: Seq<char>, from: int)
    requires
        0 <= from <= ws.len(),
    ensures
        match action::first_named(ws, name, from) {
            Some(i) => from <= i < ws.len() && ws[i].name@ == name && forall|j: int|
                from <= j < i ==> (#[trigger] ws[j]).name@ != name,
            None => forall|j: int| from <= j < ws.len() ==> (#[trigger] ws[j]).name@ != name,
        },
    decreases ws.len() - from,
{
    if from < ws.len() && ws[from].name@ != name {
        which_worker_a_name_means(ws, name, from + 1);
    }
}

/// The tasks on a worker's page: those that belong to it, in order, each with its state.
pub proof fn which_tasks_a_page_names(ts: Seq<InFlight>, w: AgentSnapshot, n: int)
    requires
        0 <= n <= ts.len(),
    ensures
        action::page_tasks_upto(ts, w, n) == model::tasks_upto(ts, w, n).map_values(
            |i: int| "  "@ + ts[i].id@ + "  "@ + ts[i].status@,
        ),
    decreases n,
{
    if n > 0 {
        which_tasks_a_page_names(ts, w, n - 1);
    }
    assert(action::page_tasks_upto(ts, w, n) =~= model::tasks_upto(ts, w, n).map_values(
        |i: int| "  "@ + ts[i].id@ + "  "@ + ts[i].status@,
    ));
}

/// A worker's page: what the registry says of it, what is known of its pane, its unfinished tasks,
/// and its evidence. Of a worker that is gone it says so.
pub proof fn what_a_page_shows(
    m: Model,
    live: live::LiveView,
    blockers: Option<Map<Seq<char>, Blocker>>,
    name: Seq<char>,
)
    ensures
        match action::first_named(m.workers@, name, 0) {
            None => action::page_of(m, live, blockers, name) == seq![
                "'"@ + name + "' is gone from the registry"@,
            ],
            Some(i) => {
                let w = m.workers@[i];
                let ts = model::tasks_upto(m.tasks@, w, m.tasks@.len() as int);
                let n = if ts.len() == 0 {
                    1
                } else {
                    ts.len() as int
                };
                let p = action::page_of(m, live, blockers, name);
                &&& p.len() == 17 + n
                &&& p[0] == "name         : "@ + w.name@
                &&& p[1] == "pane         : "@ + shown_or_dash(w.pane@)
                &&& p[2] == "runtime      : "@ + shown_or_dash(w.runtime@)
                &&& p[3] == "owner        : "@ + shown_or_dash(w.owner@)
                &&& p[4] == "ready        : "@ + shown_or_dash(w.ready@)
                &&& p[5] == "spawn_tag    : "@ + shown_or_dash(w.spawn_tag@)
                &&& p[6] == "registered_at: "@ + shown_or_dash(w.registered_at@)
                &&& p[7] == "liveness     : "@ + (if live.panes is None || w.pane@.len() == 0 {
                    "unknown"@
                } else if (live.panes->0).dom().contains(w.pane@) {
                    "live"@
                } else {
                    "dead"@
                })
                &&& p[8] == "blocker      : "@ + (if blockers is None
                    || !(blockers->0).dom().contains(w.pane@) {
                    "unknown"@
                } else {
                    match (blockers->0)[w.pane@] {
                        Blocker::Nothing => "none"@,
                        Blocker::Prompt => "permission/plan prompt (blocked)"@,
                        Blocker::Occluded => "occluded (copy-mode)"@,
                        Blocker::Unknown => "unknown"@,
                    }
                })
                &&& p[9].len() == 0
                &&& p[10] == "in-flight tasks:"@
                &&& ts.len() == 0 ==> p[11] == "  (none)"@
                &&& forall|k: int|
                    #![trigger ts[k]]
                    0 <= k < ts.len() ==> p[11 + k] == "  "@ + m.tasks@[ts[k]].id@ + "  "@
                        + m.tasks@[ts[k]].status@
                &&& p[11 + n].len() == 0
                &&& p[12 + n] == "evidence:"@
                &&& p[13 + n] == "  "@ + ("pane: "@ + shown_or_dash(w.pane@))
                &&& p[14 + n] == "  "@ + "agent-bridge list --long"@
                &&& p[15 + n].len() == 0
                &&& p[16 + n] == "press any key to close"@
            },
        },
{
    if let Some(i) = action::first_named(m.workers@, name, 0) {
        let w = m.workers@[i];
        which_tasks_a_page_names(m.tasks@, w, m.tasks@.len() as int);
    }
}

/// The command that stands for an eviction names the worker and, where they are known, the pane
/// and the generation that it has to be.
pub proof fn what_an_eviction_says(req: EvictRequest)
    ensures
        req.command() == (match (req.expect_pane, req.expect_generation) {
            (Some(p), Some(g)) => "agent-bridge evict "@ + req.name@ + (" --expect-pane "@ + p@) + (
            " --expect-generation "@ + g@),
            (Some(p), None) => "agent-bridge evict "@ + req.name@ + (" --expect-pane "@ + p@)
                + Seq::empty(),
            (None, Some(g)) => "agent-bridge evict "@ + req.name@ + Seq::empty() + (
            " --expect-generation "@ + g@),
            (None, None) => "agent-bridge evict "@ + req.name@ + Seq::empty() + Seq::empty(),
        }),
        action::confirm_lines(req).len() == 9,
        action::confirm_lines(req)[0] == "worker '"@ + req.name@ + "': wrap-up task, then reclaim"@,
        action::confirm_lines(req)[4] == "pane      : "@ + (match req.expect_pane {
            Some(p) => p@,
            None => "-"@,
        }),
        action::confirm_lines(req)[5] == "generation: "@ + (match req.expect_generation {
            Some(g) => g@,
            None => "-"@,
        }),
        action::confirm_lines(req)[7] == "$ "@ + req.command(),
        action::confirm_lines(req)[8] == "[y/Enter] run \u{b7} [n/Esc] abort"@,
{
}

/// The question before an eviction names the worker, its pane and its generation, and shows the
/// command that a yes stands for.
pub proof fn what_the_question_says(shown: EvictShownView, req: EvictRequest)
    requires
        req.name@ == shown.name,
        req.expect_pane matches Some(p) && p@ == shown.pane,
        req.expect_generation matches Some(g) && g@ == shown.spawn_tag,
    ensures
        action::names_generation(req, shown),
        action::question_lines(shown) == action::confirm_lines(req),
        action::question_lines(shown)[7] == "$ "@ + req.command(),
{
}

/// What an eviction came to, in words: the error; that the pane was another generation's and was
/// left; that the notes are there; that they did not land.
pub proof fn what_is_said_of_an_eviction(name: Seq<char>, e: Error, o: EvictOutcome)
    ensures
        action::outcome_text(name, Err(e)) == e.message@,
        action::outcome_text(name, Ok(o)) == (if o.despawn == DespawnResult::Stale {
            "registration of agent '"@ + name + "' was cleared, but pane "@ + o.pane@
                + " was NOT reclaimed; judge the wrap-up task "@ + o.task_id@ + " ("@
                + o.final_status@ + ") yourself"@
        } else if o.audit@ == "evicted"@ {
            "evicted '"@ + name + "'; wrap-up notes are available: agent-bridge read "@ + o.task_id@
        } else if o.audit@ == "evicted-unfinished"@ {
            "reclaimed '"@ + name + "', but the wrap-up task "@ + o.task_id@ + " ended as "@
                + o.final_status@ + "; notes did not land"@
        } else {
            "reclaimed '"@ + name + "', but the wrap-up task "@ + o.task_id@
                + " timed out; notes did not land"@
        }),
{
}

/// A pane is brought to the front by showing its window and then itself, and before that by
/// changing to its session where the plan says so.
pub proof fn what_brings_a_pane_to_the_front(plan: live::FocusPlanView, pane: Seq<char>)
    ensures
        ({
            let steps = action::focus_steps(plan, pane);
            let n = steps.len() as int;
            &&& plan.switch_to is None ==> n == 2
            &&& plan.switch_to matches Some(sess) ==> n == 3 && steps[0].args == seq![
                "switch-client"@,
                "-t"@,
                sess,
            ] && steps[0].failure == "switch-client failed (target session: "@ + sess + ")"@
            &&& steps[n - 2].args == seq!["select-window"@, "-t"@, plan.window]
            &&& steps[n - 2].failure == "select-window"@ + " failed (target: "@ + plan.window + ")"@
            &&& steps[n - 1].args == seq!["select-pane"@, "-t"@, pane]
            &&& steps[n - 1].failure == "select-pane"@ + " failed (target: "@ + pane + ")"@
        }),
        action::buffer_step(pane) == (TmuxStepView {
            args: seq!["set-buffer"@, pane],
            failure: "copy failed: tmux set-buffer unavailable (tmux missing or timed out)"@,
        }),
{
}

/// A pane cannot be brought to the front where there is none, and where tmux does not say that it
/// is anywhere.
pub proof fn when_a_pane_cannot_be_reached(
    live: live::LiveView,
    pane: Seq<char>,
    session: Option<Seq<char>>,
)
    ensures
        ({
            let known = live.panes matches Some(m) && m.dom().contains(pane) && m[pane].len() > 0;
            action::focus_refusal(live, pane, session) == (if pane.len() == 0 {
                Some("this row has no pane id to focus (registry has no pane_id)"@)
            } else if !known {
                Some("cannot locate pane "@ + pane + " (it is gone, or the tmux query failed)"@)
            } else {
                None
            })
        }),
{
}

/// The lines of the question that say what an eviction is.
pub proof fn what_an_eviction_is(req: EvictRequest)
    ensures
        ({
            let v = action::confirm_lines(req);
            &&& v[1] == "  first dispatch one wrap-up task so it can write down the facts"@
            &&& v[2] == "  that exist only in its context; the pane is reclaimed only after"@
            &&& v[3] == "  those notes land (or time out). Notes stay in tasks/ to re-read."@
            &&& v[6] == "Confirm to run the equivalent CLI:"@
        }),
{
}

/// The places of a pane are those that tmux listed for that very pane.
pub proof fn where_a_pane_was_listed(l: live::LiveView, pane: Seq<char>)
    ensures
        l.panes is None ==> action::places_of(l, pane) is None,
        l.panes matches Some(m) ==> action::places_of(l, pane) == (if m.dom().contains(pane) {
            Some(m[pane])
        } else {
            None
        }),
{
}

} // verus!
