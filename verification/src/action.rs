//! What the actions of the dashboard say and do. Every one stands for a command of the command
//! line.

use crate::app;
use crate::app::{PeekTarget, PeekView, Pager, Sel};
use crate::blocker;
use crate::blocker::{Blocker, BlockerIndex};
use crate::lineage;
use crate::live;
use crate::live::{focus_plan, pane_liveness, FocusPlan, LiveIndex, Liveness};
use crate::model::Model;
use crate::registry;
use crate::registry::{attached, AgentSnapshot, InFlight};
use crate::text;
use crate::text::{
    copy_text, from_chars, from_utf8_lossy, join_texts, lines, same, to_chars, wrapped,
};
use vstd::prelude::*;
use vstd::string::*;

verus! {

/// Why something could not be done.
#[derive(Clone, Debug, PartialEq, Eq)]
pub struct Error {
    pub message: String,
}

impl Error {
    /// An error with a message.
    pub fn new(message: String) -> (r: Self)
        ensures
            r.message == message,
    {
        Error { message }
    }
}

/// Appends a line.
fn push_line(v: &mut Vec<String>, s: String)
    ensures
        text::texts(final(v)@) == text::texts(old(v)@).push(s@),
{
    proof {
        text::lemma_texts_push(v@, s);
    }
    v.push(s);
}

/// A text with another in front of it.
fn prefixed(a: &str, b: &str) -> (r: String)
    ensures
        r@ == a@ + b@,
{
    let mut s = copy_text(a);
    s.append(b);
    s
}

/// The lines in front of a task's text.
pub open spec fn pager_head(p: app::PagerView) -> Seq<Seq<char>> {
    seq![
        "task-id: "@ + p.id,
        "from: "@ + p.from,
        "to: "@ + p.to,
        "\u{2500}\u{2500}\u{2500}\u{2500}\u{2500}\u{2500}\u{2500}\u{2500}"@,
    ]
}

/// The lines below a task's text.
pub open spec fn pager_foot() -> Seq<Seq<char>> {
    seq![
        Seq::<char>::empty(),
        "j/k (\u{2193}\u{2191}) scroll \u{b7} PgUp/PgDn page \u{b7} Home/End ends \u{b7} Esc/q close"@,
    ]
}

/// The full text of a task as it is shown.
pub open spec fn pager_text(p: app::PagerView) -> Seq<Seq<char>> {
    pager_head(p) + text::text_lines(text::lossy(p.bytes)) + pager_foot()
}

/// The full text of a task as it is shown: a header, the text, and the keys. How far it can be
/// scrolled and what is drawn go by the same lines.
pub fn pager_lines(p: &Pager) -> (r: Vec<String>)
    ensures
        text::texts(r@) == pager_text(p@),
{
    let body = from_utf8_lossy(&p.bytes);
    page_around(p, body.as_str())
}

/// The full text of a task as it is shown, given its text.
pub fn page_around(p: &Pager, body: &str) -> (r: Vec<String>)
    ensures
        text::texts(r@) == pager_head(p@) + text::text_lines(body@) + pager_foot(),
{
    let mut r: Vec<String> = Vec::new();
    push_line(&mut r, prefixed("task-id: ", p.id.as_str()));
    push_line(&mut r, prefixed("from: ", p.from.as_str()));
    push_line(&mut r, prefixed("to: ", p.to.as_str()));
    push_line(
        &mut r,
        copy_text("\u{2500}\u{2500}\u{2500}\u{2500}\u{2500}\u{2500}\u{2500}\u{2500}"),
    );
    proof {
        assert(text::texts(r@) =~= pager_head(p@));
    }
    let mut ls = lines(body);
    let ghost lv = ls@;
    let ghost head = r@;
    r.append(&mut ls);
    proof {
        assert(text::texts(r@) =~= text::texts(head) + text::texts(lv));
    }
    push_line(&mut r, String::new());
    push_line(
        &mut r,
        copy_text(
            "j/k (\u{2193}\u{2191}) scroll \u{b7} PgUp/PgDn page \u{b7} Home/End ends \u{b7} Esc/q close",
        ),
    );
    proof {
        assert(text::texts(r@) =~= pager_head(p@) + text::text_lines(body@) + pager_foot());
    }
    r
}

/// The command that cancels a task.
pub fn cancel_cmdline(id: &str) -> (r: String)
    ensures
        r@ == "agent-bridge cancel "@ + id@,
{
    prefixed("agent-bridge cancel ", id)
}

/// A text, or a dash for an empty one.
pub open spec fn dash(s: Seq<char>) -> Seq<char> {
    if s.len() == 0 {
        "-"@
    } else {
        s
    }
}

/// A text, or a dash for an empty one.
pub fn or_dash(s: &str) -> (r: &str)
    ensures
        r@ == dash(s@),
{
    if s.is_empty() {
        "-"
    } else {
        s
    }
}

/// What can be said of the selection without changing anything.
pub open spec fn evidence_of(sel: app::SelView) -> Seq<Seq<char>> {
    match sel {
        app::SelView::Nothing => Seq::empty(),
        app::SelView::Worker(w) => seq![
            "pane: "@ + dash(w.pane@),
            "agent-bridge list --long"@,
        ],
        app::SelView::Task { task, worker } => seq!["task-id: "@ + task.id@] + (match worker {
            Some(w) => if w.pane@.len() > 0 {
                seq!["pane: "@ + w.pane@]
            } else {
                Seq::empty()
            },
            None => Seq::empty(),
        }) + seq![
            "agent-bridge read "@ + task.id@,
            "agent-bridge status "@ + task.id@,
        ],
    }
}

/// What can be said of the selection without changing anything: ids, panes, and commands that
/// only read. It may be pasted anywhere and run there.
pub fn evidence(sel: &Sel) -> (r: Vec<String>)
    ensures
        text::texts(r@) == evidence_of(sel@),
{
    let mut out: Vec<String> = Vec::new();
    match sel {
        Sel::Task { task, worker } => {
            push_line(&mut out, prefixed("task-id: ", task.id.as_str()));
            if let Some(w) = worker {
                if !w.pane.as_str().is_empty() {
                    push_line(&mut out, prefixed("pane: ", w.pane.as_str()));
                }
            }
            push_line(&mut out, prefixed("agent-bridge read ", task.id.as_str()));
            push_line(&mut out, prefixed("agent-bridge status ", task.id.as_str()));
        },
        Sel::Worker(w) => {
            push_line(&mut out, prefixed("pane: ", or_dash(w.pane.as_str())));
            push_line(&mut out, copy_text("agent-bridge list --long"));
        },
        Sel::Nothing => {},
    }
    proof {
        assert(text::texts(out@) =~= evidence_of(sel@));
    }
    out
}

/// What `c` copies.
pub open spec fn payload_of(sel: app::SelView) -> Seq<char> {
    let ls = evidence_of(sel);
    if ls.len() == 0 {
        Seq::empty()
    } else {
        text::join(ls, "\n"@) + "\n"@
    }
}

/// What `c` copies: the evidence, one line each.
pub fn copy_payload(sel: &Sel) -> (r: String)
    ensures
        r@ == payload_of(sel@),
{
    let ls = evidence(sel);
    proof {
        assert(text::texts(ls@).len() == ls@.len());
    }
    if ls.len() == 0 {
        return String::new();
    }
    let mut s = join_texts(&ls, "\n");
    s.append("\n");
    s
}

/// Whether a line only reads: it names a task or a pane, or is one of the commands that change
/// nothing.
pub open spec fn reads_only(line: Seq<char>) -> bool {
    ||| text::starts(line, "task-id: "@)
    ||| text::starts(line, "pane: "@)
    ||| text::starts(line, "agent-bridge read "@)
    ||| text::starts(line, "agent-bridge status "@)
    ||| line == "agent-bridge list --long"@
}

/// A text starts with what was put in front of it.
proof fn lemma_starts(a: Seq<char>, b: Seq<char>)
    ensures
        text::starts(a + b, a),
{
    assert((a + b).subrange(0, a.len() as int) =~= a);
}

/// No line of the evidence changes anything, whatever is selected.
pub proof fn evidence_reads_only(sel: app::SelView)
    ensures
        forall|i: int| 0 <= i < evidence_of(sel).len() ==> reads_only(#[trigger] evidence_of(sel)[i]),
{
    match sel {
        app::SelView::Nothing => {},
        app::SelView::Worker(w) => {
            lemma_starts("pane: "@, dash(w.pane@));
        },
        app::SelView::Task { task, worker } => {
            lemma_starts("task-id: "@, task.id@);
            lemma_starts("agent-bridge read "@, task.id@);
            lemma_starts("agent-bridge status "@, task.id@);
            if let Some(w) = worker {
                lemma_starts("pane: "@, w.pane@);
            }
        },
    }
}

/// The first text of a join starts the join.
proof fn lemma_join_first(s: Seq<Seq<char>>, sep: Seq<char>)
    requires
        s.len() > 0,
    ensures
        text::join(s, sep).len() >= s[0].len(),
        text::join(s, sep).take(s[0].len() as int) == s[0],
    decreases s.len(),
{
    if s.len() > 1 {
        lemma_join_first(s.drop_last(), sep);
        let t = text::join(s.drop_last(), sep);
        assert(s.drop_last()[0] == s[0]);
        assert(text::join(s, sep).take(s[0].len() as int) =~= t.take(s[0].len() as int));
    } else {
        assert(text::join(s, sep).take(s[0].len() as int) =~= s[0]);
    }
}

/// What is copied never starts with a dash, so it is never taken for an option.
pub proof fn payload_is_no_option(sel: app::SelView)
    ensures
        payload_of(sel).len() > 0 ==> payload_of(sel)[0] != '-',
        payload_of(sel).len() == 0 <==> sel is Nothing,
{
    let ls = evidence_of(sel);
    reveal_strlit("task-id: ");
    reveal_strlit("pane: ");
    reveal_strlit("\n");
    if ls.len() > 0 {
        lemma_join_first(ls, "\n"@);
        let j = text::join(ls, "\n"@);
        assert(ls[0][0] == 't' || ls[0][0] == 'p');
        assert(j.take(ls[0].len() as int)[0] == j[0]);
        assert(payload_of(sel)[0] == j[0]);
    }
}

/// A pane's state in a word.
pub open spec fn liveness_text(l: Liveness) -> Seq<char> {
    match l {
        Liveness::Live => "live"@,
        Liveness::Dead => "dead"@,
        Liveness::Unknown => "unknown"@,
    }
}

/// A pane's state in a word. Unknown is never called dead.
pub fn liveness_word(l: Liveness) -> (r: &'static str)
    ensures
        r@ == liveness_text(l),
{
    match l {
        Liveness::Live => "live",
        Liveness::Dead => "dead",
        Liveness::Unknown => "unknown",
    }
}

/// A blocker on the worker's page.
pub open spec fn page_blocker(b: Blocker) -> Seq<char> {
    match b {
        Blocker::Nothing => "none"@,
        Blocker::Prompt => "permission/plan prompt (blocked)"@,
        Blocker::Occluded => "occluded (copy-mode)"@,
        Blocker::Unknown => "unknown"@,
    }
}

/// A blocker on the worker's page.
fn page_blocker_word(b: Blocker) -> (r: &'static str)
    ensures
        r@ == page_blocker(b),
{
    match b {
        Blocker::Nothing => "none",
        Blocker::Prompt => "permission/plan prompt (blocked)",
        Blocker::Occluded => "occluded (copy-mode)",
        Blocker::Unknown => "unknown",
    }
}

/// The first worker from `from` on with a name.
pub open spec fn first_named(ws: Seq<AgentSnapshot>, name: Seq<char>, from: int) -> Option<int>
    decreases ws.len() - from,
{
    if from < 0 || from >= ws.len() {
        None
    } else if ws[from].name@ == name {
        Some(from)
    } else {
        first_named(ws, name, from + 1)
    }
}

/// The first worker with a name.
fn find_named<'a>(model: &'a Model, name: &str) -> (r: Option<&'a AgentSnapshot>)
    ensures
        match r {
            Some(w) => first_named(model.workers@, name@, 0) is Some && *w == model.workers@[first_named(
                model.workers@,
                name@,
                0,
            )->0],
            None => first_named(model.workers@, name@, 0) is None,
        },
{
    let mut i: usize = 0;
    while i < model.workers.len()
        invariant
            i <= model.workers@.len(),
            first_named(model.workers@, name@, 0) == first_named(model.workers@, name@, i as int),
        decreases model.workers@.len() - i,
    {
        if same(model.workers[i].name.as_str(), name) {
            return Some(&model.workers[i]);
        }
        i += 1;
    }
    None
}

/// A task on the worker's page.
pub open spec fn page_task(t: InFlight) -> Seq<char> {
    "  "@ + t.id@ + "  "@ + t.status@
}

/// Those of the first `n` tasks that belong to a worker, as its page shows them.
pub open spec fn page_tasks_upto(ts: Seq<InFlight>, w: AgentSnapshot, n: int) -> Seq<Seq<char>>
    decreases n,
{
    if n <= 0 {
        Seq::empty()
    } else if registry::belongs(ts[n - 1], w) {
        page_tasks_upto(ts, w, n - 1).push(page_task(ts[n - 1]))
    } else {
        page_tasks_upto(ts, w, n - 1)
    }
}

/// The unfinished tasks on the worker's page.
pub open spec fn page_tasks(ts: Seq<InFlight>, w: AgentSnapshot) -> Seq<Seq<char>> {
    let all = page_tasks_upto(ts, w, ts.len() as int);
    if all.len() == 0 {
        seq!["  (none)"@]
    } else {
        all
    }
}

/// What the registry says of a worker, on its page.
pub open spec fn page_head(
    w: AgentSnapshot,
    live: live::LiveView,
    blockers: Option<Map<Seq<char>, Blocker>>,
) -> Seq<Seq<char>> {
    seq![
        "name         : "@ + w.name@,
        "pane         : "@ + dash(w.pane@),
        "runtime      : "@ + dash(w.runtime@),
        "owner        : "@ + dash(w.owner@),
        "ready        : "@ + dash(w.ready@),
        "spawn_tag    : "@ + dash(w.spawn_tag@),
        "registered_at: "@ + dash(w.registered_at@),
        "liveness     : "@ + liveness_text(live::liveness_of(live, w.pane@)),
        "blocker      : "@ + page_blocker(blocker::blocker_at(blockers, w.pane@)),
        Seq::<char>::empty(),
        "in-flight tasks:"@,
    ]
}

/// Texts, each set in by two columns.
pub open spec fn indented(s: Seq<Seq<char>>) -> Seq<Seq<char>> {
    s.map_values(|t: Seq<char>| "  "@ + t)
}

/// Appends texts, each set in by two columns.
fn push_indented(v: &mut Vec<String>, ts: &Vec<String>)
    ensures
        text::texts(final(v)@) == text::texts(old(v)@) + indented(text::texts(ts@)),
{
    let ghost before = text::texts(v@);
    let ghost all = indented(text::texts(ts@));
    let mut i: usize = 0;
    proof {
        assert(text::texts(v@) =~= before + all.take(0));
    }
    while i < ts.len()
        invariant
            i <= ts@.len(),
            all == indented(text::texts(ts@)),
            text::texts(v@) == before + all.take(i as int),
        decreases ts@.len() - i,
    {
        push_line(v, prefixed("  ", ts[i].as_str()));
        proof {
            assert(text::texts(ts@)[i as int] == ts@[i as int]@);
            assert(before + all.take(i + 1) =~= (before + all.take(i as int)).push(all[i as int]));
        }
        i += 1;
    }
    proof {
        assert(all.take(i as int) =~= all);
    }
}

/// The page of a worker.
pub open spec fn page_of(
    m: Model,
    live: live::LiveView,
    blockers: Option<Map<Seq<char>, Blocker>>,
    name: Seq<char>,
) -> Seq<Seq<char>> {
    match first_named(m.workers@, name, 0) {
        None => seq!["'"@ + name + "' is gone from the registry"@],
        Some(i) => {
            let w = m.workers@[i];
            page_head(w, live, blockers) + page_tasks(m.tasks@, w) + seq![
                Seq::<char>::empty(),
                "evidence:"@,
            ] + indented(evidence_of(app::SelView::Worker(w))) + seq![
                Seq::<char>::empty(),
                "press any key to close"@,
            ]
        },
    }
}

/// The page of a worker: what is loaded of it and what is known of its pane. Its tasks are
/// those that belong to it, as in the worker list.
pub fn info_page(
    model: &Model,
    live: &LiveIndex,
    blockers: &BlockerIndex,
    name: &str,
) -> (r: Vec<String>)
    ensures
        text::texts(r@) == page_of(*model, live@, blockers@, name@),
{
    let mut v: Vec<String> = Vec::new();
    let w = match find_named(model, name) {
        Some(w) => w,
        None => {
            push_line(&mut v, wrapped("'", name, "' is gone from the registry"));
            proof {
                assert(text::texts(v@) =~= page_of(*model, live@, blockers@, name@));
            }
            return v;
        },
    };
    push_line(&mut v, prefixed("name         : ", w.name.as_str()));
    push_line(&mut v, prefixed("pane         : ", or_dash(w.pane.as_str())));
    push_line(&mut v, prefixed("runtime      : ", or_dash(w.runtime.as_str())));
    push_line(&mut v, prefixed("owner        : ", or_dash(w.owner.as_str())));
    push_line(&mut v, prefixed("ready        : ", or_dash(w.ready.as_str())));
    push_line(&mut v, prefixed("spawn_tag    : ", or_dash(w.spawn_tag.as_str())));
    push_line(&mut v, prefixed("registered_at: ", or_dash(w.registered_at.as_str())));
    push_line(
        &mut v,
        prefixed("liveness     : ", liveness_word(pane_liveness(live, w.pane.as_str()))),
    );
    push_line(
        &mut v,
        prefixed("blocker      : ", page_blocker_word(blockers.get(w.pane.as_str()))),
    );
    push_line(&mut v, String::new());
    push_line(&mut v, copy_text("in-flight tasks:"));
    let ghost head = page_head(*w, live@, blockers@);
    let mut n: usize = 0;
    let mut any = false;
    proof {
        assert(text::texts(v@) =~= head + page_tasks_upto(model.tasks@, *w, 0));
    }
    while n < model.tasks.len()
        invariant
            n <= model.tasks@.len(),
            text::texts(v@) == head + page_tasks_upto(model.tasks@, *w, n as int),
            any == (page_tasks_upto(model.tasks@, *w, n as int).len() > 0),
        decreases model.tasks@.len() - n,
    {
        let t = &model.tasks[n];
        if attached(t, w) {
            let ghost before = text::texts(v@);
            let mut line = prefixed("  ", t.id.as_str());
            line.append("  ");
            line.append(t.status.as_str());
            push_line(&mut v, line);
            any = true;
            proof {
                assert(text::texts(v@) =~= head + page_tasks_upto(model.tasks@, *w, n + 1));
            }
        }
        n += 1;
    }
    if !any {
        push_line(&mut v, copy_text("  (none)"));
    }
    proof {
        assert(text::texts(v@) =~= head + page_tasks(model.tasks@, *w));
    }
    push_line(&mut v, String::new());
    push_line(&mut v, copy_text("evidence:"));
    push_indented(&mut v, &evidence(&Sel::Worker(w)));
    push_line(&mut v, String::new());
    push_line(&mut v, copy_text("press any key to close"));
    proof {
        assert(text::texts(v@) =~= page_of(*model, live@, blockers@, name@));
    }
    v
}

/// The page of a worker ends in that worker's evidence, line by line, and a word on how to close
/// it.
pub proof fn page_evidence_is_the_evidence(
    m: Model,
    live: live::LiveView,
    blockers: Option<Map<Seq<char>, Blocker>>,
    name: Seq<char>,
    i: int,
)
    requires
        first_named(m.workers@, name, 0) == Some(i),
    ensures
        ({
            let e = evidence_of(app::SelView::Worker(m.workers@[i]));
            let page = page_of(m, live, blockers, name);
            &&& page.len() >= e.len() + 3
            &&& page[page.len() - e.len() - 3] == "evidence:"@
            &&& forall|j: int|
                0 <= j < e.len() ==> page[page.len() - e.len() - 2 + j] == "  "@ + #[trigger] e[j]
        }),
{
}

/// The end of a pane's output as it was captured.
#[derive(Clone, Debug, PartialEq, Eq)]
pub struct TailCapture {
    pub text: String,
    /// There was more than could be captured.
    pub truncated: bool,
}

/// The lines without the empty ones at the end.
pub open spec fn without_blank_end(s: Seq<Seq<char>>) -> Seq<Seq<char>>
    decreases s.len(),
{
    if s.len() > 0 && s.last().len() == 0 {
        without_blank_end(s.drop_last())
    } else {
        s
    }
}

/// The lines of a preview: without the white space at their ends, and without the empty lines
/// below the last output, which are the pane's and not the worker's.
pub open spec fn preview_lines(t: Seq<char>) -> Seq<Seq<char>> {
    let ls = without_blank_end(text::text_lines(t).map_values(|l: Seq<char>| text::trim_end(l)));
    if ls.len() == 0 {
        seq!["(the pane has produced no output)"@]
    } else {
        ls
    }
}

/// A preview of a worker's output.
pub open spec fn preview_of(target: app::PeekTargetView, cap: TailCapture) -> app::PeekShown {
    app::PeekShown {
        title: "tail preview \u{2014} "@ + target.name + " ("@ + target.pane + ")"@,
        lines: preview_lines(cap.text@),
        truncated: cap.truncated,
    }
}

/// A line without the white space at its end.
fn trim_line(s: &str) -> (r: String)
    ensures
        r@ == text::trim_end(s@),
{
    let v = to_chars(s);
    let e = text::trim_end_at(&v, 0, v.len());
    proof {
        assert(v@.subrange(0, v@.len() as int) =~= s@);
    }
    from_chars(&v, 0, e)
}

/// A preview of a worker's output.
pub fn peek_page(target: &PeekTarget, cap: &TailCapture) -> (r: PeekView)
    ensures
        r@ == preview_of(target@, *cap),
{
    let raw = lines(cap.text.as_str());
    let ghost want = text::text_lines(cap.text@).map_values(|l: Seq<char>| text::trim_end(l));
    let mut ls: Vec<String> = Vec::new();
    let mut i: usize = 0;
    while i < raw.len()
        invariant
            i <= raw@.len(),
            text::texts(raw@) == text::text_lines(cap.text@),
            want == text::text_lines(cap.text@).map_values(|l: Seq<char>| text::trim_end(l)),
            text::texts(ls@) == want.take(i as int),
        decreases raw@.len() - i,
    {
        let t = trim_line(raw[i].as_str());
        proof {
            assert(text::texts(raw@)[i as int] == raw@[i as int]@);
            assert(want.take(i + 1) =~= want.take(i as int).push(t@));
        }
        push_line(&mut ls, t);
        i += 1;
    }
    proof {
        assert(text::texts(raw@).len() == raw@.len());
        assert(want.take(i as int) =~= want);
    }
    while ls.len() > 0 && ls[ls.len() - 1].as_str().is_empty()
        invariant
            without_blank_end(text::texts(ls@)) == without_blank_end(want),
        decreases ls@.len(),
    {
        proof {
            assert(text::texts(ls@).last() == ls@[ls@.len() - 1]@);
            assert(text::texts(ls@).drop_last() =~= text::texts(ls@.drop_last()));
        }
        let _blank = ls.pop();
    }
    proof {
        assert(text::texts(ls@).len() == ls@.len());
        if ls@.len() > 0 {
            assert(text::texts(ls@).last() == ls@[ls@.len() - 1]@);
        }
        assert(without_blank_end(text::texts(ls@)) == text::texts(ls@));
    }
    if ls.len() == 0 {
        push_line(&mut ls, copy_text("(the pane has produced no output)"));
        proof {
            assert(text::texts(ls@) =~= preview_lines(cap.text@));
        }
    }
    let mut title = prefixed("tail preview \u{2014} ", target.name.as_str());
    title.append(" (");
    title.append(target.pane.as_str());
    title.append(")");
    PeekView { title, lines: ls, truncated: cap.truncated }
}

/// The generation that an eviction was confirmed for.
#[derive(Clone, Debug, PartialEq, Eq)]
pub struct EvictShown {
    pub name: String,
    pub pane: String,
    pub spawn_tag: String,
}

/// The generation that an eviction was confirmed for.
pub struct EvictShownView {
    pub name: Seq<char>,
    pub pane: Seq<char>,
    pub spawn_tag: Seq<char>,
}

impl View for EvictShown {
    type V = EvictShownView;

    open spec fn view(&self) -> EvictShownView {
        EvictShownView { name: self.name@, pane: self.pane@, spawn_tag: self.spawn_tag@ }
    }
}

/// The question before an eviction.
#[derive(Debug)]
pub struct EvictPrompt {
    pub shown: EvictShown,
    pub lines: Vec<String>,
}

/// The question before an eviction.
pub struct EvictPromptView {
    pub shown: EvictShownView,
    pub lines: Seq<Seq<char>>,
}

impl View for EvictPrompt {
    type V = EvictPromptView;

    open spec fn view(&self) -> EvictPromptView {
        EvictPromptView { shown: self.shown@, lines: text::texts(self.lines@) }
    }
}

/// An eviction as the command line takes it.
#[derive(Clone, Debug, PartialEq, Eq)]
pub struct EvictRequest {
    pub name: String,
    /// The pane that the worker has to have.
    pub expect_pane: Option<String>,
    /// The generation that the worker has to be.
    pub expect_generation: Option<String>,
}

impl EvictRequest {
    /// An eviction of whatever has the name.
    pub fn new(name: &str) -> (r: Self)
        ensures
            r.name@ == name@,
            r.expect_pane is None,
            r.expect_generation is None,
    {
        EvictRequest { name: copy_text(name), expect_pane: None, expect_generation: None }
    }

    /// The command of an eviction.
    pub open spec fn command(self) -> Seq<char> {
        "agent-bridge evict "@ + self.name@ + (match self.expect_pane {
            Some(p) => " --expect-pane "@ + p@,
            None => Seq::empty(),
        }) + (match self.expect_generation {
            Some(g) => " --expect-generation "@ + g@,
            None => Seq::empty(),
        })
    }

    /// The command of an eviction.
    pub fn cmdline(&self) -> (r: String)
        ensures
            r@ == self.command(),
    {
        let mut s = prefixed("agent-bridge evict ", self.name.as_str());
        let ghost base = s@;
        if let Some(p) = &self.expect_pane {
            s.append(" --expect-pane ");
            s.append(p.as_str());
        }
        let ghost with_pane = s@;
        if let Some(g) = &self.expect_generation {
            s.append(" --expect-generation ");
            s.append(g.as_str());
        }
        proof {
            assert(s@ =~= self.command());
        }
        s
    }
}

/// The lines of the question before an eviction.
pub open spec fn confirm_lines(req: EvictRequest) -> Seq<Seq<char>> {
    seq![
        "worker '"@ + req.name@ + "': wrap-up task, then reclaim"@,
        "  first dispatch one wrap-up task so it can write down the facts"@,
        "  that exist only in its context; the pane is reclaimed only after"@,
        "  those notes land (or time out). Notes stay in tasks/ to re-read."@,
        "pane      : "@ + (match req.expect_pane {
            Some(p) => p@,
            None => "-"@,
        }),
        "generation: "@ + (match req.expect_generation {
            Some(g) => g@,
            None => "-"@,
        }),
        "Confirm to run the equivalent CLI:"@,
        "$ "@ + req.command(),
        "[y/Enter] run \u{b7} [n/Esc] abort"@,
    ]
}

/// The lines of the question before an eviction. They lay the evidence out and leave the
/// judgement to the person: nothing in them calls the eviction safe.
pub fn evict_confirm_lines(req: &EvictRequest) -> (r: Vec<String>)
    ensures
        text::texts(r@) == confirm_lines(*req),
{
    let mut v: Vec<String> = Vec::new();
    push_line(&mut v, wrapped("worker '", req.name.as_str(), "': wrap-up task, then reclaim"));
    push_line(
        &mut v,
        copy_text("  first dispatch one wrap-up task so it can write down the facts"),
    );
    push_line(
        &mut v,
        copy_text("  that exist only in its context; the pane is reclaimed only after"),
    );
    push_line(
        &mut v,
        copy_text("  those notes land (or time out). Notes stay in tasks/ to re-read."),
    );
    let pane = match &req.expect_pane {
        Some(p) => p.as_str(),
        None => "-",
    };
    push_line(&mut v, prefixed("pane      : ", pane));
    let generation = match &req.expect_generation {
        Some(g) => g.as_str(),
        None => "-",
    };
    push_line(&mut v, prefixed("generation: ", generation));
    push_line(&mut v, copy_text("Confirm to run the equivalent CLI:"));
    push_line(&mut v, prefixed("$ ", req.cmdline().as_str()));
    push_line(&mut v, copy_text("[y/Enter] run \u{b7} [n/Esc] abort"));
    proof {
        assert(text::texts(v@) =~= confirm_lines(*req));
    }
    v
}

/// Whether a request names exactly the shown generation.
pub open spec fn names_generation(req: EvictRequest, shown: EvictShownView) -> bool {
    &&& req.name@ == shown.name
    &&& lineage::opt_text(req.expect_pane) == Some(shown.pane)
    &&& lineage::opt_text(req.expect_generation) == Some(shown.spawn_tag)
}

/// The eviction of a generation. Both expectations are always given: what is selected is always
/// older than what is on the disk.
fn evict_request_from(shown: &EvictShown) -> (r: EvictRequest)
    ensures
        names_generation(r, shown@),
{
    let mut req = EvictRequest::new(shown.name.as_str());
    req.expect_pane = Some(copy_text(shown.pane.as_str()));
    req.expect_generation = Some(copy_text(shown.spawn_tag.as_str()));
    req
}

/// The lines of the question, by the generation that it shows.
pub open spec fn question_lines(shown: EvictShownView) -> Seq<Seq<char>> {
    seq![
        "worker '"@ + shown.name + "': wrap-up task, then reclaim"@,
        "  first dispatch one wrap-up task so it can write down the facts"@,
        "  that exist only in its context; the pane is reclaimed only after"@,
        "  those notes land (or time out). Notes stay in tasks/ to re-read."@,
        "pane      : "@ + shown.pane,
        "generation: "@ + shown.spawn_tag,
        "Confirm to run the equivalent CLI:"@,
        "$ "@ + ("agent-bridge evict "@ + shown.name + (" --expect-pane "@ + shown.pane) + (
        " --expect-generation "@ + shown.spawn_tag)),
        "[y/Enter] run \u{b7} [n/Esc] abort"@,
    ]
}

/// The question before an eviction. `registry` is what the registry says of the worker at this
/// moment: its pane and generation, or why it cannot be evicted. That reason is passed on as it
/// is.
pub fn evict_prompt(name: &str, registry: Result<(String, String), Error>) -> (r: Result<
    EvictPrompt,
    Error,
>)
    ensures
        match registry {
            Ok((pane, tag)) => r matches Ok(p) && p@.shown == (EvictShownView {
                name: name@,
                pane: pane@,
                spawn_tag: tag@,
            }) && p@.lines == question_lines(p@.shown),
            Err(e) => r == Err::<EvictPrompt, Error>(e),
        },
{
    match registry {
        Ok((pane, spawn_tag)) => {
            let shown = EvictShown { name: copy_text(name), pane, spawn_tag };
            let lines = evict_confirm_lines(&evict_request_from(&shown));
            proof {
                assert(text::texts(lines@) =~= question_lines(shown@));
            }
            Ok(EvictPrompt { shown, lines })
        },
        Err(e) => Err(e),
    }
}

/// What is said when the generation is no longer there.
pub open spec fn gone_message(name: Seq<char>, reason: Seq<char>) -> Seq<char> {
    "evict 中止（selection stale）：確認當下重讀 registry，已取不到 agent '"@ + name + "' 框上那一代（"@
        + reason + "）；未建立任何任務、未通知、未回收"@
}

/// What is said when another generation is there.
pub open spec fn changed_message(shown: EvictShownView, pane: Seq<char>, tag: Seq<char>) -> Seq<char> {
    "evict 中止（selection stale）：確認當下重讀 registry，agent '"@ + shown.name + "' 現為 pane "@ + pane
        + "／世代 "@ + tag + "，與證據框顯示的 pane "@ + shown.pane + "／世代 "@ + shown.spawn_tag
        + " 不同；未建立任何任務、未通知、未回收"@
}

/// The eviction that was confirmed. `registry` is what the registry says at the moment of the
/// confirmation, and has to be what was shown: a person confirmed the generation in the
/// question, so any other, and any reason why there is none, stops the eviction before it has
/// done anything.
pub fn evict_request(shown: &EvictShown, registry: Result<(String, String), Error>) -> (r: Result<
    EvictRequest,
    Error,
>)
    ensures
        match registry {
            Err(e) => r matches Err(x) && x.message@ == gone_message(shown.name@, e.message@),
            Ok((pane, tag)) => if pane@ == shown.pane@ && tag@ == shown.spawn_tag@ {
                r matches Ok(req) && names_generation(req, shown@)
            } else {
                r matches Err(x) && x.message@ == changed_message(shown@, pane@, tag@)
            },
        },
{
    match registry {
        Err(e) => {
            let mut s = wrapped(
                "evict 中止（selection stale）：確認當下重讀 registry，已取不到 agent '",
                shown.name.as_str(),
                "' 框上那一代（",
            );
            s.append(e.message.as_str());
            s.append("）；未建立任何任務、未通知、未回收");
            Err(Error::new(s))
        },
        Ok((pane, tag)) => {
            if !same(pane.as_str(), shown.pane.as_str()) || !same(
                tag.as_str(),
                shown.spawn_tag.as_str(),
            ) {
                let mut s = wrapped(
                    "evict 中止（selection stale）：確認當下重讀 registry，agent '",
                    shown.name.as_str(),
                    "' 現為 pane ",
                );
                s.append(pane.as_str());
                s.append("／世代 ");
                s.append(tag.as_str());
                s.append("，與證據框顯示的 pane ");
                s.append(shown.pane.as_str());
                s.append("／世代 ");
                s.append(shown.spawn_tag.as_str());
                s.append(" 不同；未建立任何任務、未通知、未回收");
                return Err(Error::new(s));
            }
            Ok(evict_request_from(shown))
        },
    }
}

/// What became of an evicted worker's pane.
#[derive(Clone, Copy, Debug, PartialEq, Eq, Structural)]
pub enum DespawnResult {
    Killed,
    /// The pane was another generation's by then and was left alone.
    Stale,
}

/// How an eviction ended.
#[derive(Clone, Debug, PartialEq, Eq)]
pub struct EvictOutcome {
    pub task_id: String,
    pub final_status: String,
    /// What was written to the audit log.
    pub audit: String,
    pub despawn: DespawnResult,
    pub pane: String,
}

/// The end of an eviction in a sentence.
pub open spec fn outcome_text(name: Seq<char>, res: Result<EvictOutcome, Error>) -> Seq<char> {
    match res {
        Err(e) => e.message@,
        Ok(o) => if o.despawn == DespawnResult::Stale {
            "registration of agent '"@ + name + "' was cleared, but pane "@ + o.pane@
                + " was NOT reclaimed; judge the wrap-up task "@ + o.task_id@ + " ("@ + o.final_status@
                + ") yourself"@
        } else if o.audit@ == "evicted"@ {
            "evicted '"@ + name + "'; wrap-up notes are available: agent-bridge read "@ + o.task_id@
        } else if o.audit@ == "evicted-unfinished"@ {
            "reclaimed '"@ + name + "', but the wrap-up task "@ + o.task_id@ + " ended as "@
                + o.final_status@ + "; notes did not land"@
        } else {
            "reclaimed '"@ + name + "', but the wrap-up task "@ + o.task_id@
                + " timed out; notes did not land"@
        },
    }
}

/// The end of an eviction in a sentence. A pane that was left alone is never called reclaimed.
pub fn evict_message(name: &str, res: &Result<EvictOutcome, Error>) -> (r: String)
    ensures
        r@ == outcome_text(name@, *res),
{
    match res {
        Err(e) => copy_text(e.message.as_str()),
        Ok(o) => {
            if o.despawn == DespawnResult::Stale {
                let mut s = wrapped(
                    "registration of agent '",
                    name,
                    "' was cleared, but pane ",
                );
                s.append(o.pane.as_str());
                s.append(" was NOT reclaimed; judge the wrap-up task ");
                s.append(o.task_id.as_str());
                s.append(" (");
                s.append(o.final_status.as_str());
                s.append(") yourself");
                s
            } else if same(o.audit.as_str(), "evicted") {
                let mut s = wrapped(
                    "evicted '",
                    name,
                    "'; wrap-up notes are available: agent-bridge read ",
                );
                s.append(o.task_id.as_str());
                s
            } else if same(o.audit.as_str(), "evicted-unfinished") {
                let mut s = wrapped("reclaimed '", name, "', but the wrap-up task ");
                s.append(o.task_id.as_str());
                s.append(" ended as ");
                s.append(o.final_status.as_str());
                s.append("; notes did not land");
                s
            } else {
                let mut s = wrapped("reclaimed '", name, "', but the wrap-up task ");
                s.append(o.task_id.as_str());
                s.append(" timed out; notes did not land");
                s
            }
        },
    }
}

/// A command for tmux, and what is said when it fails.
#[derive(Clone, Debug, PartialEq, Eq)]
pub struct TmuxStep {
    pub args: Vec<String>,
    pub failure: String,
}

/// A command for tmux, and what is said when it fails.
pub struct TmuxStepView {
    pub args: Seq<Seq<char>>,
    pub failure: Seq<char>,
}

impl View for TmuxStep {
    type V = TmuxStepView;

    open spec fn view(&self) -> TmuxStepView {
        TmuxStepView { args: text::texts(self.args@), failure: self.failure@ }
    }
}

impl TmuxStep {
    /// What a step comes to; `done` says whether tmux did it.
    pub fn outcome(&self, done: bool) -> (r: Result<(), Error>)
        ensures
            match r {
                Ok(_) => done,
                Err(e) => !done && e.message@ == self.failure@,
            },
    {
        if done {
            Ok(())
        } else {
            Err(Error::new(copy_text(self.failure.as_str())))
        }
    }
}

/// The views of a list of commands.
pub open spec fn step_views(v: Seq<TmuxStep>) -> Seq<TmuxStepView> {
    v.map_values(|s: TmuxStep| s@)
}

/// The command that selects a target.
pub open spec fn select_step(cmd: Seq<char>, target: Seq<char>) -> TmuxStepView {
    TmuxStepView {
        args: seq![cmd, "-t"@, target],
        failure: cmd + " failed (target: "@ + target + ")"@,
    }
}

/// The command that switches to a session.
pub open spec fn switch_step(sess: Seq<char>) -> TmuxStepView {
    TmuxStepView {
        args: seq!["switch-client"@, "-t"@, sess],
        failure: "switch-client failed (target session: "@ + sess + ")"@,
    }
}

/// The commands that bring a pane to the front, in their order.
pub open spec fn focus_steps(plan: live::FocusPlanView, pane: Seq<char>) -> Seq<TmuxStepView> {
    (match plan.switch_to {
        Some(sess) => seq![switch_step(sess)],
        None => Seq::empty(),
    }) + seq![
        select_step("select-window"@, plan.window),
        select_step("select-pane"@, pane),
    ]
}

/// A command with a target.
fn targeted(cmd: &str, target: &str, failure: String) -> (r: TmuxStep)
    ensures
        r@.args == seq![cmd@, "-t"@, target@],
        r@.failure == failure@,
{
    let mut args: Vec<String> = Vec::new();
    push_line(&mut args, copy_text(cmd));
    push_line(&mut args, copy_text("-t"));
    push_line(&mut args, copy_text(target));
    proof {
        assert(text::texts(args@) =~= seq![cmd@, "-t"@, target@]);
    }
    TmuxStep { args, failure }
}

/// The commands that bring a pane to the front: each is run only after those before it have
/// succeeded, and the first failure ends them.
pub fn exec_focus(plan: &FocusPlan, pane: &str) -> (r: Vec<TmuxStep>)
    ensures
        step_views(r@) == focus_steps(plan@, pane@),
{
    let mut v: Vec<TmuxStep> = Vec::new();
    if let Some(sess) = &plan.switch_to {
        v.push(
            targeted(
                "switch-client",
                sess.as_str(),
                wrapped("switch-client failed (target session: ", sess.as_str(), ")"),
            ),
        );
    }
    let mut f1 = wrapped("select-window", " failed (target: ", plan.window.as_str());
    f1.append(")");
    v.push(targeted("select-window", plan.window.as_str(), f1));
    let mut f2 = wrapped("select-pane", " failed (target: ", pane);
    f2.append(")");
    v.push(targeted("select-pane", pane, f2));
    proof {
        assert(step_views(v@) =~= focus_steps(plan@, pane@));
    }
    v
}

/// The places of a pane.
pub open spec fn places_of(live: live::LiveView, pane: Seq<char>) -> Option<live::PlacesView> {
    match live.panes {
        Some(m) => if m.dom().contains(pane) {
            Some(m[pane])
        } else {
            None
        },
        None => None,
    }
}

/// What is said when a pane cannot be brought to the front.
pub open spec fn focus_refusal(live: live::LiveView, pane: Seq<char>, session: Option<Seq<char>>) -> Option<
    Seq<char>,
> {
    if pane.len() == 0 {
        Some("this row has no pane id to focus (registry has no pane_id)"@)
    } else if live::plan_of(places_of(live, pane), session) is None {
        Some("cannot locate pane "@ + pane + " (it is gone, or the tmux query failed)"@)
    } else {
        None
    }
}

/// The commands that bring a pane to the front. `live` is a snapshot of this moment: since the
/// last round the pane may have moved. Nothing is guessed where the pane cannot be found.
pub fn focus(live: &LiveIndex, pane: &str, current_session: Option<&str>) -> (r: Result<
    Vec<TmuxStep>,
    Error,
>)
    ensures
        match focus_refusal(live@, pane@, live::opt_str(current_session)) {
            Some(why) => r matches Err(e) && e.message@ == why,
            None => r matches Ok(steps) && step_views(steps@) == focus_steps(
                live::plan_of(places_of(live@, pane@), live::opt_str(current_session))->0,
                pane@,
            ),
        },
{
    if pane.is_empty() {
        return Err(
            Error::new(copy_text("this row has no pane id to focus (registry has no pane_id)")),
        );
    }
    let locs = match &live.panes {
        Some(m) => m.get(pane),
        None => None,
    };
    proof {
        if let Some(m) = &live.panes {
            if m@.dom().contains(pane@) {
                assert(live::place_map(m@)[pane@] == text::pairs(m@[pane@]@));
            }
        }
        assert(live::opt_place_list(locs) == places_of(live@, pane@));
    }
    match focus_plan(locs, current_session) {
        Some(plan) => Ok(exec_focus(&plan, pane)),
        None => Err(
            Error::new(
                wrapped("cannot locate pane ", pane, " (it is gone, or the tmux query failed)"),
            ),
        ),
    }
}

/// The command that copies a text to the tmux buffer.
pub open spec fn buffer_step(payload: Seq<char>) -> TmuxStepView {
    TmuxStepView {
        args: seq!["set-buffer"@, payload],
        failure: "copy failed: tmux set-buffer unavailable (tmux missing or timed out)"@,
    }
}

/// The command that copies a text to the tmux buffer.
pub fn copy_step(payload: &str) -> (r: TmuxStep)
    ensures
        r@ == buffer_step(payload@),
{
    let mut args: Vec<String> = Vec::new();
    push_line(&mut args, copy_text("set-buffer"));
    push_line(&mut args, copy_text(payload));
    proof {
        assert(text::texts(args@) =~= seq!["set-buffer"@, payload@]);
    }
    TmuxStep {
        args,
        failure: copy_text("copy failed: tmux set-buffer unavailable (tmux missing or timed out)"),
    }
}

} // verus!
