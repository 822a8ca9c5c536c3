//! The rows of the two lists, and the lines that they take on the screen.
//!
//! A single walk over the groups yields the worker list. Everything else about it, the rows,
//! the lines, the group headers and the counts in them, is read off that walk.

use crate::blocker::{Blocker, BlockerIndex};
use crate::lineage;
use crate::live;
use crate::live::LiveIndex;
use crate::model;
use crate::model::{worker_severity, Filter, Model, Scope, Severity};
use crate::registry;
use crate::registry::{attached, InFlight};
use crate::text::{copy_text, same};
use std::collections::HashMap;
use vstd::prelude::*;
use vstd::string::*;

verus! {

broadcast use vstd::std_specs::hash::group_hash_axioms;

/// A row of the worker list, by indices into the reading.
#[derive(Clone, Copy, PartialEq, Eq, Debug, Structural)]
pub enum Row {
    Worker(usize),
    /// An unfinished task below its worker.
    Task { worker: usize, task: usize },
}

/// A step of the walk over the worker list.
#[derive(Clone, Copy, PartialEq, Eq, Debug, Structural)]
pub enum WalkEvent {
    /// The header of a group. It takes a line and is no row: there is nothing to select.
    GroupHead(usize),
    Row(Row),
}

/// What a filter looks at in a task.
pub open spec fn hay_of(t: InFlight) -> Seq<char> {
    t.id@ + " "@ + t.from@ + " "@ + t.to@ + " "@ + t.status@
}

/// What a filter looks at in a task: its id, sender, recipient and status.
pub fn task_hay(t: &InFlight) -> (r: String)
    ensures
        r@ == hay_of(*t),
{
    let mut s = copy_text(t.id.as_str());
    s.append(" ");
    s.append(t.from.as_str());
    s.append(" ");
    s.append(t.to.as_str());
    s.append(" ");
    s.append(t.status.as_str());
    s
}

/// Whether a filter lets a worker through by its name.
pub open spec fn worker_hit(m: Model, q: Seq<char>, wi: int) -> bool {
    model::lets_through(q, m.workers@[wi].name@)
}

/// Those of the first `n` tasks that are shown below a worker: all of its tasks where the worker
/// itself is let through, else those that are.
pub open spec fn shown_upto(m: Model, q: Seq<char>, wi: int, n: int) -> Seq<usize>
    decreases n,
{
    if n <= 0 {
        Seq::empty()
    } else {
        let before = shown_upto(m, q, wi, n - 1);
        let t = m.tasks@[n - 1];
        if registry::belongs(t, m.workers@[wi]) && (worker_hit(m, q, wi) || model::lets_through(
            q,
            hay_of(t),
        )) {
            before.push((n - 1) as usize)
        } else {
            before
        }
    }
}

/// The tasks that are shown below a worker.
pub open spec fn shown_tasks(m: Model, q: Seq<char>, wi: int) -> Seq<usize> {
    shown_upto(m, q, wi, m.tasks@.len() as int)
}

/// The rows of a worker: none where neither it nor a task of it is let through, else the worker
/// and its shown tasks.
pub open spec fn worker_events(m: Model, q: Seq<char>, wi: usize) -> Seq<WalkEvent> {
    let ts = shown_tasks(m, q, wi as int);
    if !worker_hit(m, q, wi as int) && ts.len() == 0 {
        Seq::empty()
    } else {
        seq![WalkEvent::Row(Row::Worker(wi))] + ts.map_values(
            |t: usize| WalkEvent::Row(Row::Task { worker: wi, task: t }),
        )
    }
}

/// The rows of the first `n` members.
pub open spec fn member_events(m: Model, q: Seq<char>, members: Seq<usize>, n: int) -> Seq<WalkEvent>
    decreases n,
{
    if n <= 0 {
        Seq::empty()
    } else {
        member_events(m, q, members, n - 1) + worker_events(m, q, members[n - 1])
    }
}

/// The rows of a group under its header; no header where there is no row.
pub open spec fn headed(gi: int, rows: Seq<WalkEvent>) -> Seq<WalkEvent> {
    if rows.len() == 0 {
        Seq::empty()
    } else {
        seq![WalkEvent::GroupHead(gi as usize)] + rows
    }
}

/// The rows of a group.
pub open spec fn group_events(m: Model, q: Seq<char>, gi: int) -> Seq<WalkEvent> {
    let ms = m.groups@[gi].members@;
    headed(gi, member_events(m, q, ms, ms.len() as int))
}

/// The walk over the first `n` groups.
pub open spec fn walk_upto(m: Model, q: Seq<char>, n: int) -> Seq<WalkEvent>
    decreases n,
{
    if n <= 0 {
        Seq::empty()
    } else {
        walk_upto(m, q, n - 1) + group_events(m, q, n - 1)
    }
}

/// The walk over the worker list.
pub open spec fn walk(m: Model, q: Seq<char>) -> Seq<WalkEvent> {
    walk_upto(m, q, m.groups@.len() as int)
}

/// Appends the rows of a worker.
fn push_worker(model: &Model, filter: &Filter, wi: usize, out: &mut Vec<WalkEvent>)
    requires
        wi < model.workers@.len(),
    ensures
        final(out)@ == old(out)@ + worker_events(*model, filter.query@, wi),
{
    let ghost q = filter.query@;
    let hit = filter.matches(model.workers[wi].name.as_str());
    let mut ts: Vec<usize> = Vec::new();
    let mut n: usize = 0;
    while n < model.tasks.len()
        invariant
            n <= model.tasks@.len(),
            wi < model.workers@.len(),
            q == filter.query@,
            hit == worker_hit(*model, q, wi as int),
            ts@ == shown_upto(*model, q, wi as int, n as int),
        decreases model.tasks@.len() - n,
    {
        if attached(&model.tasks[n], &model.workers[wi]) {
            if hit || filter.matches(task_hay(&model.tasks[n]).as_str()) {
                ts.push(n);
            }
        }
        n += 1;
    }
    if !hit && ts.len() == 0 {
        proof {
            assert(out@ =~= old(out)@ + worker_events(*model, q, wi));
        }
        return;
    }
    out.push(WalkEvent::Row(Row::Worker(wi)));
    let ghost head = old(out)@ + seq![WalkEvent::Row(Row::Worker(wi))];
    let ghost below = ts@.map_values(
        |t: usize| WalkEvent::Row(Row::Task { worker: wi, task: t }),
    );
    let mut i: usize = 0;
    proof {
        assert(out@ =~= head + below.take(0));
    }
    while i < ts.len()
        invariant
            i <= ts@.len(),
            below == ts@.map_values(|t: usize| WalkEvent::Row(Row::Task { worker: wi, task: t })),
            out@ == head + below.take(i as int),
        decreases ts@.len() - i,
    {
        out.push(WalkEvent::Row(Row::Task { worker: wi, task: ts[i] }));
        proof {
            assert(below.take(i + 1) =~= below.take(i as int).push(below[i as int]));
            assert(out@ =~= head + below.take(i + 1));
        }
        i += 1;
    }
    proof {
        assert(below.take(i as int) =~= below);
        assert(out@ =~= old(out)@ + worker_events(*model, q, wi));
    }
}

/// The walk over the worker list: the groups in their order, in each its workers, below each
/// worker its unfinished tasks. A filter keeps a worker with all of its tasks where it lets the
/// worker through, and the worker with the tasks that it lets through where there are any.
pub fn walk_workers(model: &Model, filter: &Filter) -> (r: Vec<WalkEvent>)
    requires
        model.wf(),
    ensures
        r@ == walk(*model, filter.query@),
{
    let ghost q = filter.query@;
    let mut out: Vec<WalkEvent> = Vec::new();
    let mut gi: usize = 0;
    while gi < model.groups.len()
        invariant
            gi <= model.groups@.len(),
            model.wf(),
            q == filter.query@,
            out@ == walk_upto(*model, q, gi as int),
        decreases model.groups@.len() - gi,
    {
        let ghost before = out@;
        let ghost ms = model.groups@[gi as int].members@;
        let mut rows: Vec<WalkEvent> = Vec::new();
        let mut j: usize = 0;
        while j < model.groups[gi].members.len()
            invariant
                gi < model.groups@.len(),
                ms == model.groups@[gi as int].members@,
                j <= ms.len(),
                model.wf(),
                q == filter.query@,
                rows@ == member_events(*model, q, ms, j as int),
            decreases ms.len() - j,
        {
            assert(model.groups@[gi as int].members@[j as int] < model.workers@.len());
            push_worker(model, filter, model.groups[gi].members[j], &mut rows);
            j += 1;
        }
        if rows.len() > 0 {
            out.push(WalkEvent::GroupHead(gi));
            let ghost tail = rows@;
            out.append(&mut rows);
            proof {
                assert(out@ =~= before + headed(gi as int, tail));
            }
        } else {
            proof {
                assert(out@ =~= before + headed(gi as int, rows@));
            }
        }
        gi += 1;
    }
    out
}

/// The rows of a walk.
pub open spec fn rows_in(ev: Seq<WalkEvent>) -> Seq<Row>
    decreases ev.len(),
{
    if ev.len() == 0 {
        Seq::empty()
    } else {
        match ev.last() {
            WalkEvent::Row(r) => rows_in(ev.drop_last()).push(r),
            WalkEvent::GroupHead(_) => rows_in(ev.drop_last()),
        }
    }
}

/// The number of lines of a row.
pub open spec fn height(row: Row) -> int {
    match row {
        Row::Worker(_) => 2,
        Row::Task { .. } => 1,
    }
}

/// The number of lines of a row of the worker list: two for a worker, whose second line tells
/// what it is doing, and one for a task below it.
pub fn row_height(row: Row) -> (r: usize)
    ensures
        r == height(row),
{
    match row {
        Row::Worker(_) => 2,
        Row::Task { .. } => 1,
    }
}

/// The number of lines of a row of the task list.
pub const TASK_ROW_H: usize = 2;

/// Whether every header of a walk speaks of a group that there is.
pub open spec fn heads_within(ev: Seq<WalkEvent>, n: int) -> bool {
    forall|i: int|
        0 <= i < ev.len() ==> match #[trigger] ev[i] {
            WalkEvent::GroupHead(g) => g < n,
            _ => true,
        }
}

/// The rows of members have no headers.
proof fn lemma_members_have_no_heads(m: Model, q: Seq<char>, members: Seq<usize>, k: int, n: int)
    requires
        0 <= k <= members.len(),
    ensures
        heads_within(member_events(m, q, members, k), n),
    decreases k,
{
    if k > 0 {
        lemma_members_have_no_heads(m, q, members, k - 1, n);
        let a = member_events(m, q, members, k - 1);
        let b = worker_events(m, q, members[k - 1]);
        assert forall|i: int| 0 <= i < (a + b).len() implies match #[trigger] (a + b)[i] {
            WalkEvent::GroupHead(g) => g < n,
            _ => true,
        } by {
            if i < a.len() {
                assert((a + b)[i] == a[i]);
            } else {
                assert((a + b)[i] == b[i - a.len()]);
            }
        }
    }
}

/// The headers of a walk speak of groups that there are.
pub proof fn lemma_heads_within(m: Model, q: Seq<char>, n: int)
    requires
        0 <= n <= m.groups@.len(),
        m.groups@.len() <= usize::MAX,
    ensures
        heads_within(walk_upto(m, q, n), n),
    decreases n,
{
    if n > 0 {
        lemma_heads_within(m, q, n - 1);
        let members = m.groups@[n - 1].members@;
        lemma_members_have_no_heads(m, q, members, members.len() as int, n);
        let a = walk_upto(m, q, n - 1);
        let b = group_events(m, q, n - 1);
        let r = member_events(m, q, members, members.len() as int);
        assert forall|i: int| 0 <= i < (a + b).len() implies match #[trigger] (a + b)[i] {
            WalkEvent::GroupHead(g) => g < n,
            _ => true,
        } by {
            if i < a.len() {
                assert((a + b)[i] == a[i]);
            } else {
                let j = i - a.len();
                assert((a + b)[i] == b[j]);
                if j > 0 {
                    assert(b[j] == r[j - 1]);
                }
            }
        }
    }
}

/// The number of lines of a step.
pub open spec fn event_height(e: WalkEvent) -> int {
    match e {
        WalkEvent::GroupHead(_) => 1,
        WalkEvent::Row(r) => height(r),
    }
}

/// The number of lines of a walk.
pub open spec fn lines_total(ev: Seq<WalkEvent>) -> int
    decreases ev.len(),
{
    if ev.len() == 0 {
        0
    } else {
        lines_total(ev.drop_last()) + event_height(ev.last())
    }
}

/// The first line of every row.
pub open spec fn lines_in(ev: Seq<WalkEvent>) -> Seq<int>
    decreases ev.len(),
{
    if ev.len() == 0 {
        Seq::empty()
    } else {
        match ev.last() {
            WalkEvent::Row(_) => lines_in(ev.drop_last()).push(lines_total(ev.drop_last())),
            WalkEvent::GroupHead(_) => lines_in(ev.drop_last()),
        }
    }
}

/// A line number as a machine integer holds it: at most the largest.
pub open spec fn capped(x: int) -> int {
    if x > usize::MAX {
        usize::MAX as int
    } else {
        x
    }
}

/// Line numbers as machine integers hold them.
pub open spec fn capped_all(s: Seq<int>) -> Seq<int> {
    s.map_values(|x: int| capped(x))
}

/// The rows of the worker list.
pub fn worker_rows(model: &Model, filter: &Filter) -> (r: Vec<Row>)
    requires
        model.wf(),
    ensures
        r@ == rows_in(walk(*model, filter.query@)),
{
    let ev = walk_workers(model, filter);
    let mut r: Vec<Row> = Vec::new();
    let mut i: usize = 0;
    while i < ev.len()
        invariant
            i <= ev@.len(),
            r@ == rows_in(ev@.take(i as int)),
        decreases ev@.len() - i,
    {
        proof {
            assert(ev@.take(i + 1).drop_last() =~= ev@.take(i as int));
        }
        match ev[i] {
            WalkEvent::Row(row) => {
                r.push(row);
            },
            WalkEvent::GroupHead(_) => {},
        }
        i += 1;
    }
    proof {
        assert(ev@.take(i as int) =~= ev@);
    }
    r
}

/// The lines of a step, added to a line number.
fn lines_after(line: usize, e: WalkEvent) -> (r: usize)
    ensures
        r == capped(line + event_height(e)),
{
    let h: usize = match e {
        WalkEvent::GroupHead(_) => 1,
        WalkEvent::Row(row) => row_height(row),
    };
    if line > usize::MAX - h {
        usize::MAX
    } else {
        line + h
    }
}

/// A walk has no negative number of lines.
proof fn lemma_lines_nonnegative(ev: Seq<WalkEvent>)
    ensures
        lines_total(ev) >= ev.len(),
    decreases ev.len(),
{
    if ev.len() > 0 {
        lemma_lines_nonnegative(ev.drop_last());
    }
}

/// The first line of every row of the worker list. Headers take lines and are no rows.
pub fn worker_row_lines(model: &Model, filter: &Filter) -> (r: Vec<usize>)
    requires
        model.wf(),
    ensures
        lineage::ints(r@) == capped_all(lines_in(walk(*model, filter.query@))),
{
    let ev = walk_workers(model, filter);
    let mut r: Vec<usize> = Vec::new();
    let mut line: usize = 0;
    let mut i: usize = 0;
    proof {
        assert(lineage::ints(r@) =~= capped_all(lines_in(ev@.take(0))));
    }
    while i < ev.len()
        invariant
            i <= ev@.len(),
            line == capped(lines_total(ev@.take(i as int))),
            lineage::ints(r@) == capped_all(lines_in(ev@.take(i as int))),
        decreases ev@.len() - i,
    {
        let ghost t0 = ev@.take(i as int);
        let ghost t1 = ev@.take(i + 1);
        let ghost before = r@;
        proof {
            assert(t1.drop_last() =~= t0);
            assert(t1.last() == ev@[i as int]);
            lemma_lines_nonnegative(t0);
        }
        if let WalkEvent::Row(_) = ev[i] {
            r.push(line);
            proof {
                assert(lineage::ints(r@) =~= lineage::ints(before).push(line as int));
                assert(capped_all(lines_in(t1)) =~= capped_all(lines_in(t0)).push(
                    capped(lines_total(t0)),
                ));
            }
        }
        line = lines_after(line, ev[i]);
        i += 1;
    }
    proof {
        assert(ev@.take(i as int) =~= ev@);
    }
    r
}

/// The number of lines of the worker list.
pub fn worker_lines_total(model: &Model, filter: &Filter) -> (r: usize)
    requires
        model.wf(),
    ensures
        r == capped(lines_total(walk(*model, filter.query@))),
{
    let ev = walk_workers(model, filter);
    let mut line: usize = 0;
    let mut i: usize = 0;
    while i < ev.len()
        invariant
            i <= ev@.len(),
            line == capped(lines_total(ev@.take(i as int))),
        decreases ev@.len() - i,
    {
        proof {
            assert(ev@.take(i + 1).drop_last() =~= ev@.take(i as int));
            lemma_lines_nonnegative(ev@.take(i as int));
        }
        line = lines_after(line, ev[i]);
        i += 1;
    }
    proof {
        assert(ev@.take(i as int) =~= ev@);
    }
    line
}

/// The number of rows of a walk as a machine integer.
pub open spec fn row_count(ev: Seq<WalkEvent>) -> usize {
    rows_in(ev).len() as usize
}

/// By row: the group whose header stands in front of it.
pub open spec fn heads_in(ev: Seq<WalkEvent>) -> Map<usize, usize>
    decreases ev.len(),
{
    if ev.len() == 0 {
        Map::empty()
    } else {
        match ev.last() {
            WalkEvent::GroupHead(g) => heads_in(ev.drop_last()).insert(row_count(ev.drop_last()), g),
            WalkEvent::Row(_) => heads_in(ev.drop_last()),
        }
    }
}

/// A walk has at most as many rows as steps.
pub proof fn lemma_rows_len(ev: Seq<WalkEvent>)
    ensures
        rows_in(ev).len() <= ev.len(),
    decreases ev.len(),
{
    if ev.len() > 0 {
        lemma_rows_len(ev.drop_last());
    }
}

/// By row: the group whose header stands in front of it. A group without a row has no header.
pub fn group_line_offsets(model: &Model, filter: &Filter) -> (r: HashMap<usize, usize>)
    requires
        model.wf(),
    ensures
        r@ == heads_in(walk(*model, filter.query@)),
{
    let ev = walk_workers(model, filter);
    let mut r: HashMap<usize, usize> = HashMap::new();
    let mut row: usize = 0;
    let mut i: usize = 0;
    while i < ev.len()
        invariant
            i <= ev@.len(),
            row == rows_in(ev@.take(i as int)).len(),
            row <= i,
            r@ == heads_in(ev@.take(i as int)),
        decreases ev@.len() - i,
    {
        proof {
            assert(ev@.take(i + 1).drop_last() =~= ev@.take(i as int));
        }
        match ev[i] {
            WalkEvent::GroupHead(g) => {
                r.insert(row, g);
            },
            WalkEvent::Row(_) => {
                row += 1;
            },
        }
        i += 1;
    }
    proof {
        assert(ev@.take(i as int) =~= ev@);
    }
    r
}

/// The group under whose header a walk stands.
pub open spec fn under(ev: Seq<WalkEvent>) -> Option<usize>
    decreases ev.len(),
{
    if ev.len() == 0 {
        None
    } else {
        match ev.last() {
            WalkEvent::GroupHead(g) => Some(g),
            WalkEvent::Row(_) => under(ev.drop_last()),
        }
    }
}

/// The number that a map holds for a group.
pub open spec fn count_at(m: Map<usize, usize>, g: usize) -> int {
    if m.dom().contains(g) {
        m[g] as int
    } else {
        0
    }
}

/// By group: how many of its workers are shown.
pub open spec fn visible_in(ev: Seq<WalkEvent>) -> Map<usize, usize>
    decreases ev.len(),
{
    if ev.len() == 0 {
        Map::empty()
    } else {
        let before = visible_in(ev.drop_last());
        match (ev.last(), under(ev.drop_last())) {
            (WalkEvent::Row(Row::Worker(_)), Some(g)) => before.insert(
                g,
                (count_at(before, g) + 1) as usize,
            ),
            _ => before,
        }
    }
}

/// No group has more shown workers than the walk has steps.
proof fn lemma_visible_len(ev: Seq<WalkEvent>, g: usize)
    requires
        ev.len() <= usize::MAX,
    ensures
        count_at(visible_in(ev), g) <= ev.len(),
    decreases ev.len(),
{
    if ev.len() > 0 {
        lemma_visible_len(ev.drop_last(), g);
    }
}

/// By group: how many of its workers are shown.
pub fn group_visible_members(model: &Model, filter: &Filter) -> (r: HashMap<usize, usize>)
    requires
        model.wf(),
    ensures
        r@ == visible_in(walk(*model, filter.query@)),
{
    let ev = walk_workers(model, filter);
    let mut r: HashMap<usize, usize> = HashMap::new();
    let mut cur: Option<usize> = None;
    let mut i: usize = 0;
    while i < ev.len()
        invariant
            i <= ev@.len(),
            cur == under(ev@.take(i as int)),
            r@ == visible_in(ev@.take(i as int)),
        decreases ev@.len() - i,
    {
        proof {
            assert(ev@.take(i + 1).drop_last() =~= ev@.take(i as int));
        }
        match ev[i] {
            WalkEvent::GroupHead(g) => {
                cur = Some(g);
            },
            WalkEvent::Row(Row::Worker(_)) => {
                if let Some(g) = cur {
                    proof {
                        lemma_visible_len(ev@.take(i as int), g);
                    }
                    let n: usize = match r.get(&g) {
                        Some(n) => *n,
                        None => 0,
                    };
                    r.insert(g, n + 1);
                }
            },
            WalkEvent::Row(Row::Task { .. }) => {},
        }
        i += 1;
    }
    proof {
        assert(ev@.take(i as int) =~= ev@);
    }
    r
}

/// How many of a group's shown workers need a person, and why. A worker counts once.
#[derive(Clone, Copy, PartialEq, Eq, Debug, Structural)]
pub struct SeverityCounts {
    pub blocked: usize,
    pub dead: usize,
    pub failed: usize,
}

impl Default for SeverityCounts {
    fn default() -> (r: Self)
        ensures
            r == (SeverityCounts { blocked: 0, dead: 0, failed: 0 }),
    {
        SeverityCounts { blocked: 0, dead: 0, failed: 0 }
    }
}

/// The counts with one more.
pub open spec fn counted(c: SeverityCounts, s: Severity) -> SeverityCounts {
    match s {
        Severity::Blocked => SeverityCounts { blocked: (c.blocked + 1) as usize, ..c },
        Severity::Dead => SeverityCounts { dead: (c.dead + 1) as usize, ..c },
        Severity::Failed => SeverityCounts { failed: (c.failed + 1) as usize, ..c },
        Severity::Nothing => c,
    }
}

/// The counts that a map holds for a group.
pub open spec fn counts_at(m: Map<usize, SeverityCounts>, g: usize) -> SeverityCounts {
    if m.dom().contains(g) {
        m[g]
    } else {
        SeverityCounts { blocked: 0, dead: 0, failed: 0 }
    }
}

/// By group: the severities of its shown workers.
pub open spec fn severities_in(
    m: Model,
    ev: Seq<WalkEvent>,
    live: live::LiveView,
    blockers: Option<Map<Seq<char>, Blocker>>,
) -> Map<usize, SeverityCounts>
    decreases ev.len(),
{
    if ev.len() == 0 {
        Map::empty()
    } else {
        let before = severities_in(m, ev.drop_last(), live, blockers);
        match (ev.last(), under(ev.drop_last())) {
            (WalkEvent::Row(Row::Worker(wi)), Some(g)) => before.insert(
                g,
                counted(counts_at(before, g), model::severity_of(m, wi as int, live, blockers)),
            ),
            _ => before,
        }
    }
}

/// The counts of a group are not greater than the walk is long.
proof fn lemma_severities_len(
    m: Model,
    ev: Seq<WalkEvent>,
    live: live::LiveView,
    blockers: Option<Map<Seq<char>, Blocker>>,
    g: usize,
)
    requires
        ev.len() <= usize::MAX,
    ensures
        counts_at(severities_in(m, ev, live, blockers), g).blocked <= ev.len(),
        counts_at(severities_in(m, ev, live, blockers), g).dead <= ev.len(),
        counts_at(severities_in(m, ev, live, blockers), g).failed <= ev.len(),
    decreases ev.len(),
{
    if ev.len() > 0 {
        lemma_severities_len(m, ev.drop_last(), live, blockers, g);
    }
}

/// Every worker of a walk is a worker of the reading.
pub open spec fn workers_within(ev: Seq<WalkEvent>, n: int) -> bool {
    forall|i: int| 0 <= i < ev.len() ==> match #[trigger] ev[i] {
        WalkEvent::Row(Row::Worker(wi)) => wi < n,
        WalkEvent::Row(Row::Task { worker, .. }) => worker < n,
        WalkEvent::GroupHead(_) => true,
    }
}

/// Every task of a walk is a task of the reading, below a worker that it belongs to.
pub open spec fn tasks_within(m: Model, ev: Seq<WalkEvent>) -> bool {
    forall|i: int| 0 <= i < ev.len() ==> match #[trigger] ev[i] {
        WalkEvent::Row(Row::Task { worker, task }) => task < m.tasks@.len() && registry::belongs(
            m.tasks@[task as int],
            m.workers@[worker as int],
        ),
        _ => true,
    }
}

/// The shown tasks are tasks of the worker.
proof fn lemma_shown_within(m: Model, q: Seq<char>, wi: int, n: int)
    requires
        0 <= n <= m.tasks@.len(),
        m.tasks@.len() <= usize::MAX,
    ensures
        forall|i: int|
            0 <= i < shown_upto(m, q, wi, n).len() ==> (#[trigger] shown_upto(m, q, wi, n)[i]) < n
                && registry::belongs(
                m.tasks@[shown_upto(m, q, wi, n)[i] as int],
                m.workers@[wi],
            ),
    decreases n,
{
    if n > 0 {
        lemma_shown_within(m, q, wi, n - 1);
        let s = shown_upto(m, q, wi, n - 1);
        let t = shown_upto(m, q, wi, n);
        assert forall|i: int| 0 <= i < t.len() implies (#[trigger] t[i]) < n && registry::belongs(
            m.tasks@[t[i] as int],
            m.workers@[wi],
        ) by {
            if i < s.len() {
                assert(t[i] == s[i]);
            }
        }
    }
}

/// The rows of members speak of rows that there are.
proof fn lemma_members_within(m: Model, q: Seq<char>, members: Seq<usize>, n: int)
    requires
        0 <= n <= members.len(),
        forall|i: int| 0 <= i < members.len() ==> #[trigger] members[i] < m.workers@.len(),
        m.tasks@.len() <= usize::MAX,
    ensures
        workers_within(member_events(m, q, members, n), m.workers@.len() as int),
        tasks_within(m, member_events(m, q, members, n)),
    decreases n,
{
    if n > 0 {
        lemma_members_within(m, q, members, n - 1);
        lemma_shown_within(m, q, members[n - 1] as int, m.tasks@.len() as int);
        let a = member_events(m, q, members, n - 1);
        let b = worker_events(m, q, members[n - 1]);
        let ts = shown_tasks(m, q, members[n - 1] as int);
        assert forall|i: int| 0 <= i < b.len() implies match #[trigger] b[i] {
            WalkEvent::Row(Row::Worker(wi)) => wi < m.workers@.len(),
            WalkEvent::Row(Row::Task { worker, task }) => worker < m.workers@.len() && task
                < m.tasks@.len() && registry::belongs(
                m.tasks@[task as int],
                m.workers@[worker as int],
            ),
            WalkEvent::GroupHead(_) => true,
        } by {
            if i > 0 {
                assert(b[i] == WalkEvent::Row(
                    Row::Task { worker: members[n - 1], task: ts[i - 1] },
                ));
            }
        }
        assert(workers_within(b, m.workers@.len() as int));
        assert(tasks_within(m, b));
        assert(workers_within(a + b, m.workers@.len() as int));
        assert(tasks_within(m, a + b));
    }
}

/// The walk speaks of rows that there are, and every task stands below a worker that it
/// belongs to.
pub proof fn walk_stays_within_the_reading(m: Model, q: Seq<char>, n: int)
    requires
        m.wf(),
        0 <= n <= m.groups@.len(),
        m.tasks@.len() <= usize::MAX,
    ensures
        workers_within(walk_upto(m, q, n), m.workers@.len() as int),
        tasks_within(m, walk_upto(m, q, n)),
    decreases n,
{
    if n > 0 {
        walk_stays_within_the_reading(m, q, n - 1);
        let ms = m.groups@[n - 1].members@;
        assert forall|i: int| 0 <= i < ms.len() implies #[trigger] ms[i] < m.workers@.len() by {
            assert(m.groups@[n - 1].members@[i] < m.workers@.len());
        }
        lemma_members_within(m, q, ms, ms.len() as int);
        let a = walk_upto(m, q, n - 1);
        let b = group_events(m, q, n - 1);
        let rows = member_events(m, q, ms, ms.len() as int);
        assert forall|i: int| 0 <= i < b.len() implies (#[trigger] b[i] is GroupHead) || (i > 0 && b[i]
            == rows[i - 1]) by {}
        assert(workers_within(b, m.workers@.len() as int)) by {
            assert forall|i: int| 0 <= i < b.len() implies match #[trigger] b[i] {
                WalkEvent::Row(Row::Worker(wi)) => wi < m.workers@.len(),
                WalkEvent::Row(Row::Task { worker, .. }) => worker < m.workers@.len(),
                WalkEvent::GroupHead(_) => true,
            } by {
                if i > 0 {
                    assert(b[i] == rows[i - 1]);
                }
            }
        }
        assert(tasks_within(m, b)) by {
            assert forall|i: int| 0 <= i < b.len() implies match #[trigger] b[i] {
                WalkEvent::Row(Row::Task { worker, task }) => task < m.tasks@.len()
                    && registry::belongs(m.tasks@[task as int], m.workers@[worker as int]),
                _ => true,
            } by {
                if i > 0 {
                    assert(b[i] == rows[i - 1]);
                }
            }
        }
        assert(workers_within(a + b, m.workers@.len() as int));
        assert(tasks_within(m, a + b));
    }
}

/// By group: how many of its shown workers need a person, and why.
pub fn group_visible_severities(
    model: &Model,
    filter: &Filter,
    live: &LiveIndex,
    blockers: &BlockerIndex,
) -> (r: HashMap<usize, SeverityCounts>)
    requires
        model.wf(),
    ensures
        r@ == severities_in(*model, walk(*model, filter.query@), live@, blockers@),
{
    let ev = walk_workers(model, filter);
    let ntasks: usize = model.tasks.len();
    let mut r: HashMap<usize, SeverityCounts> = HashMap::new();
    let mut cur: Option<usize> = None;
    let mut i: usize = 0;
    proof {
        walk_stays_within_the_reading(*model, filter.query@, model.groups@.len() as int);
    }
    while i < ev.len()
        invariant
            i <= ev@.len(),
            workers_within(ev@, model.workers@.len() as int),
            cur == under(ev@.take(i as int)),
            r@ == severities_in(*model, ev@.take(i as int), live@, blockers@),
        decreases ev@.len() - i,
    {
        proof {
            assert(ev@.take(i + 1).drop_last() =~= ev@.take(i as int));
        }
        match ev[i] {
            WalkEvent::GroupHead(g) => {
                cur = Some(g);
            },
            WalkEvent::Row(Row::Worker(wi)) => {
                assert(ev@[i as int] == WalkEvent::Row(Row::Worker(wi)));
                if let Some(g) = cur {
                    proof {
                        lemma_severities_len(*model, ev@.take(i as int), live@, blockers@, g);
                    }
                    let mut c: SeverityCounts = match r.get(&g) {
                        Some(c) => *c,
                        None => SeverityCounts { blocked: 0, dead: 0, failed: 0 },
                    };
                    match worker_severity(model, wi, live, blockers) {
                        Severity::Blocked => {
                            c.blocked = c.blocked + 1;
                        },
                        Severity::Dead => {
                            c.dead = c.dead + 1;
                        },
                        Severity::Failed => {
                            c.failed = c.failed + 1;
                        },
                        Severity::Nothing => {},
                    }
                    r.insert(g, c);
                }
            },
            WalkEvent::Row(Row::Task { .. }) => {},
        }
        i += 1;
    }
    proof {
        assert(ev@.take(i as int) =~= ev@);
    }
    r
}

/// The identity of a row. It outlives the row's place: rows come and go above it.
#[derive(Clone, PartialEq, Eq, Debug)]
pub enum RowKey {
    /// A worker by its name and generation: one that was spawned again under the name is
    /// another.
    Worker { name: String, spawn_tag: String },
    /// A task by its id.
    Task(String),
}

/// The identity of a row.
pub enum RowKeyView {
    Worker { name: Seq<char>, spawn_tag: Seq<char> },
    Task(Seq<char>),
}

impl View for RowKey {
    type V = RowKeyView;

    open spec fn view(&self) -> RowKeyView {
        match self {
            RowKey::Worker { name, spawn_tag } => RowKeyView::Worker {
                name: name@,
                spawn_tag: spawn_tag@,
            },
            RowKey::Task(id) => RowKeyView::Task(id@),
        }
    }
}

/// Whether a row speaks of a worker and a task that there are.
pub open spec fn row_within(m: Model, row: Row) -> bool {
    match row {
        Row::Worker(wi) => wi < m.workers@.len(),
        Row::Task { worker, task } => worker < m.workers@.len() && task < m.tasks@.len(),
    }
}

/// The identity of a row.
pub open spec fn key_of_row(m: Model, row: Row) -> RowKeyView {
    match row {
        Row::Worker(wi) => RowKeyView::Worker {
            name: m.workers@[wi as int].name@,
            spawn_tag: m.workers@[wi as int].spawn_tag@,
        },
        Row::Task { task, .. } => RowKeyView::Task(m.tasks@[task as int].id@),
    }
}

/// The identity of a row.
pub fn row_key(model: &Model, row: Row) -> (r: RowKey)
    requires
        row_within(*model, row),
    ensures
        r@ == key_of_row(*model, row),
{
    match row {
        Row::Worker(wi) => RowKey::Worker {
            name: copy_text(model.workers[wi].name.as_str()),
            spawn_tag: copy_text(model.workers[wi].spawn_tag.as_str()),
        },
        Row::Task { task, .. } => RowKey::Task(copy_text(model.tasks[task].id.as_str())),
    }
}

/// The first row from `from` on with the identity `k`.
pub open spec fn row_with_key(m: Model, rows: Seq<Row>, k: RowKeyView, from: int) -> Option<int>
    decreases rows.len() - from,
{
    if from < 0 || from >= rows.len() {
        None
    } else if key_of_row(m, rows[from]) == k {
        Some(from)
    } else {
        row_with_key(m, rows, k, from + 1)
    }
}

/// Whether two identities are the same.
pub fn key_eq(a: &RowKey, b: &RowKey) -> (r: bool)
    ensures
        r == (a@ == b@),
{
    match (a, b) {
        (
            RowKey::Worker { name: n1, spawn_tag: t1 },
            RowKey::Worker { name: n2, spawn_tag: t2 },
        ) => same(n1.as_str(), n2.as_str()) && same(t1.as_str(), t2.as_str()),
        (RowKey::Task(x), RowKey::Task(y)) => same(x.as_str(), y.as_str()),
        _ => false,
    }
}

/// Every row of a walk speaks of a worker and a task that there are.
pub proof fn lemma_rows_within(m: Model, ev: Seq<WalkEvent>)
    requires
        workers_within(ev, m.workers@.len() as int),
        tasks_within(m, ev),
    ensures
        forall|i: int| 0 <= i < rows_in(ev).len() ==> row_within(m, #[trigger] rows_in(ev)[i]),
    decreases ev.len(),
{
    if ev.len() > 0 {
        let t = ev.drop_last();
        assert forall|i: int| 0 <= i < t.len() implies t[i] == #[trigger] ev[i] by {}
        assert(workers_within(t, m.workers@.len() as int)) by {
            assert forall|i: int| 0 <= i < t.len() implies match #[trigger] t[i] {
                WalkEvent::Row(Row::Worker(wi)) => wi < m.workers@.len(),
                WalkEvent::Row(Row::Task { worker, .. }) => worker < m.workers@.len(),
                WalkEvent::GroupHead(_) => true,
            } by {
                assert(t[i] == ev[i]);
            }
        }
        assert(tasks_within(m, t)) by {
            assert forall|i: int| 0 <= i < t.len() implies match #[trigger] t[i] {
                WalkEvent::Row(Row::Task { worker, task }) => task < m.tasks@.len()
                    && registry::belongs(m.tasks@[task as int], m.workers@[worker as int]),
                _ => true,
            } by {
                assert(t[i] == ev[i]);
            }
        }
        lemma_rows_within(m, t);
        assert(ev[ev.len() - 1] == ev.last());
        assert forall|i: int| 0 <= i < rows_in(ev).len() implies row_within(
            m,
            #[trigger] rows_in(ev)[i],
        ) by {
            if i < rows_in(t).len() {
                assert(rows_in(ev)[i] == rows_in(t)[i]);
            }
        }
    }
}

/// The rows of the worker list speak of workers and tasks that there are.
pub proof fn lemma_worker_rows_within(m: Model, q: Seq<char>)
    requires
        m.wf(),
        m.tasks@.len() <= usize::MAX,
    ensures
        forall|i: int|
            0 <= i < rows_in(walk(m, q)).len() ==> row_within(m, #[trigger] rows_in(walk(m, q))[i]),
{
    walk_stays_within_the_reading(m, q, m.groups@.len() as int);
    lemma_rows_within(m, walk(m, q));
}

/// The line of a row of the worker list; the row's number where there is no such row.
pub open spec fn line_at(lines: Seq<int>, row: int) -> int {
    if 0 <= row < lines.len() {
        lines[row]
    } else {
        row
    }
}

/// The first line of a row of the worker list.
pub fn worker_line_of(model: &Model, filter: &Filter, row_idx: usize) -> (r: usize)
    requires
        model.wf(),
    ensures
        r == line_at(capped_all(lines_in(walk(*model, filter.query@))), row_idx as int),
{
    let lines = worker_row_lines(model, filter);
    proof {
        assert(lineage::ints(lines@).len() == lines@.len());
    }
    if row_idx < lines.len() {
        proof {
            assert(lineage::ints(lines@)[row_idx as int] == lines@[row_idx as int] as int);
        }
        lines[row_idx]
    } else {
        row_idx
    }
}

/// The first row from `from` on whose line is at least `x`.
pub open spec fn first_reaching(lines: Seq<int>, x: int, from: int) -> Option<int>
    decreases lines.len() - from,
{
    if from < 0 || from >= lines.len() {
        None
    } else if lines[from] >= x {
        Some(from)
    } else {
        first_reaching(lines, x, from + 1)
    }
}

/// The last of the first `n` rows whose line is at most `x`.
pub open spec fn last_within(lines: Seq<int>, x: int, n: int) -> Option<int>
    decreases n,
{
    if n <= 0 || n > lines.len() {
        None
    } else if lines[n - 1] <= x {
        Some(n - 1)
    } else {
        last_within(lines, x, n - 1)
    }
}

/// The row that a page further leads to: down, the first row from a page below on, or the last;
/// up, the last row up to a page above, or the first. A page has at least one line.
pub open spec fn page_target(lines: Seq<int>, row: int, page: int, down: bool) -> int {
    let cur = if 0 <= row < lines.len() {
        lines[row]
    } else {
        0
    };
    let p = if page < 1 {
        1
    } else {
        page
    };
    if lines.len() == 0 {
        0
    } else if down {
        match first_reaching(lines, cur + p, 0) {
            Some(i) => i,
            None => lines.len() - 1,
        }
    } else {
        match last_within(lines, if cur < p { 0 } else { cur - p }, lines.len() as int) {
            Some(i) => i,
            None => 0,
        }
    }
}

/// The row that a page further leads to. A page is a number of lines: headers take lines, so
/// a number of rows would pass rows over.
pub fn worker_page_row(
    model: &Model,
    filter: &Filter,
    row_idx: usize,
    page_lines: usize,
    down: bool,
) -> (r: usize)
    requires
        model.wf(),
    ensures
        r == page_target(
            capped_all(lines_in(walk(*model, filter.query@))),
            row_idx as int,
            page_lines as int,
            down,
        ),
{
    let v = worker_row_lines(model, filter);
    let ghost lines = lineage::ints(v@);
    proof {
        assert(lines.len() == v@.len());
    }
    if v.len() == 0 {
        return 0;
    }
    let cur: usize = if row_idx < v.len() {
        assert(lines[row_idx as int] == v@[row_idx as int] as int);
        v[row_idx]
    } else {
        0
    };
    let page: usize = if page_lines < 1 {
        1
    } else {
        page_lines
    };
    if down {
        match reach_from(&v, cur, page) {
            Some(i) => i,
            None => v.len() - 1,
        }
    } else {
        let target: usize = if cur < page {
            0
        } else {
            cur - page
        };
        match within(&v, target) {
            Some(i) => i,
            None => 0,
        }
    }
}

/// The first row whose line is at least `page` below `cur`.
fn reach_from(v: &Vec<usize>, cur: usize, page: usize) -> (r: Option<usize>)
    ensures
        model::opt_index(r) == first_reaching(lineage::ints(v@), cur + page, 0),
        r matches Some(i) ==> i < v@.len(),
{
    let ghost lines = lineage::ints(v@);
    let mut i: usize = 0;
    while i < v.len()
        invariant
            i <= v@.len(),
            lines == lineage::ints(v@),
            first_reaching(lines, cur + page, 0) == first_reaching(lines, cur + page, i as int),
        decreases v@.len() - i,
    {
        assert(lines[i as int] == v@[i as int] as int);
        if v[i] >= page && v[i] - page >= cur {
            return Some(i);
        }
        i += 1;
    }
    None
}

/// The last row whose line is at most `target`.
fn within(v: &Vec<usize>, target: usize) -> (r: Option<usize>)
    ensures
        model::opt_index(r) == last_within(lineage::ints(v@), target as int, v@.len() as int),
        r matches Some(i) ==> i < v@.len(),
{
    let ghost lines = lineage::ints(v@);
    let mut n: usize = v.len();
    while n > 0
        invariant
            n <= v@.len(),
            lines == lineage::ints(v@),
            last_within(lines, target as int, v@.len() as int) == last_within(
                lines,
                target as int,
                n as int,
            ),
        decreases n,
    {
        assert(lines[n - 1] == v@[n - 1] as int);
        if v[n - 1] <= target {
            return Some(n - 1);
        }
        n -= 1;
    }
    None
}

/// Whether lines strictly ascend.
pub open spec fn lines_ascend(lines: Seq<int>) -> bool {
    forall|i: int, j: int| #![trigger lines[i], lines[j]] 0 <= i < j < lines.len() ==> lines[i] < lines[j]
}

/// The first row that reaches a line.
proof fn lemma_first_reaching(lines: Seq<int>, x: int, from: int)
    requires
        0 <= from <= lines.len(),
    ensures
        match first_reaching(lines, x, from) {
            Some(i) => from <= i < lines.len() && lines[i] >= x && forall|k: int|
                from <= k < i ==> #[trigger] lines[k] < x,
            None => forall|k: int| from <= k < lines.len() ==> #[trigger] lines[k] < x,
        },
    decreases lines.len() - from,
{
    if from < lines.len() && lines[from] < x {
        lemma_first_reaching(lines, x, from + 1);
    }
}

/// The last row within a line.
proof fn lemma_last_within(lines: Seq<int>, x: int, n: int)
    requires
        0 <= n <= lines.len(),
    ensures
        match last_within(lines, x, n) {
            Some(i) => 0 <= i < n && lines[i] <= x && forall|k: int|
                i < k < n ==> #[trigger] lines[k] > x,
            None => forall|k: int| 0 <= k < n ==> #[trigger] lines[k] > x,
        },
    decreases n,
{
    if n > 0 && lines[n - 1] > x {
        lemma_last_within(lines, x, n - 1);
    }
}

/// A page down passes no row over: every row between starts less than a page below the row it
/// started from. It moves unless it stands on the last row.
pub proof fn page_down_passes_no_row_over(lines: Seq<int>, row: int, page: int)
    requires
        lines_ascend(lines),
        0 <= row < lines.len(),
    ensures
        row <= page_target(lines, row, page, true) < lines.len(),
        row < lines.len() - 1 ==> page_target(lines, row, page, true) > row,
        forall|k: int|
            row < k < page_target(lines, row, page, true) ==> #[trigger] lines[k] < lines[row] + (
            if page < 1 {
                1
            } else {
                page
            }),
{
    let p = if page < 1 { 1 } else { page };
    lemma_first_reaching(lines, lines[row] + p, 0);
    if let Some(i) = first_reaching(lines, lines[row] + p, 0) {
        if i <= row {
            if i < row {
                assert(lines[i] < lines[row]);
            }
        }
    }
}

/// A page up passes no row over: every row between starts less than a page above the row it
/// started from. It moves unless it stands on the first row.
pub proof fn page_up_passes_no_row_over(lines: Seq<int>, row: int, page: int)
    requires
        lines_ascend(lines),
        0 <= row < lines.len(),
        lines[0] >= 0,
    ensures
        0 <= page_target(lines, row, page, false) <= row,
        row > 0 ==> page_target(lines, row, page, false) < row,
        forall|k: int|
            page_target(lines, row, page, false) < k < row ==> #[trigger] lines[k] > lines[row] - (
            if page < 1 {
                1
            } else {
                page
            }),
{
    let p = if page < 1 { 1 } else { page };
    let cur = lines[row];
    let x = if cur < p { 0 } else { cur - p };
    lemma_last_within(lines, x, lines.len() as int);
    match last_within(lines, x, lines.len() as int) {
        Some(i) => {
            if i >= row {
                if i > row {
                    assert(lines[row] < lines[i]);
                }
                assert(lines[row] <= x);
                if row > 0 {
                    assert(lines[0] < lines[row]);
                }
            }
            assert forall|k: int| i < k < row implies #[trigger] lines[k] > lines[row] - p by {
                assert(lines[k] > x);
            }
        },
        None => {
            assert forall|k: int| 0 < k < row implies #[trigger] lines[k] > lines[row] - p by {
                assert(lines[k] > x);
            }
        },
    }
}

/// The rows of a walk and the lines that they start on go together: there is a line for every
/// row, a row ends before the next one starts, and none ends after the last line.
pub proof fn rows_and_lines_go_together(ev: Seq<WalkEvent>)
    ensures
        rows_in(ev).len() == lines_in(ev).len(),
        lines_ascend(lines_in(ev)),
        forall|i: int, j: int|
            #![trigger lines_in(ev)[i], lines_in(ev)[j]]
            0 <= i < j < lines_in(ev).len() ==> lines_in(ev)[i] + height(rows_in(ev)[i])
                <= lines_in(ev)[j],
        forall|i: int|
            0 <= i < lines_in(ev).len() ==> 0 <= #[trigger] lines_in(ev)[i] && lines_in(ev)[i]
                + height(rows_in(ev)[i]) <= lines_total(ev),
        ev.len() > 0 && ev.last() is Row ==> lines_in(ev).len() > 0 && lines_in(ev).last() + height(
            rows_in(ev).last(),
        ) == lines_total(ev),
    decreases ev.len(),
{
    if ev.len() > 0 {
        let t = ev.drop_last();
        rows_and_lines_go_together(t);
        lemma_lines_nonnegative(t);
        let a = lines_in(t);
        let b = lines_in(ev);
        let ra = rows_in(t);
        let rb = rows_in(ev);
        if ev.last() is Row {
            assert(b == a.push(lines_total(t)));
            assert forall|i: int, j: int| #![trigger b[i], b[j]] 0 <= i < j < b.len() implies b[i]
                + height(rb[i]) <= b[j] && b[i] < b[j] by {
                assert(b[i] == a[i] && rb[i] == ra[i]);
                if j < a.len() {
                    assert(b[j] == a[j]);
                }
            }
            assert forall|i: int| 0 <= i < b.len() implies 0 <= #[trigger] b[i] && b[i] + height(rb[i])
                <= lines_total(ev) by {
                if i < a.len() {
                    assert(b[i] == a[i] && rb[i] == ra[i]);
                }
            }
        }
    }
}

/// A walk that is not empty ends in a row: no header is left without a row under it.
pub proof fn walk_ends_in_a_row(m: Model, q: Seq<char>, n: int)
    requires
        0 <= n <= m.groups@.len(),
    ensures
        walk_upto(m, q, n).len() > 0 ==> walk_upto(m, q, n).last() is Row,
    decreases n,
{
    if n > 0 {
        walk_ends_in_a_row(m, q, n - 1);
        let ms = m.groups@[n - 1].members@;
        lemma_members_are_rows(m, q, ms, ms.len() as int);
        let rows = member_events(m, q, ms, ms.len() as int);
        let b = group_events(m, q, n - 1);
        if b.len() > 0 {
            assert(b.last() == rows.last());
            assert(rows[rows.len() - 1] is Row);
            assert(walk_upto(m, q, n).last() == b.last());
        } else {
            assert(walk_upto(m, q, n) =~= walk_upto(m, q, n - 1));
        }
    }
}

/// The rows of members are rows, and the first of them is a worker.
proof fn lemma_members_are_rows(m: Model, q: Seq<char>, members: Seq<usize>, n: int)
    requires
        0 <= n <= members.len(),
    ensures
        forall|i: int|
            0 <= i < member_events(m, q, members, n).len() ==> (#[trigger] member_events(
                m,
                q,
                members,
                n,
            )[i]) is Row,
        tidy(member_events(m, q, members, n)),
    decreases n,
{
    if n > 0 {
        lemma_members_are_rows(m, q, members, n - 1);
        let wi = members[n - 1];
        let a = member_events(m, q, members, n - 1);
        let b = worker_events(m, q, wi);
        let ts = shown_tasks(m, q, wi as int);
        assert forall|i: int| 0 < i < b.len() implies #[trigger] b[i] == WalkEvent::Row(
            Row::Task { worker: wi, task: ts[i - 1] },
        ) by {}
        assert forall|i: int| 0 <= i < b.len() implies (#[trigger] b[i]) is Row by {}
        assert(tidy(b)) by {
            assert forall|i: int| 0 <= i < b.len() implies #[trigger] task_fits(b, i) by {
                if i > 1 {
                    assert(b[i - 1] == WalkEvent::Row(Row::Task { worker: wi, task: ts[i - 2] }));
                }
            }
        }
        lemma_tidy_concat(a, b);
        let c = a + b;
        assert forall|i: int| 0 <= i < c.len() implies (#[trigger] c[i]) is Row by {
            if i < a.len() {
                assert(c[i] == a[i]);
            } else {
                assert(c[i] == b[i - a.len()]);
            }
        }
    }
}

/// Whether step `i`, where it is a task, follows its worker or another task of that worker.
pub open spec fn task_fits(ev: Seq<WalkEvent>, i: int) -> bool {
    match ev[i] {
        WalkEvent::Row(Row::Task { worker, .. }) => i > 0 && match ev[i - 1] {
            WalkEvent::Row(Row::Worker(w)) => w == worker,
            WalkEvent::Row(Row::Task { worker: w, .. }) => w == worker,
            WalkEvent::GroupHead(_) => false,
        },
        _ => true,
    }
}

/// Whether every task follows its worker or another task of that worker.
pub open spec fn tidy(ev: Seq<WalkEvent>) -> bool {
    forall|i: int| 0 <= i < ev.len() ==> #[trigger] task_fits(ev, i)
}

/// Two tidy walks in a row are tidy.
proof fn lemma_tidy_concat(a: Seq<WalkEvent>, b: Seq<WalkEvent>)
    requires
        tidy(a),
        tidy(b),
    ensures
        tidy(a + b),
{
    let c = a + b;
    assert forall|i: int| 0 <= i < c.len() implies #[trigger] task_fits(c, i) by {
        if i < a.len() {
            assert(task_fits(a, i));
            assert(c[i] == a[i]);
            if i > 0 {
                assert(c[i - 1] == a[i - 1]);
            }
        } else {
            let j = i - a.len();
            assert(task_fits(b, j));
            assert(c[i] == b[j]);
            if j > 0 {
                assert(c[i - 1] == b[j - 1]);
            }
        }
    }
}

/// Whatever is filtered, a task is shown only below its worker: every task follows its worker
/// or another task of that worker.
pub proof fn tasks_follow_their_workers(m: Model, q: Seq<char>, n: int)
    requires
        0 <= n <= m.groups@.len(),
    ensures
        tidy(walk_upto(m, q, n)),
    decreases n,
{
    if n > 0 {
        tasks_follow_their_workers(m, q, n - 1);
        let ms = m.groups@[n - 1].members@;
        let rows = member_events(m, q, ms, ms.len() as int);
        lemma_members_are_rows(m, q, ms, ms.len() as int);
        let b = group_events(m, q, n - 1);
        if rows.len() > 0 {
            let h = seq![WalkEvent::GroupHead((n - 1) as usize)];
            assert(tidy(h)) by {
                assert forall|i: int| 0 <= i < h.len() implies #[trigger] task_fits(h, i) by {}
            }
            lemma_tidy_concat(h, rows);
        }
        lemma_tidy_concat(walk_upto(m, q, n - 1), b);
    }
}

/// Without a filter every worker of every group is in the walk.
pub proof fn no_filter_hides_nobody(m: Model, q: Seq<char>, n: int, g: int, i: int)
    requires
        q.len() == 0,
        0 <= g < n <= m.groups@.len(),
        0 <= i < m.groups@[g].members@.len(),
    ensures
        walk_upto(m, q, n).contains(WalkEvent::Row(Row::Worker(m.groups@[g].members@[i]))),
    decreases n,
{
    let x = WalkEvent::Row(Row::Worker(m.groups@[g].members@[i]));
    let a = walk_upto(m, q, n - 1);
    let b = group_events(m, q, n - 1);
    if g < n - 1 {
        no_filter_hides_nobody(m, q, n - 1, g, i);
        let k = a.index_of(x);
        assert((a + b)[k] == x);
    } else {
        let ms = m.groups@[g].members@;
        let rows = member_events(m, q, ms, ms.len() as int);
        lemma_member_shown(m, q, ms, ms.len() as int, i);
        let k = rows.index_of(x);
        assert(b[k + 1] == x);
        assert((a + b)[a.len() + k + 1] == x);
    }
}

/// Without a filter a member is among the rows.
proof fn lemma_member_shown(m: Model, q: Seq<char>, members: Seq<usize>, n: int, i: int)
    requires
        q.len() == 0,
        0 <= i < n <= members.len(),
    ensures
        member_events(m, q, members, n).contains(WalkEvent::Row(Row::Worker(members[i]))),
    decreases n,
{
    let x = WalkEvent::Row(Row::Worker(members[i]));
    let a = member_events(m, q, members, n - 1);
    let b = worker_events(m, q, members[n - 1]);
    if i < n - 1 {
        lemma_member_shown(m, q, members, n - 1, i);
        let k = a.index_of(x);
        assert((a + b)[k] == x);
    } else {
        assert(b[0] == x);
        assert((a + b)[a.len() as int] == x);
    }
}

/// The lines of the rows lie within the lines of the walk.
proof fn lemma_lines_below_total(ev: Seq<WalkEvent>)
    ensures
        lines_total(ev) >= 0,
        forall|i: int| 0 <= i < lines_in(ev).len() ==> 0 <= #[trigger] lines_in(ev)[i] < lines_total(ev),
    decreases ev.len(),
{
    if ev.len() > 0 {
        let t = ev.drop_last();
        lemma_lines_below_total(t);
        assert forall|i: int| 0 <= i < lines_in(ev).len() implies 0 <= #[trigger] lines_in(ev)[i]
            < lines_total(ev) by {
            if i < lines_in(t).len() {
                assert(lines_in(ev)[i] == lines_in(t)[i]);
            }
        }
    }
}

/// Wherever the lines of the whole list can be counted, every line number is exact.
pub proof fn countable_lines_are_exact(ev: Seq<WalkEvent>)
    requires
        lines_total(ev) <= usize::MAX,
    ensures
        capped_all(lines_in(ev)) == lines_in(ev),
{
    lemma_lines_below_total(ev);
    assert(capped_all(lines_in(ev)) =~= lines_in(ev));
}

/// Whether a worker can claim a task.
pub open spec fn claimed(m: Model, t: InFlight) -> bool {
    exists|i: int| 0 <= i < m.workers@.len() && #[trigger] registry::belongs(t, m.workers@[i])
}

/// Whether a recent task is shown.
pub open spec fn task_shown(m: Model, q: Seq<char>, scope: Scope, t: InFlight) -> bool {
    model::lets_through(q, hay_of(t)) && (scope == Scope::Unattached ==> !claimed(m, t))
}

/// Those of the first `n` recent tasks that are shown.
pub open spec fn task_rows_upto(m: Model, q: Seq<char>, scope: Scope, n: int) -> Seq<int>
    decreases n,
{
    if n <= 0 {
        Seq::empty()
    } else if task_shown(m, q, scope, m.recent@[n - 1]) {
        task_rows_upto(m, q, scope, n - 1).push(n - 1)
    } else {
        task_rows_upto(m, q, scope, n - 1)
    }
}

/// The rows of the task list.
pub open spec fn task_rows_of(m: Model, q: Seq<char>, scope: Scope) -> Seq<int> {
    task_rows_upto(m, q, scope, m.recent@.len() as int)
}

/// Whether a worker can claim a task.
fn is_claimed(model: &Model, t: &InFlight) -> (r: bool)
    ensures
        r == claimed(*model, *t),
{
    let mut i: usize = 0;
    while i < model.workers.len()
        invariant
            i <= model.workers@.len(),
            forall|j: int| 0 <= j < i ==> !#[trigger] registry::belongs(*t, model.workers@[j]),
        decreases model.workers@.len() - i,
    {
        if attached(t, &model.workers[i]) {
            return true;
        }
        i += 1;
    }
    false
}

/// The rows of the task list, as indices into the recent tasks and in their order. The scope
/// `Unattached` leaves those that no worker at all can claim.
pub fn task_rows(model: &Model, filter: &Filter, scope: Scope) -> (r: Vec<usize>)
    ensures
        lineage::ints(r@) == task_rows_of(*model, filter.query@, scope),
        forall|i: int| 0 <= i < r@.len() ==> #[trigger] r@[i] < model.recent@.len(),
{
    let ghost q = filter.query@;
    let mut r: Vec<usize> = Vec::new();
    let mut n: usize = 0;
    proof {
        assert(lineage::ints(r@) =~= Seq::<int>::empty());
    }
    while n < model.recent.len()
        invariant
            n <= model.recent@.len(),
            q == filter.query@,
            lineage::ints(r@) == task_rows_upto(*model, q, scope, n as int),
            forall|i: int| 0 <= i < r@.len() ==> #[trigger] r@[i] < n,
        decreases model.recent@.len() - n,
    {
        let t = &model.recent[n];
        if filter.matches(task_hay(t).as_str()) {
            let keep = match scope {
                Scope::All => true,
                Scope::Unattached => !is_claimed(model, t),
            };
            if keep {
                let ghost before = r@;
                r.push(n);
                proof {
                    assert(lineage::ints(r@) =~= lineage::ints(before).push(n as int));
                }
            }
        }
        n += 1;
    }
    r
}

/// Whether a status is final.
pub open spec fn terminal(st: Seq<char>) -> bool {
    st == "completed"@ || st == "failed"@ || st == "cancelled"@
}

/// Whether a status is final.
pub fn is_terminal_status(st: &str) -> (r: bool)
    ensures
        r == terminal(st@),
{
    same(st, "completed") || same(st, "failed") || same(st, "cancelled")
}

} // verus!
