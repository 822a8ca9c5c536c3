//! What the two lists hold: which workers and tasks a filter lets through, and where they stand.

use crate::blocker::Blocker;
use crate::live;
use crate::model;
use crate::model::{Model, Scope, Severity};
use crate::registry;
use crate::registry::{AgentSnapshot, InFlight};
use crate::rows;
use crate::rows::{Row, RowKeyView, SeverityCounts, WalkEvent};
use crate::text;
use vstd::prelude::*;

verus! {

/// One text is part of another where it stands somewhere in it, letter by letter.
pub proof fn what_part_of_means(hay: Seq<char>, needle: Seq<char>)
    ensures
        text::contains(hay, needle) <==> exists|a: Seq<char>, b: Seq<char>|
            #[trigger] (a + needle + b) == hay,
{
    if text::contains(hay, needle) {
        let i = choose|i: int| #[trigger] text::stands_at(hay, needle, i);
        let a = hay.take(i);
        let b = hay.skip(i + needle.len());
        assert(a + needle + b =~= hay);
    }
    if exists|a: Seq<char>, b: Seq<char>| #[trigger] (a + needle + b) == hay {
        let (a, b) = choose|a: Seq<char>, b: Seq<char>| #[trigger] (a + needle + b) == hay;
        lemma_part(a, needle, b);
    }
}

/// What stands between two texts is part of the whole.
proof fn lemma_part(a: Seq<char>, n: Seq<char>, b: Seq<char>)
    ensures
        text::contains(a + n + b, n),
{
    assert((a + n + b).subrange(a.len() as int, (a.len() + n.len()) as int) =~= n);
    assert(text::stands_at(a + n + b, n, a.len() as int));
}

/// What is part of a part is part of the whole.
proof fn lemma_part_of_part(a: Seq<char>, n: Seq<char>, b: Seq<char>, q: Seq<char>)
    requires
        text::contains(n, q),
    ensures
        text::contains(a + n + b, q),
{
    let i = choose|i: int| #[trigger] text::stands_at(n, q, i);
    let h = a + n + b;
    assert(h.subrange(a.len() + i, a.len() + i + q.len()) =~= n.subrange(i, i + q.len()));
    assert(text::stands_at(h, q, a.len() + i));
}

/// The task list holds the recent tasks that the filter lets through, in their order and each
/// once: with an empty query all of them, else those in whose id, sender, recipient and status,
/// parted by blanks and with case set aside, the query is found. Where only unattached tasks are
/// wanted, those that belong to no worker.
pub proof fn which_recent_tasks_are_listed(m: Model, q: Seq<char>, scope: Scope)
    ensures
        ({
            let out = rows::task_rows_of(m, q, scope);
            let found = |t: InFlight|
                q.len() == 0 || text::contains(
                    text::lowercase(
                        t.id@ + seq![' '] + t.from@ + seq![' '] + t.to@ + seq![' '] + t.status@,
                    ),
                    text::lowercase(q),
                );
            let free = |t: InFlight|
                forall|w: int|
                    0 <= w < m.workers@.len() ==> !#[trigger] registry::belongs(t, m.workers@[w]);
            &&& forall|k: int| 0 <= k < out.len() ==> 0 <= #[trigger] out[k] < m.recent@.len()
            &&& forall|k: int, l: int|
                #![trigger out[k], out[l]]
                0 <= k < l < out.len() ==> out[k] < out[l]
            &&& forall|i: int|
                #![trigger m.recent@[i]]
                0 <= i < m.recent@.len() ==> (out.contains(i) <==> found(m.recent@[i]) && (scope
                    == Scope::All || free(m.recent@[i])))
        }),
{
    lemma_task_rows(m, q, scope, m.recent@.len() as int);
    assert forall|t: InFlight| #[trigger] rows::hay_of(t) == t.id@ + seq![' '] + t.from@ + seq![' ']
        + t.to@ + seq![' '] + t.status@ by {
        lemma_hay(t);
    }
    assert forall|i: int|
        #![trigger m.recent@[i]]
        0 <= i < m.recent@.len() implies (rows::task_rows_of(m, q, scope).contains(i) <==> (q.len()
        == 0 || text::contains(
        text::lowercase(
            m.recent@[i].id@ + seq![' '] + m.recent@[i].from@ + seq![' '] + m.recent@[i].to@
                + seq![' '] + m.recent@[i].status@,
        ),
        text::lowercase(q),
    )) && (scope == Scope::All || forall|w: int|
        0 <= w < m.workers@.len() ==> !#[trigger] registry::belongs(
            m.recent@[i],
            m.workers@[w],
        ))) by {
        lemma_hay(m.recent@[i]);
    }
}

/// The text of a task that a filter looks through.
proof fn lemma_hay(t: InFlight)
    ensures
        rows::hay_of(t) == t.id@ + seq![' '] + t.from@ + seq![' '] + t.to@ + seq![' ']
            + t.status@,
{
    reveal_strlit(" ");
    assert(" "@ =~= seq![' ']);
}

/// The task rows among the first recent tasks.
proof fn lemma_task_rows(m: Model, q: Seq<char>, scope: Scope, n: int)
    requires
        0 <= n <= m.recent@.len(),
    ensures
        ({
            let out = rows::task_rows_upto(m, q, scope, n);
            &&& forall|k: int| 0 <= k < out.len() ==> 0 <= #[trigger] out[k] < n
            &&& forall|k: int, l: int|
                #![trigger out[k], out[l]]
                0 <= k < l < out.len() ==> out[k] < out[l]
            &&& forall|i: int|
                #![trigger m.recent@[i]]
                0 <= i < n ==> (out.contains(i) <==> rows::task_shown(m, q, scope, m.recent@[i]))
        }),
    decreases n,
{
    if n > 0 {
        lemma_task_rows(m, q, scope, n - 1);
        let before = rows::task_rows_upto(m, q, scope, n - 1);
        let out = rows::task_rows_upto(m, q, scope, n);
        assert forall|i: int|
            #![trigger m.recent@[i]]
            0 <= i < n implies (out.contains(i) <==> rows::task_shown(
            m,
            q,
            scope,
            m.recent@[i],
        )) by {
            if out.len() > before.len() {
                assert(out[before.len() as int] == n - 1);
                if before.contains(i) {
                    let k = before.index_of(i);
                    assert(out[k] == i);
                }
                if out.contains(i) && i < n - 1 {
                    let k = out.index_of(i);
                    assert(before[k] == i);
                }
            } else if before.contains(n - 1) {
                let k = before.index_of(n - 1);
                assert(before[k] == n - 1);
            }
        }
    }
}

/// A recent task is found by each of its parts. Where putting the four into lower case gives the
/// lower case of each, a query is found whenever, with case set aside, it is part of the id, of
/// the sender, of the recipient or of the status.
pub proof fn a_task_is_found_by_its_parts(m: Model, q: Seq<char>, i: int)
    requires
        0 <= i < m.recent@.len(),
        text::lowercase(
            m.recent@[i].id@ + seq![' '] + m.recent@[i].from@ + seq![' '] + m.recent@[i].to@
                + seq![' '] + m.recent@[i].status@,
        ) == text::lowercase(m.recent@[i].id@) + seq![' '] + text::lowercase(m.recent@[i].from@)
            + seq![' '] + text::lowercase(m.recent@[i].to@) + seq![' '] + text::lowercase(
            m.recent@[i].status@,
        ),
        text::contains(text::lowercase(m.recent@[i].id@), text::lowercase(q)) || text::contains(
            text::lowercase(m.recent@[i].from@),
            text::lowercase(q),
        ) || text::contains(text::lowercase(m.recent@[i].to@), text::lowercase(q))
            || text::contains(text::lowercase(m.recent@[i].status@), text::lowercase(q)),
    ensures
        rows::task_rows_of(m, q, Scope::All).contains(i),
{
    which_recent_tasks_are_listed(m, q, Scope::All);
    let t = m.recent@[i];
    let a = text::lowercase(t.id@);
    let b = text::lowercase(t.from@);
    let c = text::lowercase(t.to@);
    let d = text::lowercase(t.status@);
    let s = seq![' '];
    let l = text::lowercase(q);
    let whole = a + s + b + s + c + s + d;
    let none = Seq::<char>::empty();
    if text::contains(a, l) {
        lemma_part_of_part(none, a, s + b + s + c + s + d, l);
        assert(none + a + (s + b + s + c + s + d) =~= whole);
    } else if text::contains(b, l) {
        lemma_part_of_part(a + s, b, s + c + s + d, l);
        assert(a + s + b + (s + c + s + d) =~= whole);
    } else if text::contains(c, l) {
        lemma_part_of_part(a + s + b + s, c, s + d, l);
        assert(a + s + b + s + c + (s + d) =~= whole);
    } else {
        lemma_part_of_part(a + s + b + s + c + s, d, none, l);
        assert(a + s + b + s + c + s + d + none =~= whole);
    }
}

/// Whether a filter finds a task below its worker.
pub open spec fn finds_task(q: Seq<char>, t: InFlight) -> bool {
    q.len() == 0 || text::contains(
        text::lowercase(t.id@ + seq![' '] + t.from@ + seq![' '] + t.to@ + seq![' '] + t.status@),
        text::lowercase(q),
    )
}

/// Whether a filter finds a worker by its name.
pub open spec fn finds_worker(q: Seq<char>, w: AgentSnapshot) -> bool {
    q.len() == 0 || text::contains(text::lowercase(w.name@), text::lowercase(q))
}

/// Below a worker stand its unfinished tasks, in their order and each once: all of them where the
/// filter finds the worker, else those that it finds themselves.
pub proof fn which_tasks_stand_below_a_worker(m: Model, q: Seq<char>, wi: int)
    requires
        0 <= wi < m.workers@.len(),
        m.tasks@.len() <= usize::MAX,
    ensures
        ({
            let out = rows::shown_tasks(m, q, wi);
            &&& forall|k: int| 0 <= k < out.len() ==> #[trigger] out[k] < m.tasks@.len()
            &&& forall|k: int, l: int|
                #![trigger out[k], out[l]]
                0 <= k < l < out.len() ==> out[k] < out[l]
            &&& forall|i: int|
                #![trigger m.tasks@[i]]
                0 <= i < m.tasks@.len() ==> (out.contains(i as usize) <==> registry::belongs(
                    m.tasks@[i],
                    m.workers@[wi],
                ) && (finds_worker(q, m.workers@[wi]) || finds_task(q, m.tasks@[i])))
        }),
{
    lemma_shown(m, q, wi, m.tasks@.len() as int);
}

/// The tasks below a worker among the first ones.
proof fn lemma_shown(m: Model, q: Seq<char>, wi: int, n: int)
    requires
        0 <= wi < m.workers@.len(),
        m.tasks@.len() <= usize::MAX,
        0 <= n <= m.tasks@.len(),
    ensures
        ({
            let out = rows::shown_upto(m, q, wi, n);
            &&& forall|k: int| 0 <= k < out.len() ==> #[trigger] out[k] < n
            &&& forall|k: int, l: int|
                #![trigger out[k], out[l]]
                0 <= k < l < out.len() ==> out[k] < out[l]
            &&& forall|i: int|
                #![trigger m.tasks@[i]]
                0 <= i < n ==> (out.contains(i as usize) <==> registry::belongs(
                    m.tasks@[i],
                    m.workers@[wi],
                ) && (finds_worker(q, m.workers@[wi]) || finds_task(q, m.tasks@[i])))
        }),
    decreases n,
{
    if n > 0 {
        lemma_shown(m, q, wi, n - 1);
        lemma_hay(m.tasks@[n - 1]);
        let before = rows::shown_upto(m, q, wi, n - 1);
        let out = rows::shown_upto(m, q, wi, n);
        assert forall|i: int|
            #![trigger m.tasks@[i]]
            0 <= i < n implies (out.contains(i as usize) <==> registry::belongs(
            m.tasks@[i],
            m.workers@[wi],
        ) && (finds_worker(q, m.workers@[wi]) || finds_task(q, m.tasks@[i]))) by {
            if out.len() > before.len() {
                assert(out[before.len() as int] == n - 1);
                if before.contains(i as usize) {
                    let k = before.index_of(i as usize);
                    assert(out[k] == i);
                }
                if out.contains(i as usize) && i < n - 1 {
                    let k = out.index_of(i as usize);
                    assert(before[k] == i as usize);
                }
            } else if before.contains((n - 1) as usize) {
                let k = before.index_of((n - 1) as usize);
                assert(before[k] == n - 1);
            }
        }
    }
}

/// A worker is listed where the filter finds it or one of its unfinished tasks, and nowhere else;
/// its tasks then follow it at once.
pub proof fn when_a_worker_is_listed(m: Model, q: Seq<char>, wi: usize)
    requires
        wi < m.workers@.len(),
        m.tasks@.len() <= usize::MAX,
    ensures
        ({
            let ev = rows::worker_events(m, q, wi);
            let listed = finds_worker(q, m.workers@[wi as int]) || exists|i: int|
                0 <= i < m.tasks@.len() && #[trigger] registry::belongs(
                    m.tasks@[i],
                    m.workers@[wi as int],
                ) && finds_task(q, m.tasks@[i]);
            &&& listed ==> ev.len() == 1 + rows::shown_tasks(m, q, wi as int).len() && ev[0]
                == WalkEvent::Row(Row::Worker(wi)) && forall|k: int|
                1 <= k < ev.len() ==> #[trigger] ev[k] == WalkEvent::Row(
                    Row::Task { worker: wi, task: rows::shown_tasks(m, q, wi as int)[k - 1] },
                )
            &&& !listed ==> ev.len() == 0
        }),
{
    which_tasks_stand_below_a_worker(m, q, wi as int);
    let out = rows::shown_tasks(m, q, wi as int);
    let w = m.workers@[wi as int];
    if !finds_worker(q, w) {
        if exists|i: int|
            0 <= i < m.tasks@.len() && #[trigger] registry::belongs(m.tasks@[i], w) && finds_task(
                q,
                m.tasks@[i],
            ) {
            let i = choose|i: int|
                0 <= i < m.tasks@.len() && #[trigger] registry::belongs(m.tasks@[i], w)
                    && finds_task(q, m.tasks@[i]);
            assert(out.contains(i as usize));
        } else if out.len() > 0 {
            let i = out[0] as int;
            assert(out.contains(i as usize));
            assert(registry::belongs(m.tasks@[i], w));
        }
    }
}

/// The list goes group by group: the first groups of it are listed as they are without the rest,
/// and a further group adds its heading and its workers, one after the other, or nothing at all
/// where none of them is listed.
pub proof fn groups_are_listed_one_after_the_other(m: Model, q: Seq<char>, n: int)
    requires
        0 <= n < m.groups@.len() <= usize::MAX,
    ensures
        ({
            let before = rows::walk_upto(m, q, n);
            let after = rows::walk_upto(m, q, n + 1);
            let ms = m.groups@[n].members@;
            let body = rows::member_events(m, q, ms, ms.len() as int);
            &&& body.len() == 0 ==> after == before
            &&& body.len() > 0 ==> after == before + seq![WalkEvent::GroupHead(n as usize)] + body
        }),
        rows::walk_upto(m, q, 0).len() == 0,
        rows::walk(m, q) == rows::walk_upto(m, q, m.groups@.len() as int),
{
    let ms = m.groups@[n].members@;
    let body = rows::member_events(m, q, ms, ms.len() as int);
    let before = rows::walk_upto(m, q, n);
    if body.len() == 0 {
        assert(rows::walk_upto(m, q, n + 1) =~= before);
    } else {
        assert(rows::walk_upto(m, q, n + 1) =~= before + seq![WalkEvent::GroupHead(n as usize)]
            + body);
    }
}

/// Within a group the members are listed in the group's order.
pub proof fn members_are_listed_in_order(m: Model, q: Seq<char>, members: Seq<usize>, n: int)
    requires
        0 <= n < members.len(),
    ensures
        rows::member_events(m, q, members, n + 1) == rows::member_events(m, q, members, n)
            + rows::worker_events(m, q, members[n]),
        rows::member_events(m, q, members, 0).len() == 0,
{
}

/// One more thing listed: a heading is a line and no row; a worker is a row of two lines; a task
/// is a row of one line. A row starts on the line below all that stands before it.
pub proof fn rows_and_their_lines(ev: Seq<WalkEvent>, g: usize, wi: usize, ti: usize)
    ensures
        rows::rows_in(ev.push(WalkEvent::GroupHead(g))) == rows::rows_in(ev),
        rows::rows_in(ev.push(WalkEvent::Row(Row::Worker(wi)))) == rows::rows_in(ev).push(
            Row::Worker(wi),
        ),
        rows::rows_in(ev.push(WalkEvent::Row(Row::Task { worker: wi, task: ti })))
            == rows::rows_in(ev).push(Row::Task { worker: wi, task: ti }),
        rows::lines_total(ev.push(WalkEvent::GroupHead(g))) == rows::lines_total(ev) + 1,
        rows::lines_total(ev.push(WalkEvent::Row(Row::Worker(wi)))) == rows::lines_total(ev) + 2,
        rows::lines_total(ev.push(WalkEvent::Row(Row::Task { worker: wi, task: ti })))
            == rows::lines_total(ev) + 1,
        rows::lines_in(ev.push(WalkEvent::GroupHead(g))) == rows::lines_in(ev),
        rows::lines_in(ev.push(WalkEvent::Row(Row::Worker(wi)))) == rows::lines_in(ev).push(
            rows::lines_total(ev),
        ),
        rows::lines_in(ev.push(WalkEvent::Row(Row::Task { worker: wi, task: ti })))
            == rows::lines_in(ev).push(rows::lines_total(ev)),
        rows::rows_in(Seq::empty()).len() == 0,
        rows::lines_total(Seq::empty()) == 0,
        rows::lines_in(Seq::empty()).len() == 0,
{
    assert(ev.push(WalkEvent::GroupHead(g)).drop_last() =~= ev);
    assert(ev.push(WalkEvent::Row(Row::Worker(wi))).drop_last() =~= ev);
    assert(ev.push(WalkEvent::Row(Row::Task { worker: wi, task: ti })).drop_last() =~= ev);
}

/// One more thing listed, in what a heading counts: a heading opens its group and stands before
/// the next row; a worker counts in its group, once, with its severity; a task counts nowhere.
pub proof fn what_a_heading_counts(
    m: Model,
    ev: Seq<WalkEvent>,
    live: live::LiveView,
    blockers: Option<Map<Seq<char>, Blocker>>,
    g: usize,
    wi: usize,
    ti: usize,
)
    ensures
        rows::under(Seq::empty()) is None,
        rows::under(ev.push(WalkEvent::GroupHead(g))) == Some(g),
        rows::under(ev.push(WalkEvent::Row(Row::Worker(wi)))) == rows::under(ev),
        rows::under(ev.push(WalkEvent::Row(Row::Task { worker: wi, task: ti }))) == rows::under(ev),
        rows::heads_in(Seq::empty()) == Map::<usize, usize>::empty(),
        rows::heads_in(ev.push(WalkEvent::GroupHead(g))) == rows::heads_in(ev).insert(
            rows::rows_in(ev).len() as usize,
            g,
        ),
        rows::heads_in(ev.push(WalkEvent::Row(Row::Worker(wi)))) == rows::heads_in(ev),
        rows::heads_in(ev.push(WalkEvent::Row(Row::Task { worker: wi, task: ti })))
            == rows::heads_in(ev),
        rows::visible_in(Seq::empty()) == Map::<usize, usize>::empty(),
        rows::visible_in(ev.push(WalkEvent::GroupHead(g))) == rows::visible_in(ev),
        rows::visible_in(ev.push(WalkEvent::Row(Row::Task { worker: wi, task: ti })))
            == rows::visible_in(ev),
        rows::under(ev) == Some(g) ==> rows::visible_in(ev.push(WalkEvent::Row(Row::Worker(wi))))
            == rows::visible_in(ev).insert(
            g,
            (1 + if rows::visible_in(ev).dom().contains(g) {
                rows::visible_in(ev)[g] as int
            } else {
                0
            }) as usize,
        ),
        rows::severities_in(m, Seq::empty(), live, blockers) == Map::<
            usize,
            SeverityCounts,
        >::empty(),
        rows::severities_in(m, ev.push(WalkEvent::GroupHead(g)), live, blockers)
            == rows::severities_in(m, ev, live, blockers),
        rows::severities_in(
            m,
            ev.push(WalkEvent::Row(Row::Task { worker: wi, task: ti })),
            live,
            blockers,
        ) == rows::severities_in(m, ev, live, blockers),
        rows::under(ev) == Some(g) ==> ({
            let before = rows::severities_in(m, ev, live, blockers);
            let c = if before.dom().contains(g) {
                before[g]
            } else {
                SeverityCounts { blocked: 0, dead: 0, failed: 0 }
            };
            let after = rows::severities_in(
                m,
                ev.push(WalkEvent::Row(Row::Worker(wi))),
                live,
                blockers,
            );
            &&& after.dom() == before.dom().insert(g)
            &&& forall|h: usize| h != g && before.dom().contains(h) ==> #[trigger] after[h] == before[h]
            &&& match model::severity_of(m, wi as int, live, blockers) {
                Severity::Blocked => after[g] == (SeverityCounts {
                    blocked: (c.blocked + 1) as usize,
                    dead: c.dead,
                    failed: c.failed,
                }),
                Severity::Dead => after[g] == (SeverityCounts {
                    blocked: c.blocked,
                    dead: (c.dead + 1) as usize,
                    failed: c.failed,
                }),
                Severity::Failed => after[g] == (SeverityCounts {
                    blocked: c.blocked,
                    dead: c.dead,
                    failed: (c.failed + 1) as usize,
                }),
                Severity::Nothing => after[g] == c,
            }
        }),
{
    assert(ev.push(WalkEvent::GroupHead(g)).drop_last() =~= ev);
    assert(ev.push(WalkEvent::Row(Row::Worker(wi))).drop_last() =~= ev);
    assert(ev.push(WalkEvent::Row(Row::Task { worker: wi, task: ti })).drop_last() =~= ev);
}

/// Two worker rows are the same row, in this reading or the next, where the name and the
/// generation are the same; two task rows where the id is; and a worker is never a task.
pub proof fn when_rows_are_the_same(a: Model, b: Model, i: usize, j: usize, w: usize, v: usize)
    requires
        i < a.workers@.len(),
        j < b.workers@.len(),
    ensures
        rows::key_of_row(a, Row::Worker(i)) == rows::key_of_row(b, Row::Worker(j)) <==> (
        a.workers@[i as int].name@ == b.workers@[j as int].name@ && a.workers@[i as int].spawn_tag@
            == b.workers@[j as int].spawn_tag@),
        rows::key_of_row(a, Row::Task { worker: w, task: i }) == rows::key_of_row(
            b,
            Row::Task { worker: v, task: j },
        ) <==> a.tasks@[i as int].id@ == b.tasks@[j as int].id@,
        rows::key_of_row(a, Row::Worker(i)) != rows::key_of_row(b, Row::Task { worker: v, task: j }),
{
}

/// A row is found again by its key at the first place that has it.
pub proof fn where_a_row_is_found_again(m: Model, rs: Seq<Row>, k: RowKeyView, from: int)
    requires
        0 <= from <= rs.len(),
    ensures
        match rows::row_with_key(m, rs, k, from) {
            Some(i) => from <= i < rs.len() && rows::key_of_row(m, rs[i]) == k && forall|j: int|
                from <= j < i ==> rows::key_of_row(m, #[trigger] rs[j]) != k,
            None => forall|j: int|
                from <= j < rs.len() ==> rows::key_of_row(m, #[trigger] rs[j]) != k,
        },
    decreases rs.len() - from,
{
    if from < rs.len() && rows::key_of_row(m, rs[from]) != k {
        where_a_row_is_found_again(m, rs, k, from + 1);
    }
}

/// A page down leads to the first row that stands a page below, else to the last row; a page up to
/// the last row that stands a page above, else to the first.
pub proof fn where_a_page_leads(lines: Seq<int>, row: int, page: int)
    requires
        0 <= row < lines.len(),
        rows::lines_ascend(lines),
        lines[0] >= 0,
    ensures
        ({
            let p = if page < 1 {
                1
            } else {
                page
            };
            let d = rows::page_target(lines, row, page, true);
            let u = rows::page_target(lines, row, page, false);
            &&& 0 <= d < lines.len() && 0 <= u < lines.len()
            &&& lines[d] >= lines[row] + p || d == lines.len() - 1
            &&& forall|i: int| 0 <= i < d ==> #[trigger] lines[i] < lines[row] + p
            &&& lines[u] <= lines[row] - p || u == 0
            &&& forall|i: int| u < i < lines.len() ==> #[trigger] lines[i] > lines[row] - p
        }),
{
    let p = if page < 1 {
        1
    } else {
        page
    };
    lemma_first_reaching(lines, lines[row] + p, 0);
    let x = if lines[row] < p {
        0
    } else {
        lines[row] - p
    };
    lemma_last_within(lines, x, lines.len() as int);
    assert forall|i: int| rows::page_target(lines, row, page, false) < i < lines.len() implies
        #[trigger] lines[i] > lines[row] - p by {
        assert(lines[0] <= lines[i]);
    }
}

/// The first line that reaches a mark.
proof fn lemma_first_reaching(lines: Seq<int>, x: int, from: int)
    requires
        0 <= from <= lines.len(),
    ensures
        match rows::first_reaching(lines, x, from) {
            Some(i) => from <= i < lines.len() && lines[i] >= x && forall|j: int|
                from <= j < i ==> #[trigger] lines[j] < x,
            None => forall|j: int| from <= j < lines.len() ==> #[trigger] lines[j] < x,
        },
    decreases lines.len() - from,
{
    if from < lines.len() && lines[from] < x {
        lemma_first_reaching(lines, x, from + 1);
    }
}

/// The last line within a mark.
proof fn lemma_last_within(lines: Seq<int>, x: int, n: int)
    requires
        0 <= n <= lines.len(),
    ensures
        match rows::last_within(lines, x, n) {
            Some(i) => 0 <= i < n && lines[i] <= x && forall|j: int|
                i < j < n ==> #[trigger] lines[j] > x,
            None => forall|j: int| 0 <= j < n ==> #[trigger] lines[j] > x,
        },
    decreases n,
{
    if n > 0 && lines[n - 1] > x {
        lemma_last_within(lines, x, n - 1);
    }
}

/// A task is finished where it is completed, failed or cancelled.
pub proof fn which_tasks_are_finished(st: Seq<char>)
    ensures
        rows::terminal(st) <==> st == "completed"@ || st == "failed"@ || st == "cancelled"@,
{
}

/// The unfinished tasks of a worker are those that belong to it, in their order and each once.
pub proof fn the_tasks_of_a_worker(ts: Seq<InFlight>, w: AgentSnapshot, n: int)
    requires
        0 <= n <= ts.len(),
    ensures
        ({
            let out = model::tasks_upto(ts, w, n);
            &&& forall|k: int| 0 <= k < out.len() ==> 0 <= #[trigger] out[k] < n
            &&& forall|k: int, l: int|
                #![trigger out[k], out[l]]
                0 <= k < l < out.len() ==> out[k] < out[l]
            &&& forall|i: int|
                #![trigger ts[i]]
                0 <= i < n ==> (out.contains(i) <==> registry::belongs(ts[i], w))
        }),
    decreases n,
{
    if n > 0 {
        the_tasks_of_a_worker(ts, w, n - 1);
        let before = model::tasks_upto(ts, w, n - 1);
        let out = model::tasks_upto(ts, w, n);
        assert forall|i: int|
            #![trigger ts[i]]
            0 <= i < n implies (out.contains(i) <==> registry::belongs(ts[i], w)) by {
            if out.len() > before.len() {
                assert(out[before.len() as int] == n - 1);
                if before.contains(i) {
                    let k = before.index_of(i);
                    assert(out[k] == i);
                }
                if out.contains(i) && i < n - 1 {
                    let k = out.index_of(i);
                    assert(before[k] == i);
                }
            } else if before.contains(n - 1) {
                let k = before.index_of(n - 1);
                assert(before[k] == n - 1);
            }
        }
    }
}

/// A task is claimed by a worker where it belongs to that worker and to no other; where it belongs
/// to none, or to two, nobody claims it.
pub proof fn who_claims_a_task(ws: Seq<AgentSnapshot>, t: InFlight, i: int, j: int)
    requires
        0 <= i < ws.len(),
        0 <= j < ws.len(),
    ensures
        registry::belongs(t, ws[i]) && (forall|k: int|
            0 <= k < ws.len() && k != i ==> !registry::belongs(t, #[trigger] ws[k]))
            ==> model::claimant(ws, t) == Some(i),
        i != j && registry::belongs(t, ws[i]) && registry::belongs(t, ws[j]) ==> model::claimant(
            ws,
            t,
        ) is None,
        (forall|k: int| 0 <= k < ws.len() ==> !registry::belongs(t, #[trigger] ws[k]))
            ==> model::claimant(ws, t) is None,
{
    if registry::belongs(t, ws[i]) && (forall|k: int|
        0 <= k < ws.len() && k != i ==> !registry::belongs(t, #[trigger] ws[k])) {
        assert(model::sole_claim(ws, t, i));
    }
}

/// The tasks of a worker are looked for among all the unfinished ones.
pub proof fn all_tasks_are_looked_through(m: Model, wi: int)
    ensures
        model::worker_tasks(m, wi) == model::tasks_upto(
            m.tasks@,
            m.workers@[wi],
            m.tasks@.len() as int,
        ),
{
}

} // verus!
