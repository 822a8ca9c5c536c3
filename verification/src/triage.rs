//! What the order of the groups on the screen guarantees.

use crate::blocker::Blocker;
use crate::lineage;
use crate::live;
use crate::model;
use crate::model::{Model, Severity};
use crate::registry;
use crate::registry::{AgentSnapshot, InFlight};
use crate::text;
use vstd::prelude::*;

verus! {

/// Whether two readings differ in nothing but their groups.
pub open spec fn same_rows(a: Model, b: Model) -> bool {
    a.workers == b.workers && a.tasks == b.tasks && a.recent == b.recent
}

/// The severity of a group does not depend on the groups.
proof fn lemma_worst_same(
    a: Model,
    b: Model,
    members: Seq<int>,
    n: int,
    live: live::LiveView,
    blockers: Option<Map<Seq<char>, Blocker>>,
)
    requires
        same_rows(a, b),
    ensures
        model::worst_upto(a, members, n, live, blockers) == model::worst_upto(
            b,
            members,
            n,
            live,
            blockers,
        ),
    decreases n,
{
    if n > 0 {
        lemma_worst_same(a, b, members, n - 1, live, blockers);
    }
}

/// The order of the groups is a function of the rows and of what is known of the panes. It
/// does not depend on the order in which the groups stood before, so applying it again changes
/// nothing.
pub proof fn triage_ignores_the_order_before(
    a: Model,
    b: Model,
    live: live::LiveView,
    blockers: Option<Map<Seq<char>, Blocker>>,
)
    requires
        same_rows(a, b),
    ensures
        model::triaged(a, live, blockers) == model::triaged(b, live, blockers),
{
    assert forall|s: Severity| model::has_severity(a, live, blockers, s) == model::has_severity(
        b,
        live,
        blockers,
        s,
    ) by {
        assert forall|g: lineage::GroupView| model::group_worst(a, g.members, live, blockers)
            == model::group_worst(b, g.members, live, blockers) by {
            lemma_worst_same(a, b, g.members, g.members.len() as int, live, blockers);
        }
        assert(model::has_severity(a, live, blockers, s) =~= model::has_severity(b, live, blockers, s));
    }
}

/// The elements of a class come out of a filter for it, and those of another do not.
proof fn lemma_filter_split<A>(
    s: Seq<A>,
    p: spec_fn(A) -> bool,
    q: spec_fn(A) -> bool,
    r: spec_fn(A) -> bool,
    t: spec_fn(A) -> bool,
)
    requires
        forall|x: A| #[trigger] p(x) ==> !q(x) && !r(x) && !t(x),
        forall|x: A| #[trigger] q(x) ==> !r(x) && !t(x),
        forall|x: A| #[trigger] r(x) ==> !t(x),
        forall|x: A| p(x) || q(x) || r(x) || #[trigger] t(x),
    ensures
        (s.filter(p) + s.filter(q) + s.filter(r) + s.filter(t)).to_multiset() == s.to_multiset(),
    decreases s.len(),
{
    broadcast use vstd::seq_lib::group_to_multiset_ensures;

    if s.len() == 0 {
        reveal(Seq::filter);
        assert(s.filter(p) + s.filter(q) + s.filter(r) + s.filter(t) =~= s);
    } else {
        let rest = s.drop_last();
        let x = s.last();
        lemma_filter_split(rest, p, q, r, t);
        assert(s =~= rest.push(x));
        rest.lemma_filter_push(x, p);
        rest.lemma_filter_push(x, q);
        rest.lemma_filter_push(x, r);
        rest.lemma_filter_push(x, t);
        let before = rest.filter(p) + rest.filter(q) + rest.filter(r) + rest.filter(t);
        let after = s.filter(p) + s.filter(q) + s.filter(r) + s.filter(t);
        vstd::seq_lib::lemma_multiset_commutative(rest.filter(p) + rest.filter(q) + rest.filter(r), rest.filter(t));
        vstd::seq_lib::lemma_multiset_commutative(rest.filter(p) + rest.filter(q), rest.filter(r));
        vstd::seq_lib::lemma_multiset_commutative(rest.filter(p), rest.filter(q));
        vstd::seq_lib::lemma_multiset_commutative(s.filter(p) + s.filter(q) + s.filter(r), s.filter(t));
        vstd::seq_lib::lemma_multiset_commutative(s.filter(p) + s.filter(q), s.filter(r));
        vstd::seq_lib::lemma_multiset_commutative(s.filter(p), s.filter(q));
        assert(t(x) || !t(x));
        assert(after.to_multiset() =~= before.to_multiset().insert(x));
        assert(s.to_multiset() =~= rest.to_multiset().insert(x));
    }
}

/// The order only moves whole groups: every group of the workers is there, once.
pub proof fn triage_moves_whole_groups(
    m: Model,
    live: live::LiveView,
    blockers: Option<Map<Seq<char>, Blocker>>,
)
    ensures
        model::triaged(m, live, blockers).to_multiset() == lineage::groups_of(
            m.workers@,
        ).to_multiset(),
{
    lemma_filter_split(
        lineage::groups_of(m.workers@),
        model::has_severity(m, live, blockers, Severity::Blocked),
        model::has_severity(m, live, blockers, Severity::Dead),
        model::has_severity(m, live, blockers, Severity::Failed),
        model::has_severity(m, live, blockers, Severity::Nothing),
    );
}

/// The severity of a group.
pub open spec fn rank_of(
    m: Model,
    g: lineage::GroupView,
    live: live::LiveView,
    blockers: Option<Map<Seq<char>, Blocker>>,
) -> int {
    model::group_worst(m, g.members, live, blockers).rank()
}

/// What comes out of a filter has the property.
proof fn lemma_filtered<A>(s: Seq<A>, p: spec_fn(A) -> bool)
    ensures
        forall|i: int| 0 <= i < s.filter(p).len() ==> p(#[trigger] s.filter(p)[i]),
{
    s.filter_lemma(p);
}

/// No group stands before one that is severer.
pub proof fn triage_puts_the_severest_first(
    m: Model,
    live: live::LiveView,
    blockers: Option<Map<Seq<char>, Blocker>>,
    i: int,
    j: int,
)
    requires
        0 <= i < j < model::triaged(m, live, blockers).len(),
    ensures
        rank_of(m, model::triaged(m, live, blockers)[i], live, blockers) >= rank_of(
            m,
            model::triaged(m, live, blockers)[j],
            live,
            blockers,
        ),
{
    let all = lineage::groups_of(m.workers@);
    let p = model::has_severity(m, live, blockers, Severity::Blocked);
    let q = model::has_severity(m, live, blockers, Severity::Dead);
    let r = model::has_severity(m, live, blockers, Severity::Failed);
    let t = model::has_severity(m, live, blockers, Severity::Nothing);
    lemma_filtered(all, p);
    lemma_filtered(all, q);
    lemma_filtered(all, r);
    lemma_filtered(all, t);
    let a = all.filter(p).len() as int;
    let b = a + all.filter(q).len();
    let c = b + all.filter(r).len();
    let out = model::triaged(m, live, blockers);
    assert forall|k: int| 0 <= k < out.len() implies #[trigger] rank_of(m, out[k], live, blockers)
        == (if k < a {
        3int
    } else if k < b {
        2
    } else if k < c {
        1
    } else {
        0
    }) by {
        if k < a {
            assert(out[k] == all.filter(p)[k]);
        } else if k < b {
            assert(out[k] == all.filter(q)[k - a]);
        } else if k < c {
            assert(out[k] == all.filter(r)[k - b]);
        } else {
            assert(out[k] == all.filter(t)[k - c]);
        }
    }
    assert(rank_of(m, out[i], live, blockers) >= rank_of(m, out[j], live, blockers));
}

/// A pane of which nothing is known, and a prompt of which nothing is known, give no worker a
/// higher place.
pub proof fn unknown_never_floats(
    m: Model,
    wi: int,
    live: live::LiveView,
    blockers: Option<Map<Seq<char>, Blocker>>,
)
    requires
        live.panes is None,
        blockers is None,
    ensures
        model::severity_of(m, wi, live, blockers) == Severity::Nothing || model::severity_of(
            m,
            wi,
            live,
            blockers,
        ) == Severity::Failed,
        model::severity_of(m, wi, live, blockers) == Severity::Failed <==> model::ended_in_failure(
            m,
            m.workers@[wi],
        ),
{
}

/// Where nothing is severe, the groups stand in their own order.
pub proof fn calm_groups_keep_their_order(
    m: Model,
    live: live::LiveView,
    blockers: Option<Map<Seq<char>, Blocker>>,
)
    requires
        forall|g: int|
            0 <= g < lineage::groups_of(m.workers@).len() ==> #[trigger] rank_of(
                m,
                lineage::groups_of(m.workers@)[g],
                live,
                blockers,
            ) == 0,
    ensures
        model::triaged(m, live, blockers) == lineage::groups_of(m.workers@),
{
    let all = lineage::groups_of(m.workers@);
    let p = model::has_severity(m, live, blockers, Severity::Blocked);
    let q = model::has_severity(m, live, blockers, Severity::Dead);
    let r = model::has_severity(m, live, blockers, Severity::Failed);
    let t = model::has_severity(m, live, blockers, Severity::Nothing);
    assert forall|g: int| 0 <= g < all.len() implies t(#[trigger] all[g]) && !p(all[g]) && !q(all[g])
        && !r(all[g]) by {
        assert(rank_of(m, all[g], live, blockers) == 0);
    }
    lemma_filter_all(all, t);
    lemma_filter_none(all, p);
    lemma_filter_none(all, q);
    lemma_filter_none(all, r);
    assert(model::triaged(m, live, blockers) =~= all);
}

/// A filter that everything passes changes nothing.
proof fn lemma_filter_all<A>(s: Seq<A>, p: spec_fn(A) -> bool)
    requires
        forall|i: int| 0 <= i < s.len() ==> p(#[trigger] s[i]),
    ensures
        s.filter(p) == s,
    decreases s.len(),
{
    reveal(Seq::filter);
    if s.len() > 0 {
        lemma_filter_all(s.drop_last(), p);
        assert(p(s[s.len() - 1]));
        assert(s.filter(p) =~= s);
    } else {
        assert(s.filter(p) =~= s);
    }
}

/// A filter that nothing passes leaves nothing.
proof fn lemma_filter_none<A>(s: Seq<A>, p: spec_fn(A) -> bool)
    requires
        forall|i: int| 0 <= i < s.len() ==> !p(#[trigger] s[i]),
    ensures
        s.filter(p) == Seq::<A>::empty(),
    decreases s.len(),
{
    reveal(Seq::filter);
    if s.len() > 0 {
        lemma_filter_none(s.drop_last(), p);
        assert(!p(s[s.len() - 1]));
    }
    assert(s.filter(p) =~= Seq::<A>::empty());
}

/// What stands behind a severity: a worker whose pane is at a prompt is blocked; one whose pane is
/// known to be gone is dead; one whose tasks are all finished, and whose newest recent task failed,
/// has failed; in this order, and nothing else counts.
pub proof fn what_a_severity_means(
    m: Model,
    wi: int,
    live: live::LiveView,
    blockers: Option<Map<Seq<char>, Blocker>>,
)
    requires
        0 <= wi < m.workers@.len(),
    ensures
        ({
            let w = m.workers@[wi];
            let at_prompt = blockers matches Some(b) && b.dom().contains(w.pane@) && b[w.pane@]
                == Blocker::Prompt;
            let gone = live.panes matches Some(ps) && w.pane@.len() > 0 && !ps.dom().contains(
                w.pane@,
            );
            let busy = exists|i: int|
                0 <= i < m.tasks@.len() && #[trigger] registry::belongs(m.tasks@[i], w);
            let failed = exists|i: int|
                0 <= i < m.recent@.len() && #[trigger] registry::belongs(m.recent@[i], w)
                    && m.recent@[i].status@ == "failed"@ && forall|j: int|
                    0 <= j < i ==> !#[trigger] registry::belongs(m.recent@[j], w);
            let s = model::severity_of(m, wi, live, blockers);
            &&& s == Severity::Blocked <==> at_prompt
            &&& s == Severity::Dead <==> !at_prompt && gone
            &&& s == Severity::Failed <==> !at_prompt && !gone && !busy && failed
            &&& s == Severity::Nothing <==> !at_prompt && !gone && (busy || !failed)
        }),
{
    let w = m.workers@[wi];
    newest_task_of_a_worker(m.tasks@, w, m.tasks@.len() as int);
    first_task_of_a_worker(m.recent@, w, 0);
}

/// The newest unfinished task of a worker is one that belongs to it and has the greatest id; there
/// is none only where none belongs to it.
pub proof fn newest_task_of_a_worker(ts: Seq<InFlight>, w: AgentSnapshot, n: int)
    requires
        0 <= n <= ts.len(),
    ensures
        match model::newest_upto(ts, w, n) {
            None => forall|i: int| 0 <= i < n ==> !#[trigger] registry::belongs(ts[i], w),
            Some(k) => {
                &&& 0 <= k < n
                &&& registry::belongs(ts[k], w)
                &&& forall|i: int|
                    0 <= i < n && #[trigger] registry::belongs(ts[i], w) ==> !text::less(
                        ts[k].id@,
                        ts[i].id@,
                    )
            },
        },
    decreases n,
{
    if n > 0 {
        newest_task_of_a_worker(ts, w, n - 1);
        text::lemma_less_irreflexive(ts[n - 1].id@);
        if let Some(j) = model::newest_upto(ts, w, n - 1) {
            if text::less(ts[n - 1].id@, ts[j].id@) && text::less(ts[j].id@, ts[n - 1].id@) {
                text::lemma_less_transitive(ts[n - 1].id@, ts[j].id@, ts[n - 1].id@);
            }
            assert forall|i: int|
                0 <= i < n && #[trigger] registry::belongs(ts[i], w) implies !text::less(
                ts[model::newest_upto(ts, w, n)->0].id@,
                ts[i].id@,
            ) by {
                if registry::belongs(ts[n - 1], w) && i < n - 1 && !text::less(
                    ts[n - 1].id@,
                    ts[j].id@,
                ) && text::less(ts[n - 1].id@, ts[i].id@) {
                    text::lemma_less_total(ts[n - 1].id@, ts[j].id@);
                    if ts[n - 1].id@ != ts[j].id@ {
                        text::lemma_less_transitive(ts[j].id@, ts[n - 1].id@, ts[i].id@);
                    }
                }
            }
        }
    }
}

/// The newest recent task of a worker is the first of the list that belongs to it.
pub proof fn first_task_of_a_worker(ts: Seq<InFlight>, w: AgentSnapshot, from: int)
    requires
        0 <= from <= ts.len(),
    ensures
        match model::first_of(ts, w, from) {
            None => forall|i: int| from <= i < ts.len() ==> !#[trigger] registry::belongs(ts[i], w),
            Some(k) => {
                &&& from <= k < ts.len()
                &&& registry::belongs(ts[k], w)
                &&& forall|i: int| from <= i < k ==> !#[trigger] registry::belongs(ts[i], w)
            },
        },
    decreases ts.len() - from,
{
    if from < ts.len() && !registry::belongs(ts[from], w) {
        first_task_of_a_worker(ts, w, from + 1);
    }
}

/// Blocked is worse than dead, dead than failed, and failed than nothing at all.
pub proof fn how_severities_compare(a: Severity, b: Severity)
    ensures
        a == Severity::Blocked && b != Severity::Blocked ==> a.rank() > b.rank(),
        a == Severity::Dead && (b == Severity::Failed || b == Severity::Nothing) ==> a.rank()
            > b.rank(),
        a == Severity::Failed && b == Severity::Nothing ==> a.rank() > b.rank(),
{
}

/// The severity of a group is the worst of its members': no member is worse, and it is the
/// severity of a member, unless there is nobody in the group or nothing severe.
pub proof fn a_group_is_as_severe_as_its_worst_member(
    m: Model,
    members: Seq<int>,
    n: int,
    live: live::LiveView,
    blockers: Option<Map<Seq<char>, Blocker>>,
)
    requires
        0 <= n <= members.len(),
    ensures
        forall|i: int|
            #![trigger members[i]]
            0 <= i < n ==> model::severity_of(m, members[i], live, blockers).rank()
                <= model::worst_upto(m, members, n, live, blockers).rank(),
        (exists|i: int|
            #![trigger members[i]]
            0 <= i < n && model::severity_of(m, members[i], live, blockers) == model::worst_upto(
                m,
                members,
                n,
                live,
                blockers,
            )) || (n == 0 && model::worst_upto(m, members, n, live, blockers) == Severity::Nothing),
    decreases n,
{
    if n > 0 {
        a_group_is_as_severe_as_its_worst_member(m, members, n - 1, live, blockers);
        let s = model::severity_of(m, members[n - 1], live, blockers);
        let before = model::worst_upto(m, members, n - 1, live, blockers);
        if s.rank() <= before.rank() && n > 1 {
            let k = choose|i: int|
                #![trigger members[i]]
                0 <= i < n - 1 && model::severity_of(m, members[i], live, blockers) == before;
            assert(model::severity_of(m, members[k], live, blockers) == before);
        } else {
            assert(model::severity_of(m, members[n - 1], live, blockers) == model::worst_upto(
                m,
                members,
                n,
                live,
                blockers,
            ));
        }
    }
}

/// The four severities of a group, by its members: blocked where a member is, else dead where a
/// member is, else failed where a member has, else nothing.
pub proof fn how_severe_a_group_is(
    m: Model,
    members: Seq<int>,
    live: live::LiveView,
    blockers: Option<Map<Seq<char>, Blocker>>,
)
    ensures
        ({
            let some = |s: Severity|
                exists|i: int|
                    #![trigger members[i]]
                    0 <= i < members.len() && model::severity_of(m, members[i], live, blockers)
                        == s;
            let g = model::group_worst(m, members, live, blockers);
            &&& g == Severity::Blocked <==> some(Severity::Blocked)
            &&& g == Severity::Dead <==> !some(Severity::Blocked) && some(Severity::Dead)
            &&& g == Severity::Failed <==> !some(Severity::Blocked) && !some(Severity::Dead)
                && some(Severity::Failed)
            &&& g == Severity::Nothing <==> !some(Severity::Blocked) && !some(Severity::Dead)
                && !some(Severity::Failed)
        }),
{
    a_group_is_as_severe_as_its_worst_member(m, members, members.len() as int, live, blockers);
}

/// Whether a member of a group is at a prompt.
pub open spec fn someone_waits(
    m: Model,
    members: Seq<int>,
    blockers: Map<Seq<char>, Blocker>,
) -> bool {
    exists|i: int|
        #![trigger members[i]]
        0 <= i < members.len() && blockers.dom().contains(m.workers@[members[i]].pane@)
            && blockers[m.workers@[members[i]].pane@] == Blocker::Prompt
}

/// A group in which someone is at a prompt stands before every group in which nobody is.
pub proof fn those_at_a_prompt_stand_first(
    m: Model,
    live: live::LiveView,
    blockers: Map<Seq<char>, Blocker>,
    i: int,
    j: int,
)
    requires
        0 <= i < model::triaged(m, live, Some(blockers)).len(),
        0 <= j < model::triaged(m, live, Some(blockers)).len(),
        someone_waits(m, model::triaged(m, live, Some(blockers))[i].members, blockers),
        !someone_waits(m, model::triaged(m, live, Some(blockers))[j].members, blockers),
    ensures
        i < j,
{
    let out = model::triaged(m, live, Some(blockers));
    how_severe_a_group_is(m, out[i].members, live, Some(blockers));
    how_severe_a_group_is(m, out[j].members, live, Some(blockers));
    let k = choose|k: int|
        #![trigger out[i].members[k]]
        0 <= k < out[i].members.len() && blockers.dom().contains(
            m.workers@[out[i].members[k]].pane@,
        ) && blockers[m.workers@[out[i].members[k]].pane@] == Blocker::Prompt;
    assert(model::severity_of(m, out[i].members[k], live, Some(blockers)) == Severity::Blocked);
    if j < i {
        triage_puts_the_severest_first(m, live, Some(blockers), j, i);
        assert(rank_of(m, out[j], live, Some(blockers)) >= rank_of(m, out[i], live, Some(blockers)));
    }
}

/// Groups of one severity keep the order in which the workers give them.
pub proof fn equals_keep_their_order(
    m: Model,
    live: live::LiveView,
    blockers: Option<Map<Seq<char>, Blocker>>,
    s: Severity,
)
    ensures
        model::triaged(m, live, blockers).filter(
            |g: lineage::GroupView| model::group_worst(m, g.members, live, blockers) == s,
        ) == lineage::groups_of(m.workers@).filter(
            |g: lineage::GroupView| model::group_worst(m, g.members, live, blockers) == s,
        ),
{
    let all = lineage::groups_of(m.workers@);
    let p = model::has_severity(m, live, blockers, Severity::Blocked);
    let q = model::has_severity(m, live, blockers, Severity::Dead);
    let r = model::has_severity(m, live, blockers, Severity::Failed);
    let t = model::has_severity(m, live, blockers, Severity::Nothing);
    let f = |g: lineage::GroupView| model::group_worst(m, g.members, live, blockers) == s;
    lemma_filtered(all, p);
    lemma_filtered(all, q);
    lemma_filtered(all, r);
    lemma_filtered(all, t);
    Seq::filter_distributes_over_add(all.filter(p), all.filter(q), f);
    Seq::filter_distributes_over_add(all.filter(p) + all.filter(q), all.filter(r), f);
    Seq::filter_distributes_over_add(
        all.filter(p) + all.filter(q) + all.filter(r),
        all.filter(t),
        f,
    );
    lemma_filter_class(all, p, f, s == Severity::Blocked);
    lemma_filter_class(all, q, f, s == Severity::Dead);
    lemma_filter_class(all, r, f, s == Severity::Failed);
    lemma_filter_class(all, t, f, s == Severity::Nothing);
    assert(model::triaged(m, live, blockers).filter(f) =~= all.filter(f));
}

/// Filtered for a class, a class is itself, and another class is empty.
proof fn lemma_filter_class<A>(
    s: Seq<A>,
    p: spec_fn(A) -> bool,
    f: spec_fn(A) -> bool,
    same: bool,
)
    requires
        same ==> forall|x: A| #[trigger] p(x) == f(x),
        !same ==> forall|x: A| #[trigger] p(x) ==> !f(x),
    ensures
        same ==> s.filter(p).filter(f) == s.filter(f),
        !same ==> s.filter(p).filter(f) == Seq::<A>::empty(),
{
    lemma_filtered(s, p);
    if same {
        assert(p =~= f);
        lemma_filter_all(s.filter(p), f);
    } else {
        lemma_filter_none(s.filter(p), f);
    }
}

} // verus!
