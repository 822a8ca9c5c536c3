//! What one reading of the disk gives, and what the dashboard derives from it.

use crate::blocker;
use crate::blocker::{Blocker, BlockerIndex};
use crate::lineage;
use crate::lineage::{group_by_lineage, Group, GroupKey};
use crate::live;
use crate::live::{pane_liveness, LiveIndex, Liveness};
use crate::registry;
use crate::registry::{attached, AgentSnapshot, InFlight};
use crate::stamp;
use crate::stamp::parse_iso_to_epoch;
use crate::text;
use crate::text::{
    comes_before, contains_text, copy_text, from_utf8_lossy, is_control, is_white_space, push_dec2,
    push_dec_int, same, to_chars, to_lowercase,
};
use crate::textmap::TextMap;
use vstd::prelude::*;
use vstd::string::*;

verus! {

/// How many of the latest tasks are loaded.
pub const RECENT_LIMIT: usize = 200;

/// One reading of the registry and the task store.
pub struct Model {
    /// The workers by lineage.
    pub groups: Vec<Group>,
    pub workers: Vec<AgentSnapshot>,
    /// The tasks that are not finished.
    pub tasks: Vec<InFlight>,
    /// The latest tasks, finished ones among them, newest first.
    pub recent: Vec<InFlight>,
    /// There are older tasks than `recent` holds.
    pub recent_truncated: bool,
}

/// Whether a list of groups speaks of workers that there are.
pub open spec fn groups_within(groups: Seq<Group>, n: int) -> bool {
    forall|g: int, i: int|
        0 <= g < groups.len() && 0 <= i < groups[g].members@.len() ==> (
        #[trigger] groups[g].members@[i]) < n
}

impl Model {
    /// The groups speak of workers that there are.
    pub open spec fn wf(self) -> bool {
        groups_within(self.groups@, self.workers@.len() as int)
    }

    /// The reading that was loaded: the groups come from the workers alone.
    pub fn load(
        workers: Vec<AgentSnapshot>,
        tasks: Vec<InFlight>,
        recent: Vec<InFlight>,
        recent_truncated: bool,
    ) -> (r: Self)
        ensures
            r.wf(),
            r.workers == workers,
            r.tasks == tasks,
            r.recent == recent,
            r.recent_truncated == recent_truncated,
            lineage::group_views(r.groups@) == lineage::groups_of(workers@),
    {
        let groups = group_by_lineage(workers.as_slice());
        proof {
            lemma_groups_within(workers@, groups@);
        }
        Model { groups, workers, tasks, recent, recent_truncated }
    }
}

/// The groups that come from the workers speak of workers that there are.
pub proof fn lemma_groups_within(ws: Seq<AgentSnapshot>, groups: Seq<Group>)
    requires
        lineage::group_views(groups) == lineage::groups_of(ws),
    ensures
        groups_within(groups, ws.len() as int),
{
    lineage::groups_part_the_rows(ws);
    assert forall|g: int, i: int|
        0 <= g < groups.len() && 0 <= i < groups[g].members@.len() implies (
    #[trigger] groups[g].members@[i]) < ws.len() by {
        let all = lineage::groups_of(ws);
        assert(lineage::group_views(groups).len() == groups.len());
        assert(lineage::group_views(groups)[g] == groups[g]@);
        let m = groups[g].members@[i] as int;
        assert(all[g].members[i] == m);
        assert(all[g].members.contains(m));
        assert(lineage::in_group(all, g, m));
    }
}

/// The label of the place in which a worker was spawned.
pub open spec fn origin_of(w: AgentSnapshot) -> Seq<char> {
    if w.corrupt {
        "?"@
    } else if !w.spawned {
        "-"@
    } else if w.owner@.len() == 0 {
        "?"@
    } else {
        w.owner@
    }
}

/// The label of the place in which a worker was spawned: `-` for one registered by hand, `?`
/// where the registry does not tell. It is a place, not an owner.
pub fn origin_label(w: &AgentSnapshot) -> (r: String)
    ensures
        r@ == origin_of(*w),
{
    if w.corrupt {
        copy_text("?")
    } else if !w.spawned {
        copy_text("-")
    } else if w.owner.as_str().is_empty() {
        copy_text("?")
    } else {
        copy_text(w.owner.as_str())
    }
}

/// What the screen is filtered by.
#[derive(Clone, PartialEq, Eq, Debug)]
pub struct Filter {
    /// What to look for; empty to show everything.
    pub query: String,
}

/// Whether a query lets a text through: as a literal part of it, upper and lower case alike.
pub open spec fn lets_through(query: Seq<char>, hay: Seq<char>) -> bool {
    query.len() == 0 || text::contains(text::lowercase(hay), text::lowercase(query))
}

impl Default for Filter {
    fn default() -> (r: Self)
        ensures
            r.query@ == Seq::<char>::empty(),
    {
        Filter { query: String::new() }
    }
}

impl Filter {
    /// Whether anything is filtered.
    pub fn is_active(&self) -> (r: bool)
        ensures
            r == (self.query@.len() > 0),
    {
        !self.query.as_str().is_empty()
    }

    /// Whether a text is let through. The query is literal: no character of it stands for
    /// another.
    pub fn matches(&self, hay: &str) -> (r: bool)
        ensures
            r == lets_through(self.query@, hay@),
    {
        if !self.is_active() {
            return true;
        }
        let h = to_lowercase(hay);
        let q = to_lowercase(self.query.as_str());
        contains_text(h.as_str(), q.as_str())
    }
}

/// Which tasks the task panel shows.
#[derive(Clone, Copy, PartialEq, Eq, Debug, Structural)]
pub enum Scope {
    /// All of them.
    All,
    /// Those that no worker can claim.
    Unattached,
}

impl Default for Scope {
    fn default() -> (r: Self)
        ensures
            r == Scope::All,
    {
        Scope::All
    }
}

impl Scope {
    /// The other scope.
    pub open spec fn other(self) -> Scope {
        match self {
            Scope::All => Scope::Unattached,
            Scope::Unattached => Scope::All,
        }
    }

    /// The other scope.
    pub fn toggled(self) -> (r: Self)
        ensures
            r == self.other(),
            r != self,
            r.other() == self,
    {
        match self {
            Scope::All => Scope::Unattached,
            Scope::Unattached => Scope::All,
        }
    }

    /// What the screen calls a scope.
    pub open spec fn text(self) -> Seq<char> {
        match self {
            Scope::All => "all"@,
            Scope::Unattached => "unattached"@,
        }
    }

    /// What the screen calls a scope.
    pub fn label(self) -> (r: &'static str)
        ensures
            r@ == self.text(),
    {
        match self {
            Scope::All => "all",
            Scope::Unattached => "unattached",
        }
    }
}

/// Whether worker `i` is the only one that a task belongs to.
pub open spec fn sole_claim(ws: Seq<AgentSnapshot>, t: InFlight, i: int) -> bool {
    &&& 0 <= i < ws.len()
    &&& registry::belongs(t, ws[i])
    &&& forall|j: int| 0 <= j < ws.len() && #[trigger] registry::belongs(t, ws[j]) ==> j == i
}

/// The worker that a task belongs to, if exactly one can claim it.
pub open spec fn claimant(ws: Seq<AgentSnapshot>, t: InFlight) -> Option<int> {
    if exists|i: int| sole_claim(ws, t, i) {
        Some(choose|i: int| sole_claim(ws, t, i))
    } else {
        None
    }
}

/// Only one worker can be the only one.
proof fn lemma_claimant(ws: Seq<AgentSnapshot>, t: InFlight, i: int)
    requires
        sole_claim(ws, t, i),
    ensures
        claimant(ws, t) == Some(i),
{
    let c = choose|c: int| sole_claim(ws, t, c);
    assert(registry::belongs(t, ws[c]));
}

/// The worker that a task belongs to, if exactly one can claim it.
pub fn worker_of_task(model: &Model, task: &InFlight) -> (r: Option<usize>)
    ensures
        match r {
            Some(i) => sole_claim(model.workers@, *task, i as int),
            None => forall|i: int| !sole_claim(model.workers@, *task, i),
        },
        opt_index(r) == claimant(model.workers@, *task),
{
    let ghost ws = model.workers@;
    let mut hit: Option<usize> = None;
    let mut i: usize = 0;
    while i < model.workers.len()
        invariant
            ws == model.workers@,
            i <= ws.len(),
            match hit {
                Some(h) => h < i && registry::belongs(*task, ws[h as int]) && forall|j: int|
                    0 <= j < i && #[trigger] registry::belongs(*task, ws[j]) ==> j == h,
                None => forall|j: int| 0 <= j < i ==> !#[trigger] registry::belongs(*task, ws[j]),
            },
        decreases ws.len() - i,
    {
        if attached(task, &model.workers[i]) {
            if let Some(h) = hit {
                proof {
                    assert forall|c: int| !sole_claim(ws, *task, c) by {
                        if sole_claim(ws, *task, c) {
                            assert(registry::belongs(*task, ws[h as int]));
                            assert(registry::belongs(*task, ws[i as int]));
                        }
                    }
                }
                return None;
            }
            hit = Some(i);
        }
        i += 1;
    }
    proof {
        if let Some(h) = hit {
            lemma_claimant(ws, *task, h as int);
        }
    }
    hit
}

/// Those of the first `n` tasks that belong to a worker.
pub open spec fn tasks_upto(ts: Seq<InFlight>, w: AgentSnapshot, n: int) -> Seq<int>
    decreases n,
{
    if n <= 0 {
        Seq::empty()
    } else if registry::belongs(ts[n - 1], w) {
        tasks_upto(ts, w, n - 1).push(n - 1)
    } else {
        tasks_upto(ts, w, n - 1)
    }
}

/// The unfinished tasks of a worker, in their order.
pub open spec fn worker_tasks(model: Model, wi: int) -> Seq<int> {
    tasks_upto(model.tasks@, model.workers@[wi], model.tasks@.len() as int)
}

/// The unfinished tasks of a worker, in their order.
pub fn tasks_of(model: &Model, wi: usize) -> (r: Vec<usize>)
    requires
        wi < model.workers@.len(),
    ensures
        lineage::ints(r@) == worker_tasks(*model, wi as int),
        forall|i: int| 0 <= i < r@.len() ==> #[trigger] r@[i] < model.tasks@.len(),
{
    let mut r: Vec<usize> = Vec::new();
    let mut n: usize = 0;
    proof {
        assert(lineage::ints(r@) =~= Seq::<int>::empty());
    }
    while n < model.tasks.len()
        invariant
            n <= model.tasks@.len(),
            wi < model.workers@.len(),
            lineage::ints(r@) == tasks_upto(model.tasks@, model.workers@[wi as int], n as int),
            forall|i: int| 0 <= i < r@.len() ==> #[trigger] r@[i] < n,
        decreases model.tasks@.len() - n,
    {
        if attached(&model.tasks[n], &model.workers[wi]) {
            let ghost before = r@;
            r.push(n);
            proof {
                assert(lineage::ints(r@) =~= lineage::ints(before).push(n as int));
            }
        }
        n += 1;
    }
    r
}

/// A number of seconds in words: `Xs`, `XmYYs`, `XhYYm` or `Xd`.
pub open spec fn secs_text(s: int) -> Seq<char> {
    if s < 60 {
        text::dec_int(s) + "s"@
    } else if s < 3600 {
        text::dec_int(s / 60) + "m"@ + text::dec2((s % 60) as nat) + "s"@
    } else if s < 86_400 {
        text::dec_int(s / 3600) + "h"@ + text::dec2(((s % 3600) / 60) as nat) + "m"@
    } else {
        text::dec_int(s / 86_400) + "d"@
    }
}

/// A number of seconds in words.
pub fn fmt_secs(s: i64) -> (r: String)
    ensures
        r@ == secs_text(s as int),
{
    let mut t = String::new();
    proof {
        assert forall|x: Seq<char>| #[trigger] (Seq::<char>::empty() + x) =~= x by {}
    }
    if s < 60 {
        push_dec_int(&mut t, s);
        t.append("s");
    } else if s < 3600 {
        push_dec_int(&mut t, s / 60);
        t.append("m");
        push_dec2(&mut t, (s % 60) as u64);
        t.append("s");
    } else if s < 86_400 {
        push_dec_int(&mut t, s / 3600);
        t.append("h");
        push_dec2(&mut t, ((s % 3600) / 60) as u64);
        t.append("m");
    } else {
        push_dec_int(&mut t, s / 86_400);
        t.append("d");
    }
    t
}

/// The time from a stamp to now in words; `-` for a text that is no stamp and for a stamp in
/// the future.
pub open spec fn elapsed_text(created: Seq<char>, now: int) -> Seq<char> {
    match stamp::epoch(created) {
        Some(at) => if now < at {
            "-"@
        } else {
            secs_text(now - at)
        },
        None => "-"@,
    }
}

/// The time from a stamp to now in words.
pub fn fmt_elapsed(created_iso: &str, now_epoch: i64) -> (r: String)
    requires
        stamp::epoch(created_iso@) matches Some(at) ==> now_epoch - at <= i64::MAX,
    ensures
        r@ == elapsed_text(created_iso@, now_epoch as int),
{
    match parse_iso_to_epoch(created_iso) {
        Some(created) => {
            if now_epoch < created {
                return copy_text("-");
            }
            fmt_secs(now_epoch - created)
        },
        None => copy_text("-"),
    }
}

/// The index of the first white space, the length where there is none.
pub open spec fn word_end(s: Seq<char>) -> int
    decreases s.len(),
{
    if s.len() == 0 || text::white_space(s[0]) {
        0
    } else {
        1 + word_end(s.skip(1))
    }
}

/// The end of a word never leaves the text.
pub proof fn lemma_word_end(s: Seq<char>)
    ensures
        0 <= word_end(s) <= s.len(),
    decreases s.len(),
{
    if s.len() > 0 && !text::white_space(s[0]) {
        lemma_word_end(s.skip(1));
    }
}

/// Word `n` of a text, counted from zero; words are parted by white space.
pub open spec fn word(s: Seq<char>, n: nat) -> Option<Seq<char>>
    decreases n,
{
    let t = text::trim_start(s);
    if t.len() == 0 {
        None
    } else if n == 0 {
        Some(t.take(word_end(t)))
    } else {
        word(t.skip(word_end(t)), (n - 1) as nat)
    }
}

/// The bounds of the first word from `from` on.
fn word_from(v: &Vec<char>, from: usize) -> (r: Option<(usize, usize)>)
    requires
        from <= v@.len(),
    ensures
        match r {
            Some((b, e)) => from <= b < e <= v@.len() && text::trim_start(v@.skip(from as int))
                == v@.skip(b as int) && word_end(v@.skip(b as int)) == e - b,
            None => text::trim_start(v@.skip(from as int)).len() == 0,
        },
{
    let n: usize = v.len();
    proof {
        assert(v@.subrange(from as int, n as int) =~= v@.skip(from as int));
    }
    let b = text::trim_start_at(v, from, n);
    proof {
        assert(v@.subrange(b as int, n as int) =~= v@.skip(b as int));
        lemma_trimmed(v@.skip(from as int));
    }
    if b >= n {
        return None;
    }
    let mut e: usize = b;
    let ghost whole = v@.skip(b as int);
    while e < n && !is_white_space(v[e])
        invariant
            b <= e <= n,
            b < n,
            n == v@.len(),
            whole == v@.skip(b as int),
            word_end(whole) == e - b + word_end(v@.skip(e as int)),
        decreases n - e,
    {
        proof {
            assert(v@.skip(e as int).skip(1) =~= v@.skip(e + 1));
        }
        e += 1;
    }
    proof {
        assert(v@.skip(b as int)[0] == v@[b as int]);
        if e == b {
            assert(!text::white_space(v@.skip(b as int)[0]));
        }
    }
    Some((b, e))
}

/// What is left after trimming does not start with white space.
proof fn lemma_trimmed(s: Seq<char>)
    ensures
        text::trim_start(s).len() > 0 ==> !text::white_space(text::trim_start(s)[0]),
    decreases s.len(),
{
    if s.len() > 0 && text::white_space(s[0]) {
        lemma_trimmed(s.skip(1));
    }
}

/// The event of a line `<stamp> <event>[ <detail>]`: its second word.
pub fn event_word(line: &str) -> (r: Option<&str>)
    ensures
        live::opt_str(r) == word(line@, 1),
{
    let v = to_chars(line);
    proof {
        assert(v@.skip(0) =~= v@);
        reveal_with_fuel(word, 2);
    }
    match word_from(&v, 0) {
        None => None,
        Some((b, e)) => {
            proof {
                assert(v@.skip(b as int).skip(e - b) =~= v@.skip(e as int));
            }
            match word_from(&v, e) {
                None => None,
                Some((b2, e2)) => {
                    proof {
                        assert(v@.skip(b2 as int).take(e2 - b2) =~= v@.subrange(
                            b2 as int,
                            e2 as int,
                        ));
                    }
                    Some(line.substring_char(b2, e2))
                },
            }
        },
    }
}

/// How long ago the event of a line was; `None` where its stamp cannot be read or lies in the
/// future.
pub open spec fn ago_text(line: Seq<char>, now: int) -> Option<Seq<char>> {
    match word(line, 0) {
        Some(ts) => match stamp::epoch(ts) {
            Some(at) => if now < at {
                None
            } else {
                Some(secs_text(now - at))
            },
            None => None,
        },
        None => None,
    }
}

/// How long ago the event of a line was.
pub fn event_ago(line: &str, now_epoch: i64) -> (r: Option<String>)
    requires
        word(line@, 0) matches Some(ts) ==> (stamp::epoch(ts) matches Some(at) ==> now_epoch - at
            <= i64::MAX),
    ensures
        lineage::opt_text(r) == ago_text(line@, now_epoch as int),
{
    let v = to_chars(line);
    proof {
        assert(v@.skip(0) =~= v@);
    }
    match word_from(&v, 0) {
        None => None,
        Some((b, e)) => {
            let ts = line.substring_char(b, e);
            proof {
                assert(v@.skip(b as int).take(e - b) =~= v@.subrange(b as int, e as int));
            }
            match parse_iso_to_epoch(ts) {
                None => None,
                Some(at) => if now_epoch < at {
                    None
                } else {
                    Some(fmt_secs(now_epoch - at))
                },
            }
        },
    }
}

/// What a worker is doing.
#[derive(Debug, Clone, Copy, PartialEq, Eq, Structural)]
pub enum Activity {
    /// It has an unfinished task; of several the one with the greatest id.
    Current(usize),
    /// It has none.
    Idle {
        /// Since when: the later of its latest task and its spawning, where they are known.
        since: Option<i64>,
        /// Its latest task among the recent ones.
        last: Option<usize>,
    },
}

/// Of the first `n` tasks the one of a worker with the greatest id.
pub open spec fn newest_upto(ts: Seq<InFlight>, w: AgentSnapshot, n: int) -> Option<int>
    decreases n,
{
    if n <= 0 {
        None
    } else {
        let before = newest_upto(ts, w, n - 1);
        if !registry::belongs(ts[n - 1], w) {
            before
        } else {
            match before {
                Some(j) => if text::less(ts[n - 1].id@, ts[j].id@) {
                    Some(j)
                } else {
                    Some(n - 1)
                },
                None => Some(n - 1),
            }
        }
    }
}

/// The first task from `from` on that belongs to a worker.
pub open spec fn first_of(ts: Seq<InFlight>, w: AgentSnapshot, from: int) -> Option<int>
    decreases ts.len() - from,
{
    if from < 0 || from >= ts.len() {
        None
    } else if registry::belongs(ts[from], w) {
        Some(from)
    } else {
        first_of(ts, w, from + 1)
    }
}

/// The later of two times, as far as they are known.
pub open spec fn later(a: Option<int>, b: Option<int>) -> Option<int> {
    match (a, b) {
        (Some(x), Some(y)) => Some(if x < y { y } else { x }),
        (Some(x), None) => Some(x),
        (None, y) => y,
    }
}

/// An optional index as an integer.
pub open spec fn opt_index(o: Option<usize>) -> Option<int> {
    match o {
        Some(i) => Some(i as int),
        None => None,
    }
}

/// What a worker is doing.
pub open spec fn activity_is(model: Model, wi: int, a: Activity) -> bool {
    let w = model.workers@[wi];
    match newest_upto(model.tasks@, w, model.tasks@.len() as int) {
        Some(ti) => a == Activity::Current(ti as usize),
        None => match a {
            Activity::Current(_) => false,
            Activity::Idle { since, last } => {
                let newest = first_of(model.recent@, w, 0);
                &&& opt_index(last) == newest
                &&& stamp::as_epoch(since) == later(
                    match newest {
                        Some(ri) => stamp::epoch(model.recent@[ri].created_at@),
                        None => None,
                    },
                    stamp::epoch(w.spawned_at@),
                )
            },
        },
    }
}

/// What a worker is doing. Tasks are its own only if they belong to it, not by its name.
pub fn worker_activity(model: &Model, wi: usize) -> (r: Activity)
    requires
        wi < model.workers@.len(),
    ensures
        activity_is(*model, wi as int, r),
        r matches Activity::Current(ti) ==> ti < model.tasks@.len() && registry::belongs(
            model.tasks@[ti as int],
            model.workers@[wi as int],
        ) && newest_upto(
            model.tasks@,
            model.workers@[wi as int],
            model.tasks@.len() as int,
        ) == Some(ti as int),
        r matches Activity::Idle { last: Some(ri), .. } ==> ri < model.recent@.len(),
{
    let w = &model.workers[wi];
    let ghost ts = model.tasks@;
    let mut best: Option<usize> = None;
    let mut n: usize = 0;
    while n < model.tasks.len()
        invariant
            ts == model.tasks@,
            n <= ts.len(),
            wi < model.workers@.len(),
            *w == model.workers@[wi as int],
            opt_index(best) == newest_upto(ts, *w, n as int),
            best matches Some(b) ==> b < n && registry::belongs(ts[b as int], *w),
        decreases ts.len() - n,
    {
        if attached(&model.tasks[n], w) {
            match best {
                Some(b) => {
                    if !comes_before(model.tasks[n].id.as_str(), model.tasks[b].id.as_str()) {
                        best = Some(n);
                    }
                },
                None => {
                    best = Some(n);
                },
            }
        }
        n += 1;
    }
    if let Some(b) = best {
        return Activity::Current(b);
    }
    let ghost rs = model.recent@;
    let mut last: Option<usize> = None;
    let mut i: usize = 0;
    while i < model.recent.len() && last.is_none()
        invariant
            rs == model.recent@,
            i <= rs.len(),
            wi < model.workers@.len(),
            *w == model.workers@[wi as int],
            match last {
                Some(l) => l < rs.len() && first_of(rs, *w, 0) == Some(l as int),
                None => first_of(rs, *w, 0) == first_of(rs, *w, i as int),
            },
        decreases rs.len() - i,
    {
        if attached(&model.recent[i], w) {
            last = Some(i);
        }
        i += 1;
    }
    let last_at: Option<i64> = match last {
        Some(l) => parse_iso_to_epoch(model.recent[l].created_at.as_str()),
        None => None,
    };
    let spawned_at: Option<i64> = parse_iso_to_epoch(w.spawned_at.as_str());
    let since: Option<i64> = match (last_at, spawned_at) {
        (Some(a), Some(b)) => if a < b {
            Some(b)
        } else {
            Some(a)
        },
        (Some(a), None) => Some(a),
        (None, b) => b,
    };
    Activity::Idle { since, last }
}

/// A text in which every control character is a space.
pub open spec fn scrubbed(s: Seq<char>) -> Seq<char> {
    s.map_values(
        |c: char|
            if text::control(c) {
                ' '
            } else {
                c
            },
    )
}

/// A text in which every control character is a space, so that it cannot break a line.
pub fn scrub_for_display(s: &str) -> (r: String)
    ensures
        r@ == scrubbed(s@),
{
    let v = to_chars(s);
    let mut r = String::new();
    let mut i: usize = 0;
    while i < v.len()
        invariant
            i <= v@.len(),
            r@ =~= scrubbed(v@.take(i as int)),
        decreases v@.len() - i,
    {
        proof {
            assert(v@.take(i + 1) =~= v@.take(i as int).push(v@[i as int]));
        }
        if is_control(v[i]) {
            r.push(' ');
        } else {
            r.push(v[i]);
        }
        i += 1;
    }
    proof {
        assert(v@.take(i as int) =~= v@);
    }
    r
}

/// What the disk holds of one task.
pub struct SummaryRead {
    pub id: String,
    /// The length of the event log; zero where there is none.
    pub len: u64,
    /// The first line of the request, where it can be read.
    pub request: Option<Vec<u8>>,
    /// The last line of the event log, where it can be read.
    pub event: Option<String>,
}

/// The summaries of the tasks on the screen.
///
/// A request is written once, so its first line is read once, and an empty line stands for one
/// that could not be read. An event log only grows, so its last line is read again when its
/// length has changed. What is neither unfinished nor recent is dropped.
pub struct Summaries {
    first_lines: TextMap<String>,
    last_events: TextMap<(u64, String)>,
}

/// The summaries of the tasks on the screen.
pub struct SummariesView {
    pub first: Map<Seq<char>, Seq<char>>,
    pub events: Map<Seq<char>, (u64, Seq<char>)>,
}

/// The texts of a map of strings.
pub open spec fn text_values(m: Map<Seq<char>, String>) -> Map<Seq<char>, Seq<char>> {
    m.map_values(|s: String| s@)
}

/// The texts of a map of numbered strings.
pub open spec fn event_values(m: Map<Seq<char>, (u64, String)>) -> Map<Seq<char>, (u64, Seq<char>)> {
    m.map_values(|e: (u64, String)| (e.0, e.1@))
}

impl View for Summaries {
    type V = SummariesView;

    closed spec fn view(&self) -> SummariesView {
        SummariesView {
            first: text_values(self.first_lines@),
            events: event_values(self.last_events@),
        }
    }
}

/// The first reading of a task from `from` on.
pub open spec fn read_at(reads: Seq<SummaryRead>, id: Seq<char>, from: int) -> Option<int>
    decreases reads.len() - from,
{
    if from < 0 || from >= reads.len() {
        None
    } else if reads[from].id@ == id {
        Some(from)
    } else {
        read_at(reads, id, from + 1)
    }
}

/// The length of a task's event log.
pub open spec fn log_len(reads: Seq<SummaryRead>, id: Seq<char>) -> u64 {
    match read_at(reads, id, 0) {
        Some(i) => reads[i].len,
        None => 0,
    }
}

/// The first line of a task's request as it is shown.
pub open spec fn request_text(reads: Seq<SummaryRead>, id: Seq<char>) -> Seq<char> {
    match read_at(reads, id, 0) {
        Some(i) => match reads[i].request {
            Some(bytes) => scrubbed(text::lossy(bytes@)),
            None => Seq::empty(),
        },
        None => Seq::empty(),
    }
}

/// The last line of a task's event log as it is shown.
pub open spec fn event_text(reads: Seq<SummaryRead>, id: Seq<char>) -> Seq<char> {
    match read_at(reads, id, 0) {
        Some(i) => match reads[i].event {
            Some(line) => scrubbed(line@),
            None => Seq::empty(),
        },
        None => Seq::empty(),
    }
}

/// The first line that is kept for a task: the one that is there already, else what was read.
pub open spec fn first_for(old: SummariesView, reads: Seq<SummaryRead>, id: Seq<char>) -> Seq<char> {
    if old.first.dom().contains(id) {
        old.first[id]
    } else {
        request_text(reads, id)
    }
}

/// The event that is kept for a task: the one that is there already while the log has its
/// length, else what was read.
pub open spec fn event_for(old: SummariesView, reads: Seq<SummaryRead>, id: Seq<char>) -> (
    u64,
    Seq<char>,
) {
    if old.events.dom().contains(id) && old.events[id].0 == log_len(reads, id) {
        old.events[id]
    } else {
        (log_len(reads, id), event_text(reads, id))
    }
}

/// Whether one of the first `n` tasks has an id.
pub open spec fn listed(ts: Seq<InFlight>, n: int, id: Seq<char>) -> bool {
    exists|i: int| 0 <= i < n && #[trigger] ts[i].id@ == id
}

/// Whether a task is on the screen.
pub open spec fn wanted(model: Model, id: Seq<char>) -> bool {
    listed(model.tasks@, model.tasks@.len() as int, id) || listed(
        model.recent@,
        model.recent@.len() as int,
        id,
    )
}

/// The summaries after a reading.
pub open spec fn synced(old: SummariesView, model: Model, reads: Seq<SummaryRead>) -> SummariesView {
    SummariesView {
        first: Map::new(|id: Seq<char>| wanted(model, id), |id: Seq<char>| first_for(old, reads, id)),
        events: Map::new(|id: Seq<char>| wanted(model, id), |id: Seq<char>| event_for(old, reads, id)),
    }
}

impl Default for Summaries {
    fn default() -> (r: Self)
        ensures
            r@.first == Map::<Seq<char>, Seq<char>>::empty(),
            r@.events == Map::<Seq<char>, (u64, Seq<char>)>::empty(),
    {
        let r = Summaries { first_lines: TextMap::new(), last_events: TextMap::new() };
        proof {
            assert(r@.first =~= Map::empty());
            assert(r@.events =~= Map::empty());
        }
        r
    }
}

/// The first reading of a task.
fn find_read<'a>(reads: &'a Vec<SummaryRead>, id: &str) -> (r: Option<&'a SummaryRead>)
    ensures
        match r {
            Some(x) => read_at(reads@, id@, 0) is Some && *x == reads@[read_at(reads@, id@, 0)->0],
            None => read_at(reads@, id@, 0) is None,
        },
{
    let mut i: usize = 0;
    while i < reads.len()
        invariant
            i <= reads@.len(),
            read_at(reads@, id@, 0) == read_at(reads@, id@, i as int),
        decreases reads@.len() - i,
    {
        if same(reads[i].id.as_str(), id) {
            return Some(&reads[i]);
        }
        i += 1;
    }
    None
}

impl Summaries {
    /// Whether the first line of a task's request is to be read: only while none is kept.
    pub fn needs_first_line(&self, id: &str) -> (r: bool)
        ensures
            r == !self@.first.dom().contains(id@),
    {
        !self.first_lines.contains_key(id)
    }

    /// Whether the last line of a task's event log is to be read: only when the log does not
    /// have the length of the last reading.
    pub fn needs_event(&self, id: &str, len: u64) -> (r: bool)
        ensures
            r == !(self@.events.dom().contains(id@) && self@.events[id@].0 == len),
    {
        match self.last_events.get(id) {
            Some(e) => {
                proof {
                    assert(event_values(self.last_events@)[id@].0 == e.0);
                }
                e.0 != len
            },
            None => true,
        }
    }

    /// The first line that is kept for a task.
    fn first_kept(&self, reads: &Vec<SummaryRead>, id: &str) -> (r: String)
        ensures
            r@ == first_for(self@, reads@, id@),
    {
        match self.first_lines.get(id) {
            Some(s) => copy_text(s.as_str()),
            None => match find_read(reads, id) {
                Some(x) => match &x.request {
                    Some(bytes) => scrub_for_display(from_utf8_lossy(bytes).as_str()),
                    None => String::new(),
                },
                None => String::new(),
            },
        }
    }

    /// The event that is kept for a task.
    fn event_kept(&self, reads: &Vec<SummaryRead>, id: &str) -> (r: (u64, String))
        ensures
            (r.0, r.1@) == event_for(self@, reads@, id@),
    {
        let len: u64 = match find_read(reads, id) {
            Some(x) => x.len,
            None => 0,
        };
        if let Some(e) = self.last_events.get(id) {
            proof {
                assert(event_values(self.last_events@)[id@] == (e.0, e.1@));
            }
            if e.0 == len {
                return (e.0, copy_text(e.1.as_str()));
            }
        }
        let line = match find_read(reads, id) {
            Some(x) => match &x.event {
                Some(line) => scrub_for_display(line.as_str()),
                None => String::new(),
            },
            None => String::new(),
        };
        (len, line)
    }

    /// Takes a reading in. Of a task that has a first line already the request is not looked
    /// at, and of one whose event log has the length of the last reading the event is not.
    pub fn sync(&mut self, model: &Model, reads: &Vec<SummaryRead>)
        ensures
            final(self)@.first == synced(old(self)@, *model, reads@).first,
            final(self)@.events == synced(old(self)@, *model, reads@).events,
    {
        let ghost before = self@;
        let mut first: TextMap<String> = TextMap::new();
        let mut events: TextMap<(u64, String)> = TextMap::new();
        let ghost ts = model.tasks@;
        let ghost rs = model.recent@;
        let mut i: usize = 0;
        proof {
            assert(text_values(first@) =~= Map::new(
                |id: Seq<char>| listed(ts, 0, id),
                |id: Seq<char>| first_for(before, reads@, id),
            ));
            assert(event_values(events@) =~= Map::new(
                |id: Seq<char>| listed(ts, 0, id),
                |id: Seq<char>| event_for(before, reads@, id),
            ));
        }
        while i < model.tasks.len()
            invariant
                i <= ts.len(),
                ts == model.tasks@,
                self@ == before,
                text_values(first@) == Map::new(
                    |id: Seq<char>| listed(ts, i as int, id),
                    |id: Seq<char>| first_for(before, reads@, id),
                ),
                event_values(events@) == Map::new(
                    |id: Seq<char>| listed(ts, i as int, id),
                    |id: Seq<char>| event_for(before, reads@, id),
                ),
            decreases ts.len() - i,
        {
            let id = model.tasks[i].id.as_str();
            let ghost f0 = first@;
            let ghost e0 = events@;
            let line = self.first_kept(reads, id);
            let event = self.event_kept(reads, id);
            first.insert(copy_text(id), line);
            events.insert(copy_text(id), event);
            proof {
                lemma_listed_step(ts, i as int);
                assert(text_values(first@) =~= text_values(f0).insert(id@, line@));
                assert(event_values(events@) =~= event_values(e0).insert(id@, (event.0, event.1@)));
                assert(text_values(first@) =~= Map::new(
                    |id: Seq<char>| listed(ts, i + 1, id),
                    |id: Seq<char>| first_for(before, reads@, id),
                ));
                assert(event_values(events@) =~= Map::new(
                    |id: Seq<char>| listed(ts, i + 1, id),
                    |id: Seq<char>| event_for(before, reads@, id),
                ));
            }
            i += 1;
        }
        let ghost n = ts.len() as int;
        let mut j: usize = 0;
        proof {
            assert(text_values(first@) =~= Map::new(
                |id: Seq<char>| listed(ts, n, id) || listed(rs, 0, id),
                |id: Seq<char>| first_for(before, reads@, id),
            ));
            assert(event_values(events@) =~= Map::new(
                |id: Seq<char>| listed(ts, n, id) || listed(rs, 0, id),
                |id: Seq<char>| event_for(before, reads@, id),
            ));
        }
        while j < model.recent.len()
            invariant
                j <= rs.len(),
                rs == model.recent@,
                self@ == before,
                text_values(first@) == Map::new(
                    |id: Seq<char>| listed(ts, n, id) || listed(rs, j as int, id),
                    |id: Seq<char>| first_for(before, reads@, id),
                ),
                event_values(events@) == Map::new(
                    |id: Seq<char>| listed(ts, n, id) || listed(rs, j as int, id),
                    |id: Seq<char>| event_for(before, reads@, id),
                ),
            decreases rs.len() - j,
        {
            let id = model.recent[j].id.as_str();
            let ghost f0 = first@;
            let ghost e0 = events@;
            let line = self.first_kept(reads, id);
            let event = self.event_kept(reads, id);
            first.insert(copy_text(id), line);
            events.insert(copy_text(id), event);
            proof {
                lemma_listed_step(rs, j as int);
                assert(text_values(first@) =~= text_values(f0).insert(id@, line@));
                assert(event_values(events@) =~= event_values(e0).insert(id@, (event.0, event.1@)));
                assert(text_values(first@) =~= Map::new(
                    |id: Seq<char>| listed(ts, n, id) || listed(rs, j + 1, id),
                    |id: Seq<char>| first_for(before, reads@, id),
                ));
                assert(event_values(events@) =~= Map::new(
                    |id: Seq<char>| listed(ts, n, id) || listed(rs, j + 1, id),
                    |id: Seq<char>| event_for(before, reads@, id),
                ));
            }
            j += 1;
        }
        self.first_lines = first;
        self.last_events = events;
        proof {
            assert(self@.first =~= synced(before, *model, reads@).first);
            assert(self@.events =~= synced(before, *model, reads@).events);
        }
    }

    /// Summaries with the given lines.
    pub fn seed(first: &[(&str, &str)], events: &[(&str, &str)]) -> (r: Self)
        ensures
            r@.first == seeded(first@),
            r@.events == seeded(events@).map_values(|s: Seq<char>| (0u64, s)),
    {
        let mut f: TextMap<String> = TextMap::new();
        let mut i: usize = 0;
        proof {
            assert(text_values(f@) =~= seeded(first@.take(0)));
        }
        while i < first.len()
            invariant
                i <= first@.len(),
                text_values(f@) == seeded(first@.take(i as int)),
            decreases first@.len() - i,
        {
            let ghost f0 = f@;
            let v = copy_text(first[i].1);
            f.insert(copy_text(first[i].0), v);
            proof {
                assert(first@.take(i + 1).drop_last() =~= first@.take(i as int));
                assert(text_values(f@) =~= text_values(f0).insert(first@[i as int].0@, v@));
            }
            i += 1;
        }
        let mut e: TextMap<(u64, String)> = TextMap::new();
        let mut j: usize = 0;
        proof {
            assert(first@.take(i as int) =~= first@);
            assert(event_values(e@) =~= seeded(events@.take(0)).map_values(|s: Seq<char>| (0u64, s)));
        }
        while j < events.len()
            invariant
                j <= events@.len(),
                event_values(e@) == seeded(events@.take(j as int)).map_values(
                    |s: Seq<char>| (0u64, s),
                ),
            decreases events@.len() - j,
        {
            let ghost e0 = e@;
            let v = copy_text(events[j].1);
            e.insert(copy_text(events[j].0), (0, v));
            proof {
                assert(events@.take(j + 1).drop_last() =~= events@.take(j as int));
                assert(event_values(e@) =~= event_values(e0).insert(events@[j as int].0@, (0u64, v@)));
                assert(event_values(e@) =~= seeded(events@.take(j + 1)).map_values(
                    |s: Seq<char>| (0u64, s),
                ));
            }
            j += 1;
        }
        proof {
            assert(events@.take(j as int) =~= events@);
        }
        Summaries { first_lines: f, last_events: e }
    }

    /// The first line of a task's request; empty where there is none.
    pub fn first_line(&self, id: &str) -> (r: &str)
        ensures
            r@ == (if self@.first.dom().contains(id@) {
                self@.first[id@]
            } else {
                Seq::<char>::empty()
            }),
    {
        match self.first_lines.get(id) {
            Some(s) => s.as_str(),
            None => {
                proof {
                    reveal_strlit("");
                    assert(""@ =~= Seq::<char>::empty());
                }
                ""
            },
        }
    }

    /// The last line of a task's event log; empty where there is none.
    pub fn last_event(&self, id: &str) -> (r: &str)
        ensures
            r@ == (if self@.events.dom().contains(id@) {
                self@.events[id@].1
            } else {
                Seq::<char>::empty()
            }),
    {
        match self.last_events.get(id) {
            Some(e) => e.1.as_str(),
            None => {
                proof {
                    reveal_strlit("");
                    assert(""@ =~= Seq::<char>::empty());
                }
                ""
            },
        }
    }
}

/// The map that a list of texts spells out; a later entry replaces an earlier one.
pub open spec fn seeded(s: Seq<(&str, &str)>) -> Map<Seq<char>, Seq<char>>
    decreases s.len(),
{
    if s.len() == 0 {
        Map::empty()
    } else {
        seeded(s.drop_last()).insert(s.last().0@, s.last().1@)
    }
}

/// One task more is listed.
proof fn lemma_listed_step(ts: Seq<InFlight>, n: int)
    requires
        0 <= n < ts.len(),
    ensures
        forall|id: Seq<char>| #[trigger] listed(ts, n + 1, id) <==> listed(ts, n, id) || id == ts[n].id@,
{
    assert forall|id: Seq<char>| #[trigger] listed(ts, n + 1, id) <==> listed(ts, n, id) || id
        == ts[n].id@ by {
        if listed(ts, n, id) {
            let i = choose|i: int| 0 <= i < n && #[trigger] ts[i].id@ == id;
            assert(0 <= i < n + 1 && ts[i].id@ == id);
        }
        if id == ts[n].id@ {
            assert(0 <= n < n + 1 && ts[n].id@ == id);
        }
        if listed(ts, n + 1, id) {
            let i = choose|i: int| 0 <= i < n + 1 && #[trigger] ts[i].id@ == id;
            if i < n {
                assert(0 <= i < n && ts[i].id@ == id);
            }
        }
    }
}

/// A first line that is kept never changes while its task is on the screen, whatever the disk
/// says later, and a task that has left the screen keeps nothing.
pub proof fn summaries_keep_first_lines(
    old_sums: SummariesView,
    model: Model,
    reads: Seq<SummaryRead>,
    id: Seq<char>,
)
    ensures
        wanted(model, id) && old_sums.first.dom().contains(id) ==> synced(
            old_sums,
            model,
            reads,
        ).first.dom().contains(id) && synced(old_sums, model, reads).first[id] == old_sums.first[id],
        !wanted(model, id) ==> !synced(old_sums, model, reads).first.dom().contains(id) && !synced(
            old_sums,
            model,
            reads,
        ).events.dom().contains(id),
{
}

/// How much a worker needs a person. This is about attention: nothing of it says that a worker
/// could be removed.
#[derive(Clone, Copy, PartialEq, Eq, PartialOrd, Ord, Debug, Structural)]
pub enum Severity {
    /// No sign of trouble.
    Nothing,
    /// Its latest task failed.
    Failed,
    /// Its pane was looked for and is not there.
    Dead,
    /// It waits at a prompt.
    Blocked,
}

impl Default for Severity {
    fn default() -> (r: Self)
        ensures
            r == Severity::Nothing,
    {
        Severity::Nothing
    }
}

impl Severity {
    /// The order of severities.
    pub open spec fn rank(self) -> int {
        match self {
            Severity::Nothing => 0,
            Severity::Failed => 1,
            Severity::Dead => 2,
            Severity::Blocked => 3,
        }
    }

    /// The order of severities.
    fn level(self) -> (r: u8)
        ensures
            r == self.rank(),
    {
        match self {
            Severity::Nothing => 0,
            Severity::Failed => 1,
            Severity::Dead => 2,
            Severity::Blocked => 3,
        }
    }
}

/// Whether a worker has no unfinished task and its latest task failed.
pub open spec fn ended_in_failure(model: Model, w: AgentSnapshot) -> bool {
    &&& newest_upto(model.tasks@, w, model.tasks@.len() as int) is None
    &&& first_of(model.recent@, w, 0) matches Some(ri) && model.recent@[ri].status@ == "failed"@
}

/// How much a worker needs a person.
pub open spec fn severity_of(
    model: Model,
    wi: int,
    live: live::LiveView,
    blockers: Option<Map<Seq<char>, Blocker>>,
) -> Severity {
    let w = model.workers@[wi];
    if blocker::blocker_at(blockers, w.pane@) == Blocker::Prompt {
        Severity::Blocked
    } else if live::liveness_of(live, w.pane@) == Liveness::Dead {
        Severity::Dead
    } else if ended_in_failure(model, w) {
        Severity::Failed
    } else {
        Severity::Nothing
    }
}

/// How much a worker needs a person. What is unknown is no reason.
pub fn worker_severity(
    model: &Model,
    wi: usize,
    live: &LiveIndex,
    blockers: &BlockerIndex,
) -> (r: Severity)
    requires
        wi < model.workers@.len(),
    ensures
        r == severity_of(*model, wi as int, live@, blockers@),
{
    let w = &model.workers[wi];
    if blockers.get(w.pane.as_str()) == Blocker::Prompt {
        return Severity::Blocked;
    }
    if pane_liveness(live, w.pane.as_str()) == Liveness::Dead {
        return Severity::Dead;
    }
    if let Activity::Idle { last: Some(ri), .. } = worker_activity(model, wi) {
        if same(model.recent[ri].status.as_str(), "failed") {
            return Severity::Failed;
        }
    }
    Severity::Nothing
}

/// The greatest severity of the first `n` members.
pub open spec fn worst_upto(
    model: Model,
    members: Seq<int>,
    n: int,
    live: live::LiveView,
    blockers: Option<Map<Seq<char>, Blocker>>,
) -> Severity
    decreases n,
{
    if n <= 0 {
        Severity::Nothing
    } else {
        let before = worst_upto(model, members, n - 1, live, blockers);
        let this = severity_of(model, members[n - 1], live, blockers);
        if this.rank() > before.rank() {
            this
        } else {
            before
        }
    }
}

/// The severity of a group: that of its worst member.
pub open spec fn group_worst(
    model: Model,
    members: Seq<int>,
    live: live::LiveView,
    blockers: Option<Map<Seq<char>, Blocker>>,
) -> Severity {
    worst_upto(model, members, members.len() as int, live, blockers)
}

/// The severity of a group.
pub fn group_severity(
    model: &Model,
    g: &Group,
    live: &LiveIndex,
    blockers: &BlockerIndex,
) -> (r: Severity)
    requires
        forall|i: int| 0 <= i < g.members@.len() ==> #[trigger] g.members@[i] < model.workers@.len(),
    ensures
        r == group_worst(*model, g@.members, live@, blockers@),
{
    let mut worst = Severity::Nothing;
    let mut i: usize = 0;
    while i < g.members.len()
        invariant
            i <= g.members@.len(),
            forall|i: int| 0 <= i < g.members@.len() ==> #[trigger] g.members@[i]
                < model.workers@.len(),
            worst == worst_upto(*model, g@.members, i as int, live@, blockers@),
        decreases g.members@.len() - i,
    {
        let s = worker_severity(model, g.members[i], live, blockers);
        proof {
            assert(g@.members[i as int] == g.members@[i as int] as int);
        }
        if s.level() > worst.level() {
            worst = s;
        }
        i += 1;
    }
    worst
}

/// Being a group of a severity.
pub open spec fn has_severity(
    model: Model,
    live: live::LiveView,
    blockers: Option<Map<Seq<char>, Blocker>>,
    s: Severity,
) -> spec_fn(lineage::GroupView) -> bool {
    |g: lineage::GroupView| group_worst(model, g.members, live, blockers) == s
}

/// The groups of the workers, the severest first, and in their own order within a severity.
pub open spec fn triaged(
    model: Model,
    live: live::LiveView,
    blockers: Option<Map<Seq<char>, Blocker>>,
) -> Seq<lineage::GroupView> {
    let all = lineage::groups_of(model.workers@);
    all.filter(has_severity(model, live, blockers, Severity::Blocked)) + all.filter(
        has_severity(model, live, blockers, Severity::Dead),
    ) + all.filter(has_severity(model, live, blockers, Severity::Failed)) + all.filter(
        has_severity(model, live, blockers, Severity::Nothing),
    )
}

/// A copy of a group.
fn copy_group(g: &Group) -> (r: Group)
    ensures
        r@ == g@,
        r.members@ == g.members@,
{
    let key = match &g.key {
        GroupKey::Lineage(k) => GroupKey::Lineage(copy_text(k.as_str())),
        GroupKey::Standalone => GroupKey::Standalone,
    };
    let mut members: Vec<usize> = Vec::new();
    let mut i: usize = 0;
    while i < g.members.len()
        invariant
            i <= g.members@.len(),
            members@ == g.members@.take(i as int),
        decreases g.members@.len() - i,
    {
        members.push(g.members[i]);
        proof {
            assert(g.members@.take(i + 1) =~= g.members@.take(i as int).push(g.members@[i as int]));
        }
        i += 1;
    }
    proof {
        assert(g.members@.take(i as int) =~= g.members@);
    }
    Group { key, members }
}

/// Appends the groups of a severity.
fn push_of_severity(
    model: &Model,
    all: &Vec<Group>,
    live: &LiveIndex,
    blockers: &BlockerIndex,
    s: Severity,
    out: &mut Vec<Group>,
)
    requires
        groups_within(all@, model.workers@.len() as int),
    ensures
        lineage::group_views(final(out)@) == lineage::group_views(old(out)@) + lineage::group_views(
            all@,
        ).filter(has_severity(*model, live@, blockers@, s)),
        groups_within(old(out)@, model.workers@.len() as int) ==> groups_within(
            final(out)@,
            model.workers@.len() as int,
        ),
{
    let ghost views = lineage::group_views(all@);
    let ghost pred = has_severity(*model, live@, blockers@, s);
    let ghost start = lineage::group_views(out@);
    let mut i: usize = 0;
    proof {
        assert(views.take(0) =~= Seq::empty());
        assert(start + views.take(0).filter(pred) =~= start) by {
            reveal(Seq::filter);
        }
    }
    while i < all.len()
        invariant
            i <= all@.len(),
            groups_within(all@, model.workers@.len() as int),
            views == lineage::group_views(all@),
            pred == has_severity(*model, live@, blockers@, s),
            lineage::group_views(out@) == start + views.take(i as int).filter(pred),
            groups_within(old(out)@, model.workers@.len() as int) ==> groups_within(
                out@,
                model.workers@.len() as int,
            ),
        decreases all@.len() - i,
    {
        let ghost before = out@;
        proof {
            assert(views[i as int] == all@[i as int]@);
            assert(views.take(i + 1) =~= views.take(i as int).push(views[i as int]));
            views.take(i as int).lemma_filter_push(views[i as int], pred);
            assert forall|k: int| 0 <= k < all@[i as int].members@.len() implies #[trigger] all@[i as int].members@[k]
                < model.workers@.len() by {}
        }
        if group_severity(model, &all[i], live, blockers) == s {
            let g = copy_group(&all[i]);
            out.push(g);
            proof {
                assert(lineage::group_views(out@) =~= lineage::group_views(before).push(g@));
                assert(lineage::group_views(out@) =~= start + views.take(i + 1).filter(pred));
            }
        }
        i += 1;
    }
    proof {
        assert(views.take(i as int) =~= views);
    }
}

/// Puts the groups that need a person first. Only the groups move; the order within a group is
/// that of the registry. It starts from the groups of the workers, not from the order that is
/// there: what is no longer severe goes back to its place.
pub fn apply_triage(model: &mut Model, live: &LiveIndex, blockers: &BlockerIndex)
    ensures
        lineage::group_views(final(model).groups@) == triaged(*old(model), live@, blockers@),
        final(model).workers == old(model).workers,
        final(model).tasks == old(model).tasks,
        final(model).recent == old(model).recent,
        final(model).recent_truncated == old(model).recent_truncated,
        final(model).wf(),
{
    let all = group_by_lineage(model.workers.as_slice());
    proof {
        lemma_groups_within(model.workers@, all@);
    }
    let mut out: Vec<Group> = Vec::new();
    let ghost empty = lineage::group_views(out@);
    push_of_severity(model, &all, live, blockers, Severity::Blocked, &mut out);
    push_of_severity(model, &all, live, blockers, Severity::Dead, &mut out);
    push_of_severity(model, &all, live, blockers, Severity::Failed, &mut out);
    push_of_severity(model, &all, live, blockers, Severity::Nothing, &mut out);
    proof {
        assert(empty =~= Seq::empty());
        assert(lineage::group_views(out@) =~= triaged(*model, live@, blockers@));
    }
    model.groups = out;
}

} // verus!
