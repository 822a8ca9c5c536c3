//! Which workers descend from one another.
//!
//! A worker's place in the dashboard comes from two fields of its registry row, the root of
//! its lineage and its parent. Both can be written by the worker itself, so nothing here
//! takes them for a tree: every row is checked on its own and against the row that its parent
//! key finds, and a row that says something impossible stands alone.

use crate::model::Model;
use crate::registry;
use crate::registry::{is_generation_key, tag_display_parts, AgentSnapshot};
use crate::text;
use crate::text::{comes_before, copy_text, same, truncate_with_ellipsis};
use crate::textmap::{TextMap, TextSet};
use vstd::prelude::*;
use vstd::string::*;

verus! {

/// Whether a readable row carries the spawn tag `k`.
pub open spec fn tagged(w: AgentSnapshot, k: Seq<char>) -> bool {
    !w.corrupt && w.spawn_tag@.len() > 0 && w.spawn_tag@ == k
}

/// Whether two of the first `n` rows carry the tag `k`.
pub open spec fn dup_upto(ws: Seq<AgentSnapshot>, n: int, k: Seq<char>) -> bool {
    exists|i: int, j: int| #![trigger tagged(ws[i], k), tagged(ws[j], k)]
        0 <= i < j < n && tagged(ws[i], k) && tagged(ws[j], k)
}

/// Whether row `i` is the only one of the first `n` that carries the tag `k`.
pub open spec fn only_upto(ws: Seq<AgentSnapshot>, n: int, k: Seq<char>, i: int) -> bool {
    &&& 0 <= i < n
    &&& tagged(ws[i], k)
    &&& forall|j: int| 0 <= j < n && #[trigger] tagged(ws[j], k) ==> j == i
}

/// Whether two rows carry the tag `k`: then the registry cannot tell which one it means.
pub open spec fn is_dup(ws: Seq<AgentSnapshot>, k: Seq<char>) -> bool {
    dup_upto(ws, ws.len() as int, k)
}

/// Whether row `i` is the only one that carries the tag `k`.
pub open spec fn only(ws: Seq<AgentSnapshot>, k: Seq<char>, i: int) -> bool {
    only_upto(ws, ws.len() as int, k, i)
}

/// The row that a tag identifies: the only one that carries it.
pub open spec fn find(ws: Seq<AgentSnapshot>, k: Seq<char>) -> Option<int> {
    if exists|i: int| only(ws, k, i) {
        Some(choose|i: int| only(ws, k, i))
    } else {
        None
    }
}

/// The only row with a tag is the row that the tag finds.
pub proof fn lemma_find(ws: Seq<AgentSnapshot>, k: Seq<char>, i: int)
    requires
        only(ws, k, i),
    ensures
        find(ws, k) == Some(i),
{
    let c = choose|c: int| only(ws, k, c);
    assert(only(ws, k, c));
    assert(tagged(ws[c], k));
}

/// The rows by spawn tag. A tag that two rows carry finds neither: there is no evidence
/// which of them it means, and the order of the rows is none.
pub struct TagIndex<'a> {
    workers: &'a [AgentSnapshot],
    uniq: TextMap<usize>,
    dup: TextSet,
}

impl<'a> TagIndex<'a> {
    /// The rows that were indexed.
    pub closed spec fn rows(&self) -> Seq<AgentSnapshot> {
        self.workers@
    }

    #[verifier::type_invariant]
    spec fn exact(self) -> bool {
        let ws = self.workers@;
        &&& forall|k: Seq<char>| #[trigger] self.dup@.contains(k) <==> is_dup(ws, k)
        &&& forall|k: Seq<char>| #[trigger] self.uniq@.dom().contains(k) ==> only(
            ws,
            k,
            self.uniq@[k] as int,
        )
        &&& forall|k: Seq<char>, i: int| #[trigger] only(ws, k, i) ==> self.uniq@.dom().contains(k)
    }

    /// Indexes the rows by their tags.
    pub fn build(workers: &'a [AgentSnapshot]) -> (r: Self)
        ensures
            r.rows() == workers@,
    {
        let mut uniq: TextMap<usize> = TextMap::new();
        let mut dup: TextSet = TextSet::new();
        let ghost ws = workers@;
        let mut n: usize = 0;
        while n < workers.len()
            invariant
                ws == workers@,
                n <= ws.len(),
                forall|k: Seq<char>| #[trigger] dup@.contains(k) <==> dup_upto(ws, n as int, k),
                forall|k: Seq<char>| #[trigger] uniq@.dom().contains(k) ==> only_upto(
                    ws,
                    n as int,
                    k,
                    uniq@[k] as int,
                ),
                forall|k: Seq<char>, i: int| #[trigger] only_upto(ws, n as int, k, i)
                    ==> uniq@.dom().contains(k),
            decreases ws.len() - n,
        {
            let w = &workers[n];
            let ghost uniq0 = uniq@;
            let ghost dup0 = dup@;
            let ghost tag = w.spawn_tag@;
            if !w.corrupt && !w.spawn_tag.as_str().is_empty() {
                let k = w.spawn_tag.as_str();
                if !dup.contains(k) {
                    if uniq.contains_key(k) {
                        uniq.remove(k);
                        dup.insert(copy_text(k));
                    } else {
                        uniq.insert(copy_text(k), n);
                    }
                }
            }
            proof {
                lemma_index_step(ws, n as int, uniq0, dup0, uniq@, dup@);
            }
            n += 1;
        }
        TagIndex { workers, uniq, dup }
    }

    /// The row that a tag identifies.
    pub fn get(&self, key: &str) -> (r: Option<&'a AgentSnapshot>)
        ensures
            match r {
                Some(w) => find(self.rows(), key@) is Some && *w == self.rows()[find(
                    self.rows(),
                    key@,
                )->0],
                None => find(self.rows(), key@) is None,
            },
    {
        proof {
            use_type_invariant(self);
        }
        match self.uniq.get(key) {
            Some(i) => {
                proof {
                    lemma_find(self.workers@, key@, *i as int);
                }
                Some(&self.workers[*i])
            },
            None => {
                proof {
                    if exists|i: int| only(self.workers@, key@, i) {
                        let i = choose|i: int| only(self.workers@, key@, i);
                        assert(only(self.workers@, key@, i));
                    }
                }
                None
            },
        }
    }

    /// Whether two rows carry a tag.
    pub fn is_dup(&self, key: &str) -> (r: bool)
        ensures
            r == is_dup(self.rows(), key@),
    {
        proof {
            use_type_invariant(self);
        }
        self.dup.contains(key)
    }
}

/// One row more in the index.
proof fn lemma_index_step(
    ws: Seq<AgentSnapshot>,
    n: int,
    uniq0: Map<Seq<char>, usize>,
    dup0: Set<Seq<char>>,
    uniq1: Map<Seq<char>, usize>,
    dup1: Set<Seq<char>>,
)
    requires
        0 <= n < ws.len() <= usize::MAX,
        forall|k: Seq<char>| #[trigger] dup0.contains(k) <==> dup_upto(ws, n, k),
        forall|k: Seq<char>| #[trigger] uniq0.dom().contains(k) ==> only_upto(ws, n, k, uniq0[k] as int),
        forall|k: Seq<char>, i: int| #[trigger] only_upto(ws, n, k, i) ==> uniq0.dom().contains(k),
        ({
            let t = ws[n].spawn_tag@;
            if ws[n].corrupt || t.len() == 0 || dup0.contains(t) {
                uniq1 == uniq0 && dup1 == dup0
            } else if uniq0.dom().contains(t) {
                uniq1 == uniq0.remove(t) && dup1 == dup0.insert(t)
            } else {
                uniq1 == uniq0.insert(t, n as usize) && dup1 == dup0
            }
        }),
    ensures
        forall|k: Seq<char>| #[trigger] dup1.contains(k) <==> dup_upto(ws, n + 1, k),
        forall|k: Seq<char>| #[trigger] uniq1.dom().contains(k) ==> only_upto(
            ws,
            n + 1,
            k,
            uniq1[k] as int,
        ),
        forall|k: Seq<char>, i: int| #[trigger] only_upto(ws, n + 1, k, i) ==> uniq1.dom().contains(k),
{
    let t = ws[n].spawn_tag@;
    assert forall|k: Seq<char>| #[trigger] dup1.contains(k) <==> dup_upto(ws, n + 1, k) by {
        if dup_upto(ws, n, k) {
            let (i, j) = choose|i: int, j: int| #![trigger tagged(ws[i], k), tagged(ws[j], k)]
                0 <= i < j < n && tagged(ws[i], k) && tagged(ws[j], k);
            assert(0 <= i < j < n + 1 && tagged(ws[i], k) && tagged(ws[j], k));
        }
        if dup_upto(ws, n + 1, k) && !dup_upto(ws, n, k) {
            let (i, j) = choose|i: int, j: int| #![trigger tagged(ws[i], k), tagged(ws[j], k)]
                0 <= i < j < n + 1 && tagged(ws[i], k) && tagged(ws[j], k);
            assert(j == n);
            assert forall|c: int| 0 <= c < n && #[trigger] tagged(ws[c], k) implies c == i by {
                if c < i {
                    assert(0 <= c < i < n && tagged(ws[c], k) && tagged(ws[i], k));
                } else if c > i {
                    assert(0 <= i < c < n && tagged(ws[i], k) && tagged(ws[c], k));
                }
            }
            assert(only_upto(ws, n, k, i));
            assert(k == t);
        }
        if dup1.contains(k) && !dup0.contains(k) {
            assert(k == t);
            let i = uniq0[k] as int;
            assert(only_upto(ws, n, k, i));
            assert(tagged(ws[i], k) && tagged(ws[n], k));
        }
    }
    assert forall|k: Seq<char>| #[trigger] uniq1.dom().contains(k) implies only_upto(
        ws,
        n + 1,
        k,
        uniq1[k] as int,
    ) by {
        if uniq0.dom().contains(k) && !(k == t && uniq1 != uniq0) {
            let i = uniq0[k] as int;
            assert(only_upto(ws, n, k, i));
            if tagged(ws[n], k) {
                assert(k == t);
                assert(dup0.contains(t));
                assert(dup_upto(ws, n, k));
                let (a, b) = choose|a: int, b: int| #![trigger tagged(ws[a], k), tagged(ws[b], k)]
                    0 <= a < b < n && tagged(ws[a], k) && tagged(ws[b], k);
                assert(a == i && b == i);
            }
        } else {
            assert(k == t);
            assert(!uniq0.dom().contains(t));
            assert(tagged(ws[n], k));
            assert forall|j: int| 0 <= j < n + 1 && #[trigger] tagged(ws[j], k) implies j == n by {
                if j < n {
                    assert(!dup_upto(ws, n, k));
                    assert forall|c: int| 0 <= c < n && #[trigger] tagged(ws[c], k) implies c == j by {
                        if c < j {
                            assert(0 <= c < j < n && tagged(ws[c], k) && tagged(ws[j], k));
                        } else if c > j {
                            assert(0 <= j < c < n && tagged(ws[j], k) && tagged(ws[c], k));
                        }
                    }
                    assert(only_upto(ws, n, k, j));
                }
            }
        }
    }
    assert forall|k: Seq<char>, i: int| #[trigger] only_upto(ws, n + 1, k, i) implies uniq1.dom().contains(
        k,
    ) by {
        if i < n {
            assert forall|j: int| 0 <= j < n && #[trigger] tagged(ws[j], k) implies j == i by {}
            assert(only_upto(ws, n, k, i));
            if k == t && !ws[n].corrupt {
                assert(tagged(ws[n], k));
            }
        } else {
            assert(k == t);
            assert(tagged(ws[n], k));
            if dup0.contains(t) {
                let (a, b) = choose|a: int, b: int| #![trigger tagged(ws[a], k), tagged(ws[b], k)]
                    0 <= a < b < n && tagged(ws[a], k) && tagged(ws[b], k);
                assert(a == n);
            }
            if uniq0.dom().contains(t) {
                assert(only_upto(ws, n, k, uniq0[k] as int));
                assert(tagged(ws[uniq0[k] as int], k));
            }
        }
    }
}

/// The text of an optional string.
pub open spec fn opt_text(o: Option<String>) -> Option<Seq<char>> {
    match o {
        Some(s) => Some(s@),
        None => None,
    }
}

/// The lineage root of a row, where it is a generation key.
pub open spec fn root_of(w: AgentSnapshot) -> Option<Seq<char>> {
    match opt_text(w.lineage_root) {
        Some(r) => if registry::generation_key(r) {
            Some(r)
        } else {
            None
        },
        None => None,
    }
}

/// The lineage root of a row, where it is a generation key.
fn valid_root(w: &AgentSnapshot) -> (r: Option<&str>)
    ensures
        match r {
            Some(s) => root_of(*w) == Some(s@),
            None => root_of(*w) is None,
        },
{
    match &w.lineage_root {
        Some(s) => if is_generation_key(s.as_str()) {
            Some(s.as_str())
        } else {
            None
        },
        None => None,
    }
}

/// What a row says of itself.
pub enum ShapeView {
    /// A member of the lineage with this root.
    Lineage(Seq<char>),
    /// Spawned, without either lineage field.
    Legacy,
    /// Registered by hand.
    Manual,
    /// Contradicts itself, its parent, or another row with its tag.
    Invalid,
}

/// Whether the row that `p` finds denies that a child of it belongs to `root`: it belongs to
/// another lineage, or to none and is not the root itself.
pub open spec fn parent_denies(ws: Seq<AgentSnapshot>, p: Seq<char>, root: Seq<char>) -> bool {
    match find(ws, p) {
        Some(i) => match root_of(ws[i]) {
            Some(pr) => pr != root,
            None => root != p,
        },
        None => false,
    }
}

/// Whether a row may call itself a member of the lineage `root`. Without a parent it has to be
/// the root. With one it cannot be the root nor its own parent, and the parent may not deny it.
pub open spec fn member_of(w: AgentSnapshot, ws: Seq<AgentSnapshot>, root: Seq<char>) -> bool {
    match opt_text(w.parent_agent) {
        Some(p) => registry::generation_key(p) && p != w.spawn_tag@ && root != w.spawn_tag@
            && !parent_denies(ws, p, root),
        None => root == w.spawn_tag@,
    }
}

/// The shape of a row among the rows `ws`.
pub open spec fn shape_of(w: AgentSnapshot, ws: Seq<AgentSnapshot>) -> ShapeView {
    let tag = w.spawn_tag@;
    if w.corrupt || (tag.len() > 0 && is_dup(ws, tag)) {
        ShapeView::Invalid
    } else if tag.len() == 0 {
        if !w.spawned && w.lineage_root is None && w.parent_agent is None {
            ShapeView::Manual
        } else {
            ShapeView::Invalid
        }
    } else if !w.spawned {
        ShapeView::Invalid
    } else if w.lineage_root is None {
        if w.parent_agent is None {
            ShapeView::Legacy
        } else {
            ShapeView::Invalid
        }
    } else {
        match root_of(w) {
            Some(root) => if member_of(w, ws, root) {
                ShapeView::Lineage(root)
            } else {
                ShapeView::Invalid
            },
            None => ShapeView::Invalid,
        }
    }
}

/// What a row says of itself.
pub enum Shape {
    Lineage(String),
    Legacy,
    Manual,
    Invalid,
}

impl View for Shape {
    type V = ShapeView;

    open spec fn view(&self) -> ShapeView {
        match self {
            Shape::Lineage(r) => ShapeView::Lineage(r@),
            Shape::Legacy => ShapeView::Legacy,
            Shape::Manual => ShapeView::Manual,
            Shape::Invalid => ShapeView::Invalid,
        }
    }
}

/// The shape of a row. The two lineage fields are open to the worker, so every gap and every
/// contradiction has its own answer.
pub fn row_shape(w: &AgentSnapshot, idx: &TagIndex) -> (r: Shape)
    ensures
        r@ == shape_of(*w, idx.rows()),
{
    if w.corrupt {
        return Shape::Invalid;
    }
    let tag = w.spawn_tag.as_str();
    if !tag.is_empty() && idx.is_dup(tag) {
        return Shape::Invalid;
    }
    if tag.is_empty() {
        return if !w.spawned && w.lineage_root.is_none() && w.parent_agent.is_none() {
            Shape::Manual
        } else {
            Shape::Invalid
        };
    }
    if !w.spawned {
        return Shape::Invalid;
    }
    if w.lineage_root.is_none() {
        return if w.parent_agent.is_none() {
            Shape::Legacy
        } else {
            Shape::Invalid
        };
    }
    match valid_root(w) {
        None => Shape::Invalid,
        Some(root) => {
            match &w.parent_agent {
                Some(parent) => {
                    let p = parent.as_str();
                    if !is_generation_key(p) || same(p, tag) || same(root, tag) {
                        return Shape::Invalid;
                    }
                    if let Some(pw) = idx.get(p) {
                        match valid_root(pw) {
                            Some(proot) => {
                                if !same(proot, root) {
                                    return Shape::Invalid;
                                }
                            },
                            None => {
                                if !same(root, p) {
                                    return Shape::Invalid;
                                }
                            },
                        }
                    }
                },
                None => {
                    if !same(root, tag) {
                        return Shape::Invalid;
                    }
                },
            }
            Shape::Lineage(copy_text(root))
        },
    }
}

/// Where a row belongs.
#[derive(Clone, PartialEq, Eq, Debug)]
pub enum Affiliation {
    /// To the lineage with this generation key.
    Lineage(String),
    /// Nowhere: spawned without lineage fields, and the root of no lineage.
    Legacy,
    /// Nowhere: registered by hand.
    Manual,
    /// Nowhere: what the row says cannot be trusted.
    Invalid,
}

impl View for Affiliation {
    type V = ShapeView;

    open spec fn view(&self) -> ShapeView {
        match self {
            Affiliation::Lineage(r) => ShapeView::Lineage(r@),
            Affiliation::Legacy => ShapeView::Legacy,
            Affiliation::Manual => ShapeView::Manual,
            Affiliation::Invalid => ShapeView::Invalid,
        }
    }
}

/// Where a row belongs: to its lineage, or, for a legacy row, to the lineage that others
/// root in its tag.
pub open spec fn affiliation_of(
    w: AgentSnapshot,
    roots: Set<Seq<char>>,
    ws: Seq<AgentSnapshot>,
) -> ShapeView {
    let s = shape_of(w, ws);
    if s is Legacy && roots.contains(w.spawn_tag@) {
        ShapeView::Lineage(w.spawn_tag@)
    } else {
        s
    }
}

/// Where a row belongs, given the roots that well-shaped rows declare.
pub fn worker_affiliation(w: &AgentSnapshot, roots: &TextSet, idx: &TagIndex) -> (r: Affiliation)
    ensures
        r@ == affiliation_of(*w, roots@, idx.rows()),
{
    match row_shape(w, idx) {
        Shape::Lineage(root) => Affiliation::Lineage(root),
        Shape::Legacy => if roots.contains(w.spawn_tag.as_str()) {
            Affiliation::Lineage(copy_text(w.spawn_tag.as_str()))
        } else {
            Affiliation::Legacy
        },
        Shape::Manual => Affiliation::Manual,
        Shape::Invalid => Affiliation::Invalid,
    }
}

/// The roots that the well-shaped rows declare.
pub open spec fn roots_of(ws: Seq<AgentSnapshot>) -> Set<Seq<char>> {
    Set::new(|k: Seq<char>| declares(ws, ws.len() as int, k))
}

/// Whether one of the first `n` rows is a well-shaped member of the lineage `k`.
pub open spec fn declares(ws: Seq<AgentSnapshot>, n: int, k: Seq<char>) -> bool {
    exists|i: int| 0 <= i < n && #[trigger] shape_of(ws[i], ws) == ShapeView::Lineage(k)
}

/// The identity of a group.
#[derive(Clone, PartialEq, Eq, Debug)]
pub enum GroupKey {
    /// A lineage, by the generation key of its root.
    Lineage(String),
    /// The rows that belong nowhere. They share a place on the screen and nothing else.
    Standalone,
}

/// The identity of a group.
pub enum GroupKeyView {
    Lineage(Seq<char>),
    Standalone,
}

impl View for GroupKey {
    type V = GroupKeyView;

    open spec fn view(&self) -> GroupKeyView {
        match self {
            GroupKey::Lineage(k) => GroupKeyView::Lineage(k@),
            GroupKey::Standalone => GroupKeyView::Standalone,
        }
    }
}

/// A group of rows.
#[derive(Clone, PartialEq, Eq, Debug)]
pub struct Group {
    pub key: GroupKey,
    /// The rows' indices, in the order of the rows.
    pub members: Vec<usize>,
}

/// A group of rows.
pub struct GroupView {
    pub key: GroupKeyView,
    pub members: Seq<int>,
}

/// Machine integers as integers.
pub open spec fn ints(v: Seq<usize>) -> Seq<int> {
    v.map_values(|i: usize| i as int)
}

impl View for Group {
    type V = GroupView;

    open spec fn view(&self) -> GroupView {
        GroupView { key: self.key@, members: ints(self.members@) }
    }
}

/// The views of a list of groups.
pub open spec fn group_views(v: Seq<Group>) -> Seq<GroupView> {
    v.map_values(|g: Group| g@)
}

/// The group of row `i`.
pub open spec fn key_of(ws: Seq<AgentSnapshot>, i: int) -> GroupKeyView {
    match affiliation_of(ws[i], roots_of(ws), ws) {
        ShapeView::Lineage(k) => GroupKeyView::Lineage(k),
        _ => GroupKeyView::Standalone,
    }
}

/// Those of the first `n` rows that are in the group `key`.
pub open spec fn members_upto(ws: Seq<AgentSnapshot>, key: GroupKeyView, n: int) -> Seq<int>
    decreases n,
{
    if n <= 0 {
        Seq::empty()
    } else if key_of(ws, n - 1) == key {
        members_upto(ws, key, n - 1).push(n - 1)
    } else {
        members_upto(ws, key, n - 1)
    }
}

/// The number of leading keys that come before `k`.
pub open spec fn slot(s: Seq<Seq<char>>, k: Seq<char>) -> int
    decreases s.len(),
{
    if s.len() > 0 && text::less(s[0], k) {
        1 + slot(s.skip(1), k)
    } else {
        0
    }
}

/// The keys with `k` among them, in its place.
pub open spec fn with_key(s: Seq<Seq<char>>, k: Seq<char>) -> Seq<Seq<char>> {
    let p = slot(s, k);
    if p < s.len() && s[p] == k {
        s
    } else {
        s.insert(p, k)
    }
}

/// The lineages of the first `n` rows, in the order of their keys.
pub open spec fn keys_upto(ws: Seq<AgentSnapshot>, n: int) -> Seq<Seq<char>>
    decreases n,
{
    if n <= 0 {
        Seq::empty()
    } else {
        match key_of(ws, n - 1) {
            GroupKeyView::Lineage(k) => with_key(keys_upto(ws, n - 1), k),
            GroupKeyView::Standalone => keys_upto(ws, n - 1),
        }
    }
}

/// The group of the lineage `k` among the first `n` rows.
pub open spec fn lineage_group(ws: Seq<AgentSnapshot>, n: int, k: Seq<char>) -> GroupView {
    GroupView {
        key: GroupKeyView::Lineage(k),
        members: members_upto(ws, GroupKeyView::Lineage(k), n),
    }
}

/// The lineage groups of the first `n` rows.
pub open spec fn lineages_upto(ws: Seq<AgentSnapshot>, n: int) -> Seq<GroupView> {
    keys_upto(ws, n).map_values(|k: Seq<char>| lineage_group(ws, n, k))
}

/// The groups of the rows: the lineages in the order of their keys, and last the rows that
/// belong nowhere, where there are any.
pub open spec fn groups_of(ws: Seq<AgentSnapshot>) -> Seq<GroupView> {
    let n = ws.len() as int;
    let alone = members_upto(ws, GroupKeyView::Standalone, n);
    if alone.len() > 0 {
        lineages_upto(ws, n).push(
            GroupView { key: GroupKeyView::Standalone, members: alone },
        )
    } else {
        lineages_upto(ws, n)
    }
}

/// Whether keys stand in their order, none of them twice.
pub open spec fn ascending(s: Seq<Seq<char>>) -> bool {
    forall|i: int, j: int| #![trigger s[i], s[j]] 0 <= i < j < s.len() ==> text::less(s[i], s[j])
}

/// The place of a key among ascending keys parts those before it from the others.
proof fn lemma_slot(s: Seq<Seq<char>>, k: Seq<char>)
    requires
        ascending(s),
    ensures
        0 <= slot(s, k) <= s.len(),
        forall|i: int| 0 <= i < slot(s, k) ==> text::less(#[trigger] s[i], k),
        forall|i: int| slot(s, k) <= i < s.len() ==> !text::less(#[trigger] s[i], k),
    decreases s.len(),
{
    if s.len() > 0 {
        let t = s.skip(1);
        assert forall|i: int, j: int| #![trigger t[i], t[j]] 0 <= i < j < t.len() implies text::less(
            t[i],
            t[j],
        ) by {
            assert(t[i] == s[i + 1] && t[j] == s[j + 1]);
        }
        lemma_slot(t, k);
        if text::less(s[0], k) {
            assert forall|i: int| 0 <= i < slot(s, k) implies text::less(#[trigger] s[i], k) by {
                if i > 0 {
                    assert(t[i - 1] == s[i]);
                }
            }
            assert forall|i: int| slot(s, k) <= i < s.len() implies !text::less(
                #[trigger] s[i],
                k,
            ) by {
                assert(t[i - 1] == s[i]);
            }
        } else {
            assert forall|i: int| 0 <= i < s.len() implies !text::less(#[trigger] s[i], k) by {
                if i > 0 && text::less(s[i], k) {
                    text::lemma_less_transitive(s[0], s[i], k);
                }
            }
        }
    }
}

/// The place of a leading part of the keys.
proof fn lemma_slot_is(s: Seq<Seq<char>>, k: Seq<char>, p: int)
    requires
        0 <= p <= s.len(),
        forall|i: int| 0 <= i < p ==> text::less(#[trigger] s[i], k),
        p < s.len() ==> !text::less(s[p], k),
    ensures
        slot(s, k) == p,
    decreases s.len(),
{
    if p > 0 {
        let t = s.skip(1);
        assert forall|i: int| 0 <= i < p - 1 implies text::less(#[trigger] t[i], k) by {
            assert(t[i] == s[i + 1]);
        }
        assert(s[0] == s[0]);
        lemma_slot_is(t, k, p - 1);
    }
}

/// Adding a key keeps the keys ascending and adds no other.
proof fn lemma_with_key(s: Seq<Seq<char>>, k: Seq<char>)
    requires
        ascending(s),
    ensures
        ascending(with_key(s, k)),
        forall|x: Seq<char>| #[trigger] with_key(s, k).contains(x) <==> s.contains(x) || x == k,
        s.contains(k) ==> slot(s, k) < s.len() && s[slot(s, k)] == k,
{
    lemma_slot(s, k);
    let p = slot(s, k);
    if s.contains(k) {
        let i = s.index_of(k);
        text::lemma_less_irreflexive(k);
        assert(s[i] == k);
        assert(i >= p);
        if i > p {
            assert(text::less(s[p], s[i]));
        }
    }
    let t = with_key(s, k);
    if !(p < s.len() && s[p] == k) {
        assert(t == s.insert(p, k));
        assert forall|i: int, j: int| #![trigger t[i], t[j]] 0 <= i < j < t.len() implies text::less(
            t[i],
            t[j],
        ) by {
            if i == p {
                text::lemma_less_total(k, s[j - 1]);
                if s[j - 1] == k {
                    assert(s.contains(k));
                }
                assert(t[j] == s[j - 1]);
            } else if j == p {
                assert(t[i] == s[i]);
            } else {
                let a = if i < p { i } else { i - 1 };
                let b = if j < p { j } else { j - 1 };
                assert(t[i] == s[a] && t[j] == s[b]);
            }
        }
        assert forall|x: Seq<char>| #[trigger] t.contains(x) <==> s.contains(x) || x == k by {
            if t.contains(x) {
                let i = t.index_of(x);
                if i != p {
                    let a = if i < p { i } else { i - 1 };
                    assert(s[a] == x);
                }
            }
            if s.contains(x) {
                let a = s.index_of(x);
                let i = if a < p { a } else { a + 1 };
                assert(t[i] == x);
            }
            assert(t[p] == k);
        }
    } else {
        assert(s[p] == k);
    }
}

/// The lineages' keys ascend, and each is the key of one of the rows.
proof fn lemma_keys(ws: Seq<AgentSnapshot>, n: int)
    requires
        0 <= n <= ws.len(),
    ensures
        ascending(keys_upto(ws, n)),
        forall|k: Seq<char>| #[trigger] keys_upto(ws, n).contains(k) <==> exists|i: int|
            0 <= i < n && #[trigger] key_of(ws, i) == GroupKeyView::Lineage(k),
    decreases n,
{
    if n > 0 {
        lemma_keys(ws, n - 1);
        let s = keys_upto(ws, n - 1);
        if let GroupKeyView::Lineage(k0) = key_of(ws, n - 1) {
            lemma_with_key(s, k0);
        }
        assert forall|k: Seq<char>| #[trigger] keys_upto(ws, n).contains(k) <==> exists|i: int|
            0 <= i < n && #[trigger] key_of(ws, i) == GroupKeyView::Lineage(k) by {
            if exists|i: int| 0 <= i < n && #[trigger] key_of(ws, i) == GroupKeyView::Lineage(k) {
                let i = choose|i: int|
                    0 <= i < n && #[trigger] key_of(ws, i) == GroupKeyView::Lineage(k);
                if i < n - 1 {
                    assert(key_of(ws, i) == GroupKeyView::Lineage(k));
                    assert(s.contains(k));
                }
            }
            if keys_upto(ws, n).contains(k) {
                if s.contains(k) {
                    let i = choose|i: int|
                        0 <= i < n - 1 && #[trigger] key_of(ws, i) == GroupKeyView::Lineage(k);
                    assert(0 <= i < n && key_of(ws, i) == GroupKeyView::Lineage(k));
                } else {
                    assert(key_of(ws, n - 1) == GroupKeyView::Lineage(k));
                }
            }
        }
    }
}

/// The members of a group are exactly the rows with its key, in the order of the rows.
pub proof fn lemma_members(ws: Seq<AgentSnapshot>, key: GroupKeyView, n: int)
    requires
        0 <= n <= ws.len(),
    ensures
        forall|i: int| #[trigger] members_upto(ws, key, n).contains(i) <==> 0 <= i < n && key_of(ws, i)
            == key,
        forall|a: int, b: int|
            #![trigger members_upto(ws, key, n)[a], members_upto(ws, key, n)[b]]
            0 <= a < b < members_upto(ws, key, n).len() ==> members_upto(ws, key, n)[a]
                < members_upto(ws, key, n)[b],
    decreases n,
{
    if n > 0 {
        lemma_members(ws, key, n - 1);
        let s = members_upto(ws, key, n - 1);
        let t = members_upto(ws, key, n);
        assert forall|i: int| #[trigger] t.contains(i) <==> 0 <= i < n && key_of(ws, i) == key by {
            if key_of(ws, n - 1) == key {
                assert(t == s.push(n - 1));
                if t.contains(i) {
                    let a = t.index_of(i);
                    if a < s.len() {
                        assert(s[a] == i);
                        assert(s.contains(i));
                    }
                }
                if s.contains(i) {
                    let a = s.index_of(i);
                    assert(t[a] == i);
                }
                assert(t[s.len() as int] == n - 1);
            } else {
                assert(t == s);
            }
        }
        assert forall|a: int, b: int| #![trigger t[a], t[b]] 0 <= a < b < t.len() implies t[a] < t[b] by {
            if key_of(ws, n - 1) == key && b == s.len() {
                assert(s[a] == t[a]);
                assert(s.contains(s[a]));
            } else {
                assert(t[a] == s[a] && t[b] == s[b]);
            }
        }
    }
}

/// The texts of the keys of lineage groups.
pub open spec fn key_texts(v: Seq<GroupView>) -> Seq<Seq<char>> {
    v.map_values(|g: GroupView| g.key->Lineage_0)
}

/// The place of a key among the groups.
fn slot_in(groups: &Vec<Group>, k: &str) -> (p: usize)
    requires
        forall|i: int| 0 <= i < groups@.len() ==> (#[trigger] groups@[i]).key is Lineage,
        ascending(key_texts(group_views(groups@))),
    ensures
        p == slot(key_texts(group_views(groups@)), k@),
        p <= groups@.len(),
{
    let ghost s = key_texts(group_views(groups@));
    let mut p: usize = 0;
    while p < groups.len()
        invariant
            p <= groups@.len(),
            s == key_texts(group_views(groups@)),
            forall|i: int| 0 <= i < groups@.len() ==> (#[trigger] groups@[i]).key is Lineage,
            forall|i: int| 0 <= i < p ==> text::less(#[trigger] s[i], k@),
        decreases groups@.len() - p,
    {
        assert(groups@[p as int].key is Lineage);
        let before = match &groups[p].key {
            GroupKey::Lineage(t) => comes_before(t.as_str(), k),
            GroupKey::Standalone => false,
        };
        assert(before == text::less(s[p as int], k@));
        if !before {
            proof {
                lemma_slot_is(s, k@, p as int);
            }
            return p;
        }
        p += 1;
    }
    proof {
        lemma_slot_is(s, k@, p as int);
    }
    p
}

/// The groups of the rows.
///
/// The roots are collected from all rows first: whether a legacy row belongs to a lineage
/// depends on every other row. A row of an invalid shape declares no root.
pub fn group_by_lineage(workers: &[AgentSnapshot]) -> (r: Vec<Group>)
    ensures
        group_views(r@) == groups_of(workers@),
{
    let idx = TagIndex::build(workers);
    let ghost ws = workers@;
    let mut roots = TextSet::new();
    let mut n: usize = 0;
    while n < workers.len()
        invariant
            ws == workers@,
            idx.rows() == ws,
            n <= ws.len(),
            forall|k: Seq<char>| #[trigger] roots@.contains(k) <==> declares(ws, n as int, k),
        decreases ws.len() - n,
    {
        let ghost before = roots@;
        let shape = row_shape(&workers[n], &idx);
        let ghost sv = shape@;
        if let Shape::Lineage(root) = shape {
            roots.insert(root);
        }
        proof {
            assert forall|k: Seq<char>| #[trigger] roots@.contains(k) <==> declares(ws, n + 1, k) by {
                if before.contains(k) {
                    let i = choose|i: int|
                        0 <= i < n && #[trigger] shape_of(ws[i], ws) == ShapeView::Lineage(k);
                    assert(0 <= i < n + 1 && shape_of(ws[i], ws) == ShapeView::Lineage(k));
                } else if roots@.contains(k) {
                    assert(shape_of(ws[n as int], ws) == ShapeView::Lineage(k));
                }
                if declares(ws, n + 1, k) {
                    let i = choose|i: int|
                        0 <= i < n + 1 && #[trigger] shape_of(ws[i], ws) == ShapeView::Lineage(k);
                    if i < n {
                        assert(declares(ws, n as int, k));
                    }
                }
            }
        }
        n += 1;
    }
    proof {
        assert(roots@ =~= roots_of(ws));
    }
    let mut out: Vec<Group> = Vec::new();
    let mut alone: Vec<usize> = Vec::new();
    let mut i: usize = 0;
    proof {
        assert(group_views(out@) =~= lineages_upto(ws, 0));
        assert(ints(alone@) =~= members_upto(ws, GroupKeyView::Standalone, 0));
    }
    while i < workers.len()
        invariant
            ws == workers@,
            idx.rows() == ws,
            roots@ == roots_of(ws),
            i <= ws.len(),
            group_views(out@) == lineages_upto(ws, i as int),
            ints(alone@) == members_upto(ws, GroupKeyView::Standalone, i as int),
        decreases ws.len() - i,
    {
        let ghost out0 = out@;
        let ghost alone0 = alone@;
        proof {
            lemma_keys(ws, i as int);
            lemma_lineage_views(ws, i as int, out@);
        }
        match worker_affiliation(&workers[i], &roots, &idx) {
            Affiliation::Lineage(k) => {
                let p = slot_in(&out, k.as_str());
                let ghost key = k@;
                let found = p < out.len() && key_is(&out[p].key, k.as_str());
                proof {
                    assert(key_of(ws, i as int) == GroupKeyView::Lineage(key));
                    lemma_members(ws, GroupKeyView::Lineage(key), i as int);
                    lemma_with_key(keys_upto(ws, i as int), key);
                    if p < out@.len() {
                        assert(out@[p as int].key is Lineage);
                        assert(keys_upto(ws, i as int)[p as int] == out@[p as int].key->Lineage_0@);
                    }
                }
                if found {
                    out[p].members.push(i);
                    proof {
                        assert(ints(out@[p as int].members@) =~= ints(
                            out0[p as int].members@,
                        ).push(i as int));
                        lemma_group_grows(ws, i as int, out0, out@, p as int);
                    }
                } else {
                    let mut first: Vec<usize> = Vec::new();
                    first.push(i);
                    let g = Group { key: GroupKey::Lineage(k), members: first };
                    proof {
                        assert(ints(first@) =~= seq![i as int]);
                        lemma_group_added(ws, i as int, out0, g, p as int);
                    }
                    out.insert(p, g);
                }
            },
            _ => {
                alone.push(i);
                proof {
                    assert(key_of(ws, i as int) == GroupKeyView::Standalone);
                    assert(ints(alone@) =~= ints(alone0).push(i as int));
                    assert(group_views(out@) =~= lineages_upto(ws, i + 1));
                }
            },
        }
        i += 1;
    }
    if alone.len() > 0 {
        let ghost before = out@;
        out.push(Group { key: GroupKey::Standalone, members: alone });
        proof {
            assert(group_views(out@) =~= groups_of(ws));
        }
    }
    out
}

/// Whether a group's key is the lineage `k`.
fn key_is(key: &GroupKey, k: &str) -> (r: bool)
    ensures
        r == (key@ == GroupKeyView::Lineage(k@)),
{
    match key {
        GroupKey::Lineage(t) => same(t.as_str(), k),
        GroupKey::Standalone => false,
    }
}

/// What the groups' views say of the groups.
proof fn lemma_lineage_views(ws: Seq<AgentSnapshot>, n: int, out: Seq<Group>)
    requires
        group_views(out) == lineages_upto(ws, n),
    ensures
        out.len() == keys_upto(ws, n).len(),
        key_texts(group_views(out)) == keys_upto(ws, n),
        forall|i: int| 0 <= i < out.len() ==> (#[trigger] out[i]).key is Lineage,
{
    assert(group_views(out).len() == out.len());
    assert(lineages_upto(ws, n).len() == keys_upto(ws, n).len());
    assert forall|i: int| 0 <= i < out.len() implies (#[trigger] out[i]).key is Lineage by {
        assert(group_views(out)[i] == out[i]@);
        assert(lineages_upto(ws, n)[i] == lineage_group(ws, n, keys_upto(ws, n)[i]));
    }
    assert(key_texts(group_views(out)) =~= keys_upto(ws, n));
}

/// A row joins a group that is there.
proof fn lemma_group_grows(ws: Seq<AgentSnapshot>, n: int, out0: Seq<Group>, out1: Seq<Group>, p: int)
    requires
        0 <= n < ws.len(),
        group_views(out0) == lineages_upto(ws, n),
        0 <= p < out0.len(),
        out1.len() == out0.len(),
        forall|j: int| 0 <= j < out0.len() && j != p ==> #[trigger] out1[j] == out0[j],
        out1[p].key == out0[p].key,
        ints(out1[p].members@) == ints(out0[p].members@).push(n),
        key_of(ws, n) == out0[p].key@,
        ascending(keys_upto(ws, n)),
        keys_upto(ws, n + 1) == keys_upto(ws, n),
        key_texts(group_views(out0)) == keys_upto(ws, n),
    ensures
        group_views(out1) == lineages_upto(ws, n + 1),
{
    let keys = keys_upto(ws, n);
    assert forall|j: int| 0 <= j < out1.len() implies #[trigger] group_views(out1)[j]
        == lineages_upto(ws, n + 1)[j] by {
        assert(group_views(out0)[j] == out0[j]@);
        assert(lineages_upto(ws, n)[j] == lineage_group(ws, n, keys[j]));
        assert(lineages_upto(ws, n + 1)[j] == lineage_group(ws, n + 1, keys[j]));
        if j != p {
            assert(out1[j] == out0[j]);
            assert(keys[j] != keys[p]) by {
                text::lemma_less_irreflexive(keys[j]);
                if j < p {
                    assert(text::less(keys[j], keys[p]));
                } else {
                    assert(text::less(keys[p], keys[j]));
                }
            }
            assert(group_views(out0)[p] == lineage_group(ws, n, keys[p]));
        }
    }
    assert(group_views(out1) =~= lineages_upto(ws, n + 1));
}

/// A row starts a group.
proof fn lemma_group_added(ws: Seq<AgentSnapshot>, n: int, out0: Seq<Group>, g: Group, p: int)
    requires
        0 <= n < ws.len(),
        group_views(out0) == lineages_upto(ws, n),
        g.key@ == key_of(ws, n),
        g.key is Lineage,
        ints(g.members@) == seq![n],
        p == slot(keys_upto(ws, n), g.key->Lineage_0@),
        0 <= p <= out0.len(),
        !keys_upto(ws, n).contains(g.key->Lineage_0@),
        keys_upto(ws, n + 1) == keys_upto(ws, n).insert(p, g.key->Lineage_0@),
        forall|k: Seq<char>| #[trigger] keys_upto(ws, n).contains(k) <==> exists|i: int|
            0 <= i < n && #[trigger] key_of(ws, i) == GroupKeyView::Lineage(k),
    ensures
        group_views(out0.insert(p, g)) == lineages_upto(ws, n + 1),
{
    let key = g.key->Lineage_0@;
    let keys = keys_upto(ws, n);
    let out1 = out0.insert(p, g);
    lemma_members(ws, GroupKeyView::Lineage(key), n);
    assert(members_upto(ws, GroupKeyView::Lineage(key), n) =~= Seq::<int>::empty()) by {
        let m = members_upto(ws, GroupKeyView::Lineage(key), n);
        if m.len() > 0 {
            assert(m.contains(m[0]));
            assert(keys.contains(key));
        }
    }
    assert(members_upto(ws, GroupKeyView::Lineage(key), n + 1) =~= seq![n]);
    lemma_lineage_views(ws, n, out0);
    assert forall|j: int| 0 <= j < out1.len() implies #[trigger] group_views(out1)[j]
        == lineages_upto(ws, n + 1)[j] by {
        assert(lineages_upto(ws, n + 1)[j] == lineage_group(ws, n + 1, keys_upto(ws, n + 1)[j]));
        if j != p {
            let a = if j < p { j } else { j - 1 };
            assert(out1[j] == out0[a]);
            assert(group_views(out0)[a] == out0[a]@);
            assert(lineages_upto(ws, n)[a] == lineage_group(ws, n, keys[a]));
            assert(keys_upto(ws, n + 1)[j] == keys[a]);
            assert(keys.contains(keys[a]));
        }
    }
    assert(group_views(out1) =~= lineages_upto(ws, n + 1));
}

/// What the screen calls the rows that belong nowhere.
pub const STANDALONE_LABEL: &'static str = "(standalone)";

/// The first readable row from `from` on that carries the tag `k`.
pub open spec fn first_tagged(ws: Seq<AgentSnapshot>, k: Seq<char>, from: int) -> Option<int>
    decreases ws.len() - from,
{
    if from < 0 || from >= ws.len() {
        None
    } else if !ws[from].corrupt && ws[from].spawn_tag@ == k {
        Some(from)
    } else {
        first_tagged(ws, k, from + 1)
    }
}

/// What is shown for a generation whose row is not there.
pub open spec fn tombstone_text(key: Seq<char>) -> Seq<char> {
    match registry::display_parts(key) {
        Some((name, code)) => name + "\u{2020} ("@ + code + ")"@,
        None => "?\u{2020}"@,
    }
}

/// What is shown for a generation whose row is not there.
fn tombstone(key: &str) -> (r: String)
    ensures
        r@ == tombstone_text(key@),
{
    match tag_display_parts(key) {
        Some((name, code)) => {
            let mut s = name;
            s.append("\u{2020} (");
            s.append(code.as_str());
            s.append(")");
            s
        },
        None => copy_text("?\u{2020}"),
    }
}

/// The title of a group.
pub open spec fn label_of(ws: Seq<AgentSnapshot>, key: GroupKeyView) -> Seq<char> {
    match key {
        GroupKeyView::Standalone => STANDALONE_LABEL@,
        GroupKeyView::Lineage(k) => match first_tagged(ws, k, 0) {
            Some(i) => "lineage "@ + ws[i].name@,
            None => "lineage "@ + tombstone_text(k),
        },
    }
}

/// The title of a group: the name of the root where its row is there, else the name and the
/// short code of its generation with a dagger. The parts of a key are for display alone; rows
/// are grouped by whole keys.
pub fn group_label(model: &Model, g: &Group) -> (r: String)
    ensures
        r@ == label_of(model.workers@, g.key@),
{
    match &g.key {
        GroupKey::Standalone => copy_text(STANDALONE_LABEL),
        GroupKey::Lineage(key) => {
            let ghost ws = model.workers@;
            let mut i: usize = 0;
            let mut r = copy_text("lineage ");
            while i < model.workers.len()
                invariant
                    i <= ws.len(),
                    ws == model.workers@,
                    r@ == "lineage "@,
                    g.key@ == GroupKeyView::Lineage(key@),
                    first_tagged(ws, key@, 0) == first_tagged(ws, key@, i as int),
                decreases ws.len() - i,
            {
                let w = &model.workers[i];
                if !w.corrupt && same(w.spawn_tag.as_str(), key.as_str()) {
                    r.append(w.name.as_str());
                    return r;
                }
                i += 1;
            }
            let t = tombstone(key.as_str());
            r.append(t.as_str());
            r
        },
    }
}

/// One step of a lineage as it is shown.
#[derive(Clone, PartialEq, Eq, Debug)]
pub enum Crumb {
    /// A generation.
    Node {
        /// The worker's name; a dagger and a short code where its row is not there.
        label: String,
        /// The generation's row is not there.
        tombstone: bool,
    },
    /// Generations that the registry does not know.
    Gap,
}

/// One step of a lineage as it is shown.
pub enum CrumbView {
    Node { label: Seq<char>, tombstone: bool },
    Gap,
}

impl View for Crumb {
    type V = CrumbView;

    open spec fn view(&self) -> CrumbView {
        match self {
            Crumb::Node { label, tombstone } => CrumbView::Node {
                label: label@,
                tombstone: *tombstone,
            },
            Crumb::Gap => CrumbView::Gap,
        }
    }
}

/// The views of a list of steps.
pub open spec fn crumb_views(v: Seq<Crumb>) -> Seq<CrumbView> {
    v.map_values(|c: Crumb| c@)
}

/// How a generation is shown.
pub open spec fn crumb_at(ws: Seq<AgentSnapshot>, key: Seq<char>) -> CrumbView {
    match find(ws, key) {
        Some(i) => CrumbView::Node { label: ws[i].name@, tombstone: false },
        None => CrumbView::Node { label: tombstone_text(key), tombstone: true },
    }
}

/// How a generation is shown.
pub fn crumb_of(key: &str, idx: &TagIndex) -> (r: Crumb)
    ensures
        r@ == crumb_at(idx.rows(), key@),
{
    match idx.get(key) {
        Some(w) => Crumb::Node { label: copy_text(w.name.as_str()), tombstone: false },
        None => Crumb::Node { label: tombstone(key), tombstone: true },
    }
}

/// The generations from `cur` up to its root, as far as the rows prove them. `chain` holds
/// those that were met already. The climb ends at the root, at a row without a parent, at a
/// generation that was met before, after a parent that no single row is, after a parent that
/// is no well-shaped member of the lineage, and when it is longer than the registry.
pub open spec fn climb(
    ws: Seq<AgentSnapshot>,
    root: Seq<char>,
    chain: Seq<Seq<char>>,
    cur: AgentSnapshot,
) -> Seq<Seq<char>>
    decreases ws.len() + 1 - chain.len(),
{
    if cur.spawn_tag@ == root || chain.len() > ws.len() {
        chain
    } else {
        match opt_text(cur.parent_agent) {
            None => chain,
            Some(p) => if chain.contains(p) {
                chain
            } else {
                match find(ws, p) {
                    Some(i) => if shape_of(ws[i], ws) == ShapeView::Lineage(root) {
                        climb(ws, root, chain.push(p), ws[i])
                    } else {
                        chain.push(p)
                    },
                    None => chain.push(p),
                }
            },
        }
    }
}

/// The generations of a member of the lineage `root`, itself first.
pub open spec fn chain_of(ws: Seq<AgentSnapshot>, root: Seq<char>, w: AgentSnapshot) -> Seq<Seq<char>> {
    climb(ws, root, seq![w.spawn_tag@], w)
}

/// The steps of a chain, the oldest first.
pub open spec fn crumbs_of(ws: Seq<AgentSnapshot>, chain: Seq<Seq<char>>) -> Seq<CrumbView> {
    chain.reverse().map_values(|k: Seq<char>| crumb_at(ws, k))
}

/// The lineage of a row as it is shown: root, a gap where the chain does not reach the root,
/// and the chain down to the row itself. Only a well-shaped member of a lineage has one.
pub open spec fn breadcrumb_of(ws: Seq<AgentSnapshot>, w: AgentSnapshot) -> Option<Seq<CrumbView>> {
    match shape_of(w, ws) {
        ShapeView::Lineage(root) => {
            let chain = chain_of(ws, root, w);
            if chain.last() == root {
                Some(crumbs_of(ws, chain))
            } else {
                Some(seq![crumb_at(ws, root), CrumbView::Gap] + crumbs_of(ws, chain))
            }
        },
        _ => None,
    }
}

/// The views of an optional list of steps.
pub open spec fn opt_crumbs(o: Option<Vec<Crumb>>) -> Option<Seq<CrumbView>> {
    match o {
        Some(v) => Some(crumb_views(v@)),
        None => None,
    }
}

/// Whether a text is in a list.
fn has_text(v: &Vec<String>, t: &str) -> (r: bool)
    ensures
        r == text::texts(v@).contains(t@),
{
    let mut i: usize = 0;
    while i < v.len()
        invariant
            i <= v@.len(),
            forall|j: int| 0 <= j < i ==> (#[trigger] text::texts(v@)[j]) != t@,
        decreases v@.len() - i,
    {
        if same(v[i].as_str(), t) {
            proof {
                assert(text::texts(v@)[i as int] == t@);
            }
            return true;
        }
        i += 1;
    }
    false
}

/// The longest that a climb can get: every row once, and one generation whose row is not there.
pub fn hop_limit(model: &Model) -> (r: usize)
    requires
        model.workers@.len() < usize::MAX,
    ensures
        r == model.workers@.len() + 1,
{
    model.workers.len() + 1
}

/// The lineage of a row as it is shown, rebuilt from the two lineage fields alone.
pub fn breadcrumb(model: &Model, w: &AgentSnapshot) -> (r: Option<Vec<Crumb>>)
    ensures
        opt_crumbs(r) == breadcrumb_of(model.workers@, *w),
{
    let idx = TagIndex::build(model.workers.as_slice());
    let ghost ws = model.workers@;
    let root = match row_shape(w, &idx) {
        Shape::Lineage(root) => root,
        _ => {
            return None;
        },
    };
    let mut chain: Vec<String> = Vec::new();
    chain.push(copy_text(w.spawn_tag.as_str()));
    let mut cur: &AgentSnapshot = w;
    let mut going = true;
    proof {
        assert(text::texts(chain@) =~= seq![w.spawn_tag@]);
    }
    while going && !same(cur.spawn_tag.as_str(), root.as_str()) && chain.len() <= model.workers.len()
        invariant
            ws == model.workers@,
            idx.rows() == ws,
            0 < chain@.len() <= ws.len() + 1,
            chain_of(ws, root@, *w) == (if going {
                climb(ws, root@, text::texts(chain@), *cur)
            } else {
                text::texts(chain@)
            }),
        decreases (if going { ws.len() + 2 - chain@.len() } else { 0 }),
    {
        match &cur.parent_agent {
            None => {
                going = false;
            },
            Some(p) => {
                if has_text(&chain, p.as_str()) {
                    going = false;
                } else {
                    proof {
                        text::lemma_texts_push(chain@, *p);
                    }
                    let ghost before = chain@;
                    chain.push(copy_text(p.as_str()));
                    proof {
                        assert(text::texts(chain@) =~= text::texts(before).push(p@));
                    }
                    match idx.get(p.as_str()) {
                        None => {
                            going = false;
                        },
                        Some(pw) => {
                            let belongs = match row_shape(pw, &idx) {
                                Shape::Lineage(r) => same(r.as_str(), root.as_str()),
                                _ => false,
                            };
                            if belongs {
                                cur = pw;
                            } else {
                                going = false;
                            }
                        },
                    }
                }
            },
        }
    }
    let ghost full = text::texts(chain@);
    assert(full == chain_of(ws, root@, *w));
    let mut out: Vec<Crumb> = Vec::new();
    if !same(chain[chain.len() - 1].as_str(), root.as_str()) {
        out.push(crumb_of(root.as_str(), &idx));
        out.push(Crumb::Gap);
    }
    let ghost head = crumb_views(out@);
    let mut i: usize = chain.len();
    proof {
        assert(head =~= (if full.last() == root@ {
            Seq::<CrumbView>::empty()
        } else {
            seq![crumb_at(ws, root@), CrumbView::Gap]
        }));
        assert(crumb_views(out@) =~= head + crumbs_of(ws, full).take(0));
    }
    while i > 0
        invariant
            i <= chain@.len(),
            full == text::texts(chain@),
            idx.rows() == ws,
            crumb_views(out@) == head + crumbs_of(ws, full).take(chain@.len() - i),
        decreases i,
    {
        let ghost before = out@;
        let ghost m = chain@.len() - i;
        let c = crumb_of(chain[i - 1].as_str(), &idx);
        proof {
            assert(c@ == crumbs_of(ws, full)[m]);
            assert(crumbs_of(ws, full).take(m + 1) =~= crumbs_of(ws, full).take(m).push(c@));
        }
        out.push(c);
        proof {
            assert(crumb_views(out@) =~= crumb_views(before).push(c@));
            assert(crumb_views(out@) =~= head + crumbs_of(ws, full).take(m + 1));
        }
        i -= 1;
    }
    proof {
        assert(crumbs_of(ws, full).take(chain@.len() as int) =~= crumbs_of(ws, full));
        if full.last() == root@ {
            assert(head + crumbs_of(ws, full) =~= crumbs_of(ws, full));
        }
    }
    Some(out)
}

/// What is shown for a step.
pub open spec fn crumb_text(c: CrumbView) -> Seq<char> {
    match c {
        CrumbView::Node { label, .. } => label,
        CrumbView::Gap => "\u{2026}"@,
    }
}

/// A lineage in one line.
pub open spec fn line_of(c: Seq<CrumbView>) -> Seq<char> {
    text::join(c.map_values(|x: CrumbView| crumb_text(x)), " \u{2192} "@)
}

/// What is shown for a step.
fn step_text(c: &Crumb) -> (r: String)
    ensures
        r@ == crumb_text(c@),
{
    match c {
        Crumb::Node { label, .. } => copy_text(label.as_str()),
        Crumb::Gap => copy_text("\u{2026}"),
    }
}

/// A lineage in one line: the steps with arrows between them, a gap as an ellipsis.
pub fn breadcrumb_line(crumbs: &[Crumb]) -> (r: String)
    ensures
        r@ == line_of(crumb_views(crumbs@)),
{
    let mut parts: Vec<String> = Vec::new();
    let mut i: usize = 0;
    let ghost want = crumb_views(crumbs@).map_values(|x: CrumbView| crumb_text(x));
    while i < crumbs.len()
        invariant
            i <= crumbs@.len(),
            want == crumb_views(crumbs@).map_values(|x: CrumbView| crumb_text(x)),
            text::texts(parts@) == want.take(i as int),
        decreases crumbs@.len() - i,
    {
        let t = step_text(&crumbs[i]);
        proof {
            text::lemma_texts_push(parts@, t);
            assert(want.take(i + 1) =~= want.take(i as int).push(t@));
        }
        parts.push(t);
        i += 1;
    }
    proof {
        assert(want.take(i as int) =~= want);
    }
    text::join_texts(&parts, " \u{2192} ")
}

/// A lineage in a line of at most `width` characters. Where the whole does not fit, the first
/// and the last step stand for it; where they do not fit either, they are cut.
pub open spec fn fitted_line(c: Seq<CrumbView>, width: int) -> Seq<char> {
    let full = line_of(c);
    if full.len() <= width {
        full
    } else if c.len() > 1 {
        text::truncated(
            crumb_text(c.first()) + " \u{2192} \u{2026} \u{2192} "@ + crumb_text(c.last()),
            width,
        )
    } else {
        text::truncated(full, width)
    }
}

/// A lineage in a line of at most `width` characters.
pub fn breadcrumb_line_fit(crumbs: &[Crumb], width: usize) -> (r: String)
    ensures
        r@ == fitted_line(crumb_views(crumbs@), width as int),
        r@.len() <= width,
{
    let full = breadcrumb_line(crumbs);
    if full.as_str().unicode_len() <= width {
        return full;
    }
    if crumbs.len() > 1 {
        let mut s = step_text(&crumbs[0]);
        s.append(" \u{2192} \u{2026} \u{2192} ");
        let last = step_text(&crumbs[crumbs.len() - 1]);
        s.append(last.as_str());
        truncate_with_ellipsis(s.as_str(), width)
    } else {
        truncate_with_ellipsis(full.as_str(), width)
    }
}

/// Whether row `i` is in group `g`.
pub open spec fn in_group(groups: Seq<GroupView>, g: int, i: int) -> bool {
    0 <= g < groups.len() && groups[g].members.contains(i)
}

/// Whether row `i` is in one of the groups.
pub open spec fn grouped(groups: Seq<GroupView>, i: int) -> bool {
    exists|g: int| #[trigger] in_group(groups, g, i)
}

/// Group `g` is the group of its key.
proof fn lemma_group_at(ws: Seq<AgentSnapshot>, g: int)
    requires
        0 <= g < groups_of(ws).len(),
    ensures
        groups_of(ws)[g].members == members_upto(ws, groups_of(ws)[g].key, ws.len() as int),
        groups_of(ws)[g].key is Standalone <==> g == keys_upto(ws, ws.len() as int).len(),
        g < keys_upto(ws, ws.len() as int).len() ==> groups_of(ws)[g].key == GroupKeyView::Lineage(
            keys_upto(ws, ws.len() as int)[g],
        ),
{
    let n = ws.len() as int;
    if g < keys_upto(ws, n).len() {
        assert(lineages_upto(ws, n)[g] == lineage_group(ws, n, keys_upto(ws, n)[g]));
    }
}

/// The groups part the rows: every row is in exactly one group, and there once.
pub proof fn groups_part_the_rows(ws: Seq<AgentSnapshot>)
    ensures
        forall|i: int| 0 <= i < ws.len() ==> #[trigger] grouped(groups_of(ws), i),
        forall|g: int, h: int, i: int|
            #[trigger] in_group(groups_of(ws), g, i) && #[trigger] in_group(groups_of(ws), h, i)
                ==> g == h,
        forall|g: int, i: int| #[trigger] in_group(groups_of(ws), g, i) ==> 0 <= i < ws.len(),
        forall|g: int, a: int, b: int|
            #![trigger groups_of(ws)[g].members[a], groups_of(ws)[g].members[b]]
            0 <= g < groups_of(ws).len() && 0 <= a < b < groups_of(ws)[g].members.len()
                ==> groups_of(ws)[g].members[a] < groups_of(ws)[g].members[b],
{
    let n = ws.len() as int;
    let all = groups_of(ws);
    let keys = keys_upto(ws, n);
    lemma_keys(ws, n);
    assert forall|i: int| 0 <= i < n implies #[trigger] grouped(all, i) by {
        let key = key_of(ws, i);
        lemma_members(ws, key, n);
        assert(members_upto(ws, key, n).contains(i));
        match key {
            GroupKeyView::Lineage(k) => {
                assert(keys.contains(k));
                let g = keys.index_of(k);
                lemma_group_at(ws, g);
                assert(in_group(all, g, i));
            },
            GroupKeyView::Standalone => {
                let g = keys.len() as int;
                assert(all.len() == g + 1);
                lemma_group_at(ws, g);
                assert(in_group(all, g, i));
            },
        }
    }
    assert forall|g: int, i: int| #[trigger] in_group(all, g, i) implies 0 <= i < n && key_of(ws, i)
        == all[g].key by {
        lemma_group_at(ws, g);
        lemma_members(ws, all[g].key, n);
    }
    assert forall|g: int, h: int, i: int| #[trigger] in_group(all, g, i) && #[trigger] in_group(
        all,
        h,
        i,
    ) implies g == h by {
        lemma_group_at(ws, g);
        lemma_group_at(ws, h);
        assert(all[g].key == all[h].key);
        if g < keys.len() && h < keys.len() && g != h {
            text::lemma_less_irreflexive(keys[g]);
            if g < h {
                assert(text::less(keys[g], keys[h]));
            } else {
                assert(text::less(keys[h], keys[g]));
            }
        }
    }
    assert forall|g: int, a: int, b: int|
        #![trigger all[g].members[a], all[g].members[b]]
        0 <= g < all.len() && 0 <= a < b < all[g].members.len() implies all[g].members[a]
        < all[g].members[b] by {
        lemma_group_at(ws, g);
        lemma_members(ws, all[g].key, n);
    }
}

/// No group is empty. The lineages come in the order of their keys, and the rows that belong
/// nowhere come last.
pub proof fn groups_are_ordered_and_not_empty(ws: Seq<AgentSnapshot>)
    ensures
        forall|g: int| 0 <= g < groups_of(ws).len() ==> (#[trigger] groups_of(ws)[g]).members.len() > 0,
        forall|g: int|
            0 <= g < groups_of(ws).len() && (#[trigger] groups_of(ws)[g]).key is Standalone ==> g
                == groups_of(ws).len() - 1,
        forall|g: int, h: int|
            #![trigger groups_of(ws)[g], groups_of(ws)[h]]
            0 <= g < h < groups_of(ws).len() && groups_of(ws)[h].key is Lineage ==> groups_of(
                ws,
            )[g].key is Lineage && text::less(
                groups_of(ws)[g].key->Lineage_0,
                groups_of(ws)[h].key->Lineage_0,
            ),
{
    let n = ws.len() as int;
    let keys = keys_upto(ws, n);
    let all = groups_of(ws);
    lemma_keys(ws, n);
    assert forall|g: int| 0 <= g < all.len() implies (#[trigger] all[g]).members.len() > 0 by {
        lemma_group_at(ws, g);
        if g < keys.len() {
            let k = keys[g];
            assert(keys.contains(k));
            let i = choose|i: int| 0 <= i < n && #[trigger] key_of(ws, i) == GroupKeyView::Lineage(k);
            lemma_members(ws, all[g].key, n);
            assert(members_upto(ws, all[g].key, n).contains(i));
        }
    }
    assert forall|g: int| 0 <= g < all.len() && (#[trigger] all[g]).key is Standalone implies g
        == all.len() - 1 by {
        lemma_group_at(ws, g);
    }
    assert forall|g: int, h: int|
        #![trigger all[g], all[h]]
        0 <= g < h < all.len() && all[h].key is Lineage implies all[g].key is Lineage && text::less(
        all[g].key->Lineage_0,
        all[h].key->Lineage_0,
    ) by {
        lemma_group_at(ws, g);
        lemma_group_at(ws, h);
        assert(text::less(keys[g], keys[h]));
    }
}

/// Every lineage group is declared by a well-shaped row: a row that contradicts itself
/// never makes a group, neither for itself nor for a legacy row.
pub proof fn lineages_are_declared(ws: Seq<AgentSnapshot>, g: int)
    requires
        0 <= g < groups_of(ws).len(),
        groups_of(ws)[g].key is Lineage,
    ensures
        declares(ws, ws.len() as int, groups_of(ws)[g].key->Lineage_0),
{
    let n = ws.len() as int;
    lemma_group_at(ws, g);
    lemma_keys(ws, n);
    let k = keys_upto(ws, n)[g];
    assert(keys_upto(ws, n).contains(k));
    let i = choose|i: int| 0 <= i < n && #[trigger] key_of(ws, i) == GroupKeyView::Lineage(k);
    if shape_of(ws[i], ws) is Legacy {
        assert(roots_of(ws).contains(k));
    } else {
        assert(shape_of(ws[i], ws) == ShapeView::Lineage(k));
    }
}

/// Two readable rows with one tag prove nothing: neither belongs to a lineage, whichever of
/// them comes first, and the tag finds neither.
pub proof fn duplicate_tags_stand_alone(ws: Seq<AgentSnapshot>, i: int, j: int)
    requires
        0 <= i < ws.len(),
        0 <= j < ws.len(),
        i != j,
        !ws[i].corrupt,
        !ws[j].corrupt,
        ws[i].spawn_tag@.len() > 0,
        ws[i].spawn_tag@ == ws[j].spawn_tag@,
    ensures
        key_of(ws, i) is Standalone,
        key_of(ws, j) is Standalone,
        find(ws, ws[i].spawn_tag@) is None,
        breadcrumb_of(ws, ws[i]) is None,
{
    let k = ws[i].spawn_tag@;
    assert(tagged(ws[i], k) && tagged(ws[j], k));
    assert(is_dup(ws, k));
    if exists|c: int| only(ws, k, c) {
        let c = choose|c: int| only(ws, k, c);
        assert(i == c && j == c);
    }
}

/// A member of a lineage stays one when the generations between it and the root are gone: the
/// evidence is on the row itself.
pub proof fn lineage_survives_missing_parents(
    w: AgentSnapshot,
    ws: Seq<AgentSnapshot>,
    rest: Seq<AgentSnapshot>,
    root: Seq<char>,
)
    requires
        shape_of(w, ws) == ShapeView::Lineage(root),
        !is_dup(rest, w.spawn_tag@),
        opt_text(w.parent_agent) matches Some(p) ==> find(rest, p) is None,
    ensures
        shape_of(w, rest) == ShapeView::Lineage(root),
{
}

/// A climb extends its chain, and never meets a generation twice.
proof fn lemma_climb(
    ws: Seq<AgentSnapshot>,
    root: Seq<char>,
    chain: Seq<Seq<char>>,
    cur: AgentSnapshot,
)
    requires
        chain.no_duplicates(),
        chain.len() <= ws.len() + 1,
    ensures
        climb(ws, root, chain, cur).no_duplicates(),
        chain.len() <= climb(ws, root, chain, cur).len() <= ws.len() + 1,
        climb(ws, root, chain, cur).take(chain.len() as int) == chain,
    decreases ws.len() + 1 - chain.len(),
{
    let full = climb(ws, root, chain, cur);
    if cur.spawn_tag@ == root || chain.len() > ws.len() {
        assert(full.take(chain.len() as int) =~= chain);
    } else {
        match opt_text(cur.parent_agent) {
            None => {
                assert(full.take(chain.len() as int) =~= chain);
            },
            Some(p) => {
                if chain.contains(p) {
                    assert(full.take(chain.len() as int) =~= chain);
                } else {
                    let next = chain.push(p);
                    assert(next.no_duplicates());
                    match find(ws, p) {
                        Some(i) => {
                            if shape_of(ws[i], ws) == ShapeView::Lineage(root) {
                                lemma_climb(ws, root, next, ws[i]);
                                assert(full.take(next.len() as int) == next);
                                assert(full.take(chain.len() as int) =~= full.take(
                                    next.len() as int,
                                ).take(chain.len() as int));
                            }
                        },
                        None => {},
                    }
                    assert(full.take(chain.len() as int) =~= chain);
                }
            },
        }
    }
}

/// A lineage is shown without a repetition and ends in the row itself, however the parent
/// fields are linked.
pub proof fn breadcrumbs_end_and_do_not_repeat(ws: Seq<AgentSnapshot>, w: AgentSnapshot, root: Seq<char>)
    requires
        shape_of(w, ws) == ShapeView::Lineage(root),
    ensures
        chain_of(ws, root, w).no_duplicates(),
        1 <= chain_of(ws, root, w).len() <= ws.len() + 1,
        chain_of(ws, root, w)[0] == w.spawn_tag@,
        breadcrumb_of(ws, w) is Some,
        breadcrumb_of(ws, w)->0.len() >= 1,
        breadcrumb_of(ws, w)->0.last() == crumb_at(ws, w.spawn_tag@),
        breadcrumb_of(ws, w)->0.first() == crumb_at(ws, root),
{
    let start = seq![w.spawn_tag@];
    lemma_climb(ws, root, start, w);
    let chain = chain_of(ws, root, w);
    assert(chain.take(1)[0] == start[0]);
    let shown = crumbs_of(ws, chain);
    assert(shown.len() == chain.len());
    assert(chain.reverse()[chain.len() - 1] == chain[0]);
    assert(shown.last() == crumb_at(ws, w.spawn_tag@));
    assert(chain.reverse()[0] == chain.last());
}

} // verus!
