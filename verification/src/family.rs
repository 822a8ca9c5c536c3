//! What makes a lineage: which names and generation keys there are, which workers belong together,
//! and what their families are called.

use crate::lineage;
use crate::lineage::{CrumbView, GroupKeyView, ShapeView};
use crate::registry;
use crate::registry::AgentSnapshot;
use crate::text;
use crate::wording;
use vstd::prelude::*;

verus! {

/// A name is made of letters, digits, underscores and dashes, and is not empty.
pub proof fn which_names_are_valid(s: Seq<char>)
    ensures
        registry::valid_name(s) <==> s.len() > 0 && forall|i: int|
            0 <= i < s.len() ==> {
                let c = #[trigger] s[i];
                ('a' <= c && c <= 'z') || ('A' <= c && c <= 'Z') || ('0' <= c && c <= '9') || c
                    == '_' || c == '-'
            },
{
}

/// Whether a text is a number in decimal digits.
pub open spec fn digits(s: Seq<char>) -> bool {
    s.len() > 0 && forall|i: int| 0 <= i < s.len() ==> '0' <= #[trigger] s[i] <= '9'
}

/// Whether a text is twelve digits of a hexadecimal number in small letters.
pub open spec fn code(s: Seq<char>) -> bool {
    s.len() == 12 && forall|i: int|
        0 <= i < 12 ==> ('0' <= #[trigger] s[i] <= '9') || ('a' <= s[i] <= 'f')
}

/// A generation key as it is put together.
pub open spec fn key_from(name: Seq<char>, pid: Seq<char>, hex: Seq<char>) -> Seq<char> {
    "AGENT_BRIDGE_SPAWN_TAG=ab-spawn-"@ + (name + seq!['-'] + pid + seq!['-'] + hex)
}

/// A generation key is the prefix, a name, a number and twelve hexadecimal digits, parted by
/// dashes. It is shown as the name and the first four of those digits.
pub proof fn which_texts_are_generation_keys(name: Seq<char>, pid: Seq<char>, hex: Seq<char>)
    requires
        registry::valid_name(name),
        digits(pid),
        code(hex),
    ensures
        registry::generation_key(key_from(name, pid, hex)),
        registry::display_parts(key_from(name, pid, hex)) == Some((name, hex.take(4))),
{
    let pre = "AGENT_BRIDGE_SPAWN_TAG=ab-spawn-"@;
    let key = key_from(name, pid, hex);
    let rest = name + seq!['-'] + pid + seq!['-'] + hex;
    assert(key.subrange(0, pre.len() as int) =~= pre);
    assert(key.skip(pre.len() as int) =~= rest);
    assert forall|i: int| 0 <= i < hex.len() implies #[trigger] hex[i] != '-' by {}
    let left = name + seq!['-'] + pid;
    lemma_last_dash(left, hex);
    assert(rest =~= left + seq!['-'] + hex);
    assert(rest.take(left.len() as int) =~= left);
    assert forall|i: int| 0 <= i < pid.len() implies #[trigger] pid[i] != '-' by {}
    lemma_last_dash(name, pid);
    let h = left.len() as int;
    let p = name.len() as int;
    assert(text::last_at(rest, '-') == h);
    assert(text::last_at(rest.take(h), '-') == p);
    assert(rest.take(p) =~= name);
    assert(rest.subrange(p + 1, h) =~= pid);
    assert(rest.skip(h + 1) =~= hex);
    lemma_four(hex);
}

/// The last dash stands before what has none.
proof fn lemma_last_dash(a: Seq<char>, b: Seq<char>)
    requires
        forall|i: int| 0 <= i < b.len() ==> #[trigger] b[i] != '-',
    ensures
        text::last_at(a + seq!['-'] + b, '-') == a.len(),
{
    let s = a + seq!['-'] + b;
    wording::where_a_letter_last_stands(s, '-');
    let e = text::last_at(s, '-');
    assert(s[a.len() as int] == '-');
    if e > a.len() {
        assert(s[e] == b[e - a.len() - 1]);
    }
}

/// The first four letters of a code.
proof fn lemma_four(hex: Seq<char>)
    requires
        code(hex),
    ensures
        registry::byte_prefix(hex, 4) == Some(hex.take(4)),
{
    let a = hex.skip(1);
    let b = a.skip(1);
    let c = b.skip(1);
    let d = c.skip(1);
    assert(hex[0] == hex[0] && a[0] == hex[1] && b[0] == hex[2] && c[0] == hex[3]);
    assert(registry::width(hex[0]) == 1 && registry::width(hex[1]) == 1 && registry::width(hex[2])
        == 1 && registry::width(hex[3]) == 1);
    assert(registry::byte_prefix(d, 0) == Some(Seq::<char>::empty()));
    assert(registry::byte_prefix(c, 1) == Some(seq![hex[3]] + Seq::<char>::empty()));
    assert(registry::byte_prefix(b, 2) == Some(
        seq![hex[2]] + (seq![hex[3]] + Seq::<char>::empty()),
    ));
    assert(registry::byte_prefix(a, 3) == Some(
        seq![hex[1]] + (seq![hex[2]] + (seq![hex[3]] + Seq::<char>::empty())),
    ));
    assert(seq![hex[0]] + (seq![hex[1]] + (seq![hex[2]] + (seq![hex[3]] + Seq::<char>::empty())))
        =~= hex.take(4));
}

/// Nothing but what is put together so is a generation key.
pub proof fn no_other_text_is_a_generation_key(s: Seq<char>)
    requires
        registry::generation_key(s),
    ensures
        exists|name: Seq<char>, pid: Seq<char>, hex: Seq<char>|
            registry::valid_name(name) && digits(pid) && code(hex) && s == #[trigger] key_from(
                name,
                pid,
                hex,
            ),
{
    let pre = "AGENT_BRIDGE_SPAWN_TAG=ab-spawn-"@;
    let rest = s.skip(pre.len() as int);
    let h = text::last_at(rest, '-');
    let p = text::last_at(rest.take(h), '-');
    wording::where_a_letter_last_stands(rest, '-');
    wording::where_a_letter_last_stands(rest.take(h), '-');
    let name = rest.take(p);
    let pid = rest.subrange(p + 1, h);
    let hex = rest.skip(h + 1);
    assert(rest.take(h)[p] == rest[p]);
    assert(rest =~= name + seq!['-'] + pid + seq!['-'] + hex);
    assert(s =~= s.subrange(0, pre.len() as int) + rest);
    assert(s == key_from(name, pid, hex));
}

/// Whether a readable row carries a tag.
pub open spec fn carries(w: AgentSnapshot, k: Seq<char>) -> bool {
    !w.corrupt && w.spawn_tag@.len() > 0 && w.spawn_tag@ == k
}

/// Whether a row is the only one with its tag.
pub open spec fn alone_with_its_tag(ws: Seq<AgentSnapshot>, k: Seq<char>, i: int) -> bool {
    0 <= i < ws.len() && carries(ws[i], k) && forall|j: int|
        0 <= j < ws.len() && j != i ==> !carries(#[trigger] ws[j], k)
}

/// A tag finds the row that alone carries it; where none does, or two do, it finds nothing.
pub proof fn which_row_a_tag_finds(ws: Seq<AgentSnapshot>, k: Seq<char>, i: int, j: int)
    ensures
        alone_with_its_tag(ws, k, i) ==> lineage::find(ws, k) == Some(i),
        0 <= i < ws.len() && 0 <= j < ws.len() && i != j && carries(ws[i], k) && carries(ws[j], k)
            ==> lineage::find(ws, k) is None && lineage::is_dup(ws, k),
        (forall|n: int| 0 <= n < ws.len() ==> !carries(#[trigger] ws[n], k)) ==> lineage::find(ws, k)
            is None,
        alone_with_its_tag(ws, k, i) ==> !lineage::is_dup(ws, k),
{
    if alone_with_its_tag(ws, k, i) {
        assert forall|n: int| 0 <= n < ws.len() && #[trigger] lineage::tagged(ws[n], k) implies n
            == i by {
            assert(carries(ws[n], k));
        }
        assert(lineage::only(ws, k, i));
        lineage::lemma_find(ws, k, i);
        if lineage::is_dup(ws, k) {
            let (a, b) = choose|a: int, b: int|
                #![trigger lineage::tagged(ws[a], k), lineage::tagged(ws[b], k)]
                0 <= a < b < ws.len() && lineage::tagged(ws[a], k) && lineage::tagged(ws[b], k);
            assert(a == i && b == i);
        }
    }
    if 0 <= i < ws.len() && 0 <= j < ws.len() && i != j && carries(ws[i], k) && carries(ws[j], k) {
        assert(lineage::tagged(ws[i], k) && lineage::tagged(ws[j], k));
        if i < j {
            assert(lineage::is_dup(ws, k));
        } else {
            assert(lineage::is_dup(ws, k));
        }
        if exists|c: int| lineage::only(ws, k, c) {
            let c = choose|c: int| lineage::only(ws, k, c);
            assert(c == i && c == j);
        }
    }
    if forall|n: int| 0 <= n < ws.len() ==> !carries(#[trigger] ws[n], k) {
        if exists|c: int| lineage::only(ws, k, c) {
            let c = choose|c: int| lineage::only(ws, k, c);
            assert(carries(ws[c], k));
        }
    }
}

/// What a row is. A row that cannot be read, or shares its tag, is none of the well-shaped ones. A
/// row without a tag was entered by hand where nothing says that it was spawned. A spawned row
/// with neither a root nor a parent is of the old kind. A spawned row with a root is of that
/// root's lineage: it is the root itself where it has no parent, and else another generation than
/// its parent and its root.
pub proof fn what_a_row_is(w: AgentSnapshot, ws: Seq<AgentSnapshot>)
    ensures
        ({
            let tag = w.spawn_tag@;
            let s = lineage::shape_of(w, ws);
            let readable = !w.corrupt && (tag.len() == 0 || !lineage::is_dup(ws, tag));
            &&& s is Manual <==> readable && tag.len() == 0 && !w.spawned && w.lineage_root is None
                && w.parent_agent is None
            &&& s is Legacy <==> readable && tag.len() > 0 && w.spawned && w.lineage_root is None
                && w.parent_agent is None
            &&& s matches ShapeView::Lineage(root) ==> {
                &&& readable && tag.len() > 0 && w.spawned
                &&& w.lineage_root matches Some(r) && r@ == root
                &&& registry::generation_key(root)
                &&& w.parent_agent is None ==> root == tag
                &&& w.parent_agent matches Some(p) ==> registry::generation_key(p@) && p@ != tag
                    && root != tag
            }
            &&& readable && tag.len() > 0 && w.spawned && w.parent_agent is None && (w.lineage_root
                matches Some(r) && r@ == tag && registry::generation_key(tag)) ==> s
                == ShapeView::Lineage(tag)
            &&& !readable ==> s is Invalid
        }),
{
}

/// A row with a parent is of its root's lineage where the parent, if it is there, says nothing
/// else: the parent has the same root, or is the root and names none.
pub proof fn when_a_child_is_of_the_lineage(
    w: AgentSnapshot,
    ws: Seq<AgentSnapshot>,
    root: Seq<char>,
    parent: Seq<char>,
    i: int,
)
    requires
        !w.corrupt,
        w.spawned,
        w.spawn_tag@.len() > 0,
        !lineage::is_dup(ws, w.spawn_tag@),
        w.lineage_root matches Some(r) && r@ == root,
        w.parent_agent matches Some(p) && p@ == parent,
        registry::generation_key(root),
        registry::generation_key(parent),
        parent != w.spawn_tag@,
        root != w.spawn_tag@,
    ensures
        (forall|n: int| 0 <= n < ws.len() ==> !carries(#[trigger] ws[n], parent))
            ==> lineage::shape_of(w, ws) == ShapeView::Lineage(root),
        alone_with_its_tag(ws, parent, i) && (ws[i].lineage_root matches Some(r)
            && registry::generation_key(r@)) ==> (lineage::shape_of(w, ws) == ShapeView::Lineage(
            root,
        ) <==> (ws[i].lineage_root->0)@ == root),
        alone_with_its_tag(ws, parent, i) && ws[i].lineage_root is None ==> (lineage::shape_of(w, ws)
            == ShapeView::Lineage(root) <==> parent == root),
{
    which_row_a_tag_finds(ws, parent, i, i);
}

/// A row stands in the group of the lineage that it is of; a row of the old kind stands in the group
/// of the lineage that other rows say it began, where there is one. Every other row stands alone.
pub proof fn which_group_a_row_is_in(ws: Seq<AgentSnapshot>, i: int, j: int)
    requires
        0 <= i < ws.len(),
    ensures
        lineage::shape_of(ws[i], ws) matches ShapeView::Lineage(k) ==> lineage::key_of(ws, i)
            == GroupKeyView::Lineage(k),
        lineage::shape_of(ws[i], ws) is Legacy && 0 <= j < ws.len() && lineage::shape_of(ws[j], ws)
            == ShapeView::Lineage(ws[i].spawn_tag@) ==> lineage::key_of(ws, i)
            == GroupKeyView::Lineage(ws[i].spawn_tag@),
        lineage::shape_of(ws[i], ws) is Legacy && (forall|n: int|
            0 <= n < ws.len() ==> lineage::shape_of(#[trigger] ws[n], ws) != ShapeView::Lineage(
                ws[i].spawn_tag@,
            )) ==> lineage::key_of(ws, i) is Standalone,
        lineage::shape_of(ws[i], ws) is Manual || lineage::shape_of(ws[i], ws) is Invalid
            ==> lineage::key_of(ws, i) is Standalone,
{
    let tag = ws[i].spawn_tag@;
    if lineage::shape_of(ws[i], ws) is Legacy {
        if 0 <= j < ws.len() && lineage::shape_of(ws[j], ws) == ShapeView::Lineage(tag) {
            assert(lineage::declares(ws, ws.len() as int, tag));
            assert(lineage::roots_of(ws).contains(tag));
        }
        if forall|n: int|
            0 <= n < ws.len() ==> lineage::shape_of(#[trigger] ws[n], ws) != ShapeView::Lineage(tag) {
            if lineage::declares(ws, ws.len() as int, tag) {
                let n = choose|n: int|
                    0 <= n < ws.len() && #[trigger] lineage::shape_of(ws[n], ws)
                        == ShapeView::Lineage(tag);
                assert(lineage::shape_of(ws[n], ws) != ShapeView::Lineage(tag));
            }
            assert(!lineage::roots_of(ws).contains(tag));
        }
    }
}

/// A group has every row of its key, in the order of the rows, and no other row.
pub proof fn who_is_in_a_group(ws: Seq<AgentSnapshot>, g: int, i: int)
    requires
        0 <= g < lineage::groups_of(ws).len(),
    ensures
        lineage::groups_of(ws)[g].members.contains(i) <==> 0 <= i < ws.len() && lineage::key_of(ws, i)
            == lineage::groups_of(ws)[g].key,
{
    let n = ws.len() as int;
    lineage::lemma_members(ws, lineage::groups_of(ws)[g].key, n);
    if g < lineage::lineages_upto(ws, n).len() {
        assert(lineage::groups_of(ws)[g] == lineage::lineages_upto(ws, n)[g]);
    }
}

/// A family is called after the row that began it, by that row's name where it is still there, and
/// else by what its key says, marked as gone. The rows that stand alone have a name of their own.
pub proof fn what_a_family_is_called(
    ws: Seq<AgentSnapshot>,
    name: Seq<char>,
    pid: Seq<char>,
    hex: Seq<char>,
    i: int,
)
    requires
        registry::valid_name(name),
        digits(pid),
        code(hex),
    ensures
        ({
            let k = key_from(name, pid, hex);
            let l = lineage::label_of(ws, GroupKeyView::Lineage(k));
            &&& 0 <= i < ws.len() && !ws[i].corrupt && ws[i].spawn_tag@ == k && (forall|j: int|
                0 <= j < i ==> (#[trigger] ws[j]).corrupt || ws[j].spawn_tag@ != k) ==> l
                == "lineage "@ + ws[i].name@
            &&& (forall|j: int|
                0 <= j < ws.len() ==> (#[trigger] ws[j]).corrupt || ws[j].spawn_tag@ != k) ==> l
                == "lineage "@ + (name + "\u{2020} ("@ + hex.take(4) + ")"@)
        }),
        lineage::label_of(ws, GroupKeyView::Standalone) == "(standalone)"@,
{
    which_texts_are_generation_keys(name, pid, hex);
    let k = key_from(name, pid, hex);
    lemma_first_tagged(ws, k, 0);
}

/// The first readable row with a tag.
proof fn lemma_first_tagged(ws: Seq<AgentSnapshot>, k: Seq<char>, from: int)
    requires
        0 <= from <= ws.len(),
    ensures
        match lineage::first_tagged(ws, k, from) {
            Some(i) => from <= i < ws.len() && !ws[i].corrupt && ws[i].spawn_tag@ == k && forall|
                j: int,
            |
                from <= j < i ==> (#[trigger] ws[j]).corrupt || ws[j].spawn_tag@ != k,
            None => forall|j: int|
                from <= j < ws.len() ==> (#[trigger] ws[j]).corrupt || ws[j].spawn_tag@ != k,
        },
    decreases ws.len() - from,
{
    if from < ws.len() && !(!ws[from].corrupt && ws[from].spawn_tag@ == k) {
        lemma_first_tagged(ws, k, from + 1);
    }
}

/// A generation in a line of descent is shown by its worker's name, and as gone where no row alone
/// carries its key.
pub proof fn how_a_generation_is_shown(
    ws: Seq<AgentSnapshot>,
    name: Seq<char>,
    pid: Seq<char>,
    hex: Seq<char>,
    i: int,
)
    requires
        registry::valid_name(name),
        digits(pid),
        code(hex),
    ensures
        ({
            let k = key_from(name, pid, hex);
            &&& alone_with_its_tag(ws, k, i) ==> lineage::crumb_at(ws, k) == (CrumbView::Node {
                label: ws[i].name@,
                tombstone: false,
            })
            &&& (forall|n: int| 0 <= n < ws.len() ==> !carries(#[trigger] ws[n], k))
                ==> lineage::crumb_at(ws, k) == (CrumbView::Node {
                label: name + "\u{2020} ("@ + hex.take(4) + ")"@,
                tombstone: true,
            })
        }),
{
    which_texts_are_generation_keys(name, pid, hex);
    which_row_a_tag_finds(ws, key_from(name, pid, hex), i, i);
}

/// Each generation of a line of descent, but for the first one shown, is a child of the one before
/// it: the row with that tag names it as its parent.
pub proof fn descent_follows_the_parents(ws: Seq<AgentSnapshot>, root: Seq<char>, w: AgentSnapshot, i: int)
    requires
        0 <= i < lineage::chain_of(ws, root, w).len() - 1,
    ensures
        ({
            let chain = lineage::chain_of(ws, root, w);
            &&& chain[0] == w.spawn_tag@
            &&& i == 0 ==> lineage::opt_text(w.parent_agent) == Some(chain[1])
            &&& i > 0 ==> (lineage::find(ws, chain[i]) matches Some(r) && lineage::opt_text(
                ws[r].parent_agent,
            ) == Some(chain[i + 1]) && lineage::shape_of(ws[r], ws) == ShapeView::Lineage(root))
        }),
{
    lemma_climb_follows(ws, root, seq![w.spawn_tag@], w, i);
    lemma_climb_keeps(ws, root, seq![w.spawn_tag@], w);
}

/// A climb keeps what it has.
proof fn lemma_climb_keeps(
    ws: Seq<AgentSnapshot>,
    root: Seq<char>,
    chain: Seq<Seq<char>>,
    cur: AgentSnapshot,
)
    ensures
        lineage::climb(ws, root, chain, cur).len() >= chain.len(),
        forall|i: int|
            0 <= i < chain.len() ==> #[trigger] lineage::climb(ws, root, chain, cur)[i] == chain[i],
    decreases ws.len() + 1 - chain.len(),
{
    if cur.spawn_tag@ != root && chain.len() <= ws.len() {
        if let Some(p) = lineage::opt_text(cur.parent_agent) {
            if !chain.contains(p) {
                if let Some(i) = lineage::find(ws, p) {
                    if lineage::shape_of(ws[i], ws) == ShapeView::Lineage(root) {
                        lemma_climb_keeps(ws, root, chain.push(p), ws[i]);
                        assert forall|k: int| 0 <= k < chain.len() implies #[trigger] lineage::climb(
                            ws,
                            root,
                            chain,
                            cur,
                        )[k] == chain[k] by {
                            assert(chain.push(p)[k] == chain[k]);
                        }
                    }
                }
            }
        }
    }
}

/// What a climb adds are parents.
proof fn lemma_climb_follows(
    ws: Seq<AgentSnapshot>,
    root: Seq<char>,
    chain: Seq<Seq<char>>,
    cur: AgentSnapshot,
    i: int,
)
    requires
        chain.len() > 0,
        chain.len() - 1 <= i < lineage::climb(ws, root, chain, cur).len() - 1,
    ensures
        ({
            let full = lineage::climb(ws, root, chain, cur);
            &&& i == chain.len() - 1 ==> lineage::opt_text(cur.parent_agent) == Some(full[i + 1])
            &&& i >= chain.len() ==> (lineage::find(ws, full[i]) matches Some(r) && lineage::opt_text(
                ws[r].parent_agent,
            ) == Some(full[i + 1]) && lineage::shape_of(ws[r], ws) == ShapeView::Lineage(root))
        }),
    decreases ws.len() + 1 - chain.len(),
{
    if cur.spawn_tag@ != root && chain.len() <= ws.len() {
        if let Some(p) = lineage::opt_text(cur.parent_agent) {
            if !chain.contains(p) {
                if let Some(r) = lineage::find(ws, p) {
                    if lineage::shape_of(ws[r], ws) == ShapeView::Lineage(root) {
                        let next = chain.push(p);
                        lemma_climb_keeps(ws, root, next, ws[r]);
                        assert(lineage::climb(ws, root, chain, cur)[next.len() - 1] == next[next.len()
                            - 1]);
                        if i >= next.len() - 1 {
                            lemma_climb_follows(ws, root, next, ws[r], i);
                        }
                    }
                }
            }
        }
    }
}

/// A line of descent is written from the first generation to the last, with an arrow between any
/// two and dots for what is missing.
pub proof fn how_a_descent_is_written(c: Seq<CrumbView>, x: CrumbView)
    ensures
        lineage::line_of(seq![x]) == (match x {
            CrumbView::Node { label, .. } => label,
            CrumbView::Gap => "\u{2026}"@,
        }),
        c.len() > 0 ==> lineage::line_of(c.push(x)) == lineage::line_of(c) + " \u{2192} "@ + (match x {
            CrumbView::Node { label, .. } => label,
            CrumbView::Gap => "\u{2026}"@,
        }),
{
    let f = |y: CrumbView| lineage::crumb_text(y);
    assert(seq![x].map_values(f) =~= seq![f(x)]);
    assert(c.push(x).map_values(f) =~= c.map_values(f).push(f(x)));
    wording::how_texts_are_joined(c.map_values(f), f(x), " \u{2192} "@);
}

/// A line of descent that has no room is written with its two ends alone, and is never longer than
/// the room.
pub proof fn how_a_descent_is_fitted(c: Seq<CrumbView>, width: int)
    requires
        width >= 0,
    ensures
        lineage::fitted_line(c, width).len() <= width,
        lineage::line_of(c).len() <= width ==> lineage::fitted_line(c, width) == lineage::line_of(c),
        c.len() > 1 && lineage::line_of(c).len() > width && (lineage::crumb_text(c[0])
            + " \u{2192} \u{2026} \u{2192} "@ + lineage::crumb_text(c.last())).len() <= width
            && width > 0 ==> lineage::fitted_line(c, width) == lineage::crumb_text(c[0])
            + " \u{2192} \u{2026} \u{2192} "@ + lineage::crumb_text(c.last()),
{
    assert(c.len() > 0 ==> c.first() == c[0]);
}

/// A parent whose root is no generation key counts for its children as one that names no root.
pub proof fn a_root_that_is_no_key_counts_as_none(
    w: AgentSnapshot,
    ws: Seq<AgentSnapshot>,
    root: Seq<char>,
    parent: Seq<char>,
    i: int,
)
    requires
        !w.corrupt,
        w.spawned,
        w.spawn_tag@.len() > 0,
        !lineage::is_dup(ws, w.spawn_tag@),
        w.lineage_root matches Some(r) && r@ == root,
        w.parent_agent matches Some(p) && p@ == parent,
        registry::generation_key(root),
        registry::generation_key(parent),
        parent != w.spawn_tag@,
        root != w.spawn_tag@,
        alone_with_its_tag(ws, parent, i),
        ws[i].lineage_root matches Some(r) && !registry::generation_key(r@),
    ensures
        lineage::shape_of(w, ws) == ShapeView::Lineage(root) <==> parent == root,
{
    which_row_a_tag_finds(ws, parent, i, i);
}

/// A line of descent goes as far as it can: it ends at the root, at a row that names no parent or
/// one that was met before, or at a generation of which no row of the lineage is left.
pub proof fn descent_goes_as_far_as_it_can(ws: Seq<AgentSnapshot>, root: Seq<char>, w: AgentSnapshot)
    requires
        ws.len() > 0,
    ensures
        ({
            let chain = lineage::chain_of(ws, root, w);
            let end = chain.last();
            let last_row = |r: AgentSnapshot|
                r.spawn_tag@ == root || r.parent_agent is None || chain.contains(
                    (r.parent_agent->0)@,
                );
            &&& chain.len() == 1 ==> last_row(w)
            &&& 1 < chain.len() <= ws.len() ==> match lineage::find(ws, end) {
                None => true,
                Some(r) => lineage::shape_of(ws[r], ws) != ShapeView::Lineage(root) || last_row(
                    ws[r],
                ),
            }
        }),
{
    lemma_climb_ends(ws, root, seq![w.spawn_tag@], w);
}

/// Where a climb ends.
proof fn lemma_climb_ends(
    ws: Seq<AgentSnapshot>,
    root: Seq<char>,
    chain: Seq<Seq<char>>,
    cur: AgentSnapshot,
)
    requires
        chain.len() > 0,
    ensures
        ({
            let full = lineage::climb(ws, root, chain, cur);
            let last_row = |r: AgentSnapshot|
                r.spawn_tag@ == root || r.parent_agent is None || full.contains(
                    (r.parent_agent->0)@,
                );
            &&& full.len() == chain.len() ==> last_row(cur) || chain.len() > ws.len()
            &&& chain.len() < full.len() <= ws.len() ==> match lineage::find(ws, full.last()) {
                None => true,
                Some(r) => lineage::shape_of(ws[r], ws) != ShapeView::Lineage(root) || last_row(
                    ws[r],
                ),
            }
        }),
    decreases ws.len() + 1 - chain.len(),
{
    if cur.spawn_tag@ != root && chain.len() <= ws.len() {
        if let Some(p) = lineage::opt_text(cur.parent_agent) {
            if !chain.contains(p) {
                if let Some(i) = lineage::find(ws, p) {
                    if lineage::shape_of(ws[i], ws) == ShapeView::Lineage(root) {
                        let next = chain.push(p);
                        lemma_climb_ends(ws, root, next, ws[i]);
                        lemma_climb_keeps(ws, root, next, ws[i]);
                        if lineage::climb(ws, root, next, ws[i]).len() == next.len() {
                            assert(lineage::climb(ws, root, next, ws[i])[next.len() - 1] == p);
                        }
                    }
                }
            }
        }
    }
}

/// A line of descent is shown from its first generation to the row itself. Where it does not reach
/// the root, the root and dots stand before it.
pub proof fn how_a_descent_is_shown(ws: Seq<AgentSnapshot>, w: AgentSnapshot, root: Seq<char>, i: int)
    requires
        lineage::shape_of(w, ws) == ShapeView::Lineage(root),
        0 <= i < lineage::chain_of(ws, root, w).len(),
    ensures
        ({
            let chain = lineage::chain_of(ws, root, w);
            let n = chain.len() as int;
            lineage::breadcrumb_of(ws, w) matches Some(c) && {
                &&& chain.last() == root ==> c.len() == n && c[i] == lineage::crumb_at(
                    ws,
                    chain[n - 1 - i],
                )
                &&& chain.last() != root ==> c.len() == n + 2 && c[0] == lineage::crumb_at(ws, root)
                    && c[1] == CrumbView::Gap && c[i + 2] == lineage::crumb_at(
                    ws,
                    chain[n - 1 - i],
                )
            }
        }),
{
}

/// A key that is none has no name to be called by.
pub proof fn what_has_no_name(k: Seq<char>)
    requires
        registry::display_parts(k) is None,
    ensures
        lineage::tombstone_text(k) == "?\u{2020}"@,
{
}

} // verus!
