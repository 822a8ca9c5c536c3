//! What tmux was last seen to say: which panes and windows there are, and which panes wait
//! for a person.
//!
//! Times are milliseconds. A query that fails leaves its part of a snapshot `None`: not
//! knowing is never shown as knowing.

use crate::text;
use crate::text::{
    copy_pairs, copy_text, comes_before, from_chars, last_index, lines, push_dec, same, to_chars,
};
use crate::textmap::TextMap;
use vstd::prelude::*;
use vstd::string::*;

verus! {

/// The age of the two sources of data.
#[derive(Clone, Copy, PartialEq, Eq, Debug, Structural)]
pub struct Freshness {
    /// Since the last completed scan of the disk. That it completed does not say that every
    /// entry could be read.
    pub disk: u64,
    /// Since the last successful round of tmux queries; `None` when there was none yet.
    pub tmux: Option<u64>,
}

impl Default for Freshness {
    fn default() -> (r: Self)
        ensures
            r == (Freshness { disk: 0, tmux: None }),
    {
        Freshness { disk: 0, tmux: None }
    }
}

/// The age from which the disk data counts as stale.
pub const DISK_STALE: u64 = 3_000;

/// The age from which the tmux data counts as stale.
pub const TMUX_STALE: u64 = 10_000;

/// Whether an age is worth a number on the screen: from half the stale threshold on.
pub fn age_is_worth_showing(age: u64, stale_at: u64) -> (r: bool)
    ensures
        r == (2 * age >= stale_at),
{
    age >= stale_at || age >= stale_at - age
}

impl Freshness {
    /// Whether the tmux data is stale. Without a successful round it always is.
    pub open spec fn stale(self) -> bool {
        match self.tmux {
            Some(age) => age >= TMUX_STALE,
            None => true,
        }
    }

    /// Whether the tmux data is stale.
    pub fn tmux_stale(&self) -> (r: bool)
        ensures
            r == self.stale(),
    {
        match self.tmux {
            Some(age) => age >= TMUX_STALE,
            None => true,
        }
    }
}

/// A list of places: session and window, or session and window name.
pub type Places = Vec<(String, String)>;

/// The texts of a list of places.
pub type PlacesView = Seq<(Seq<char>, Seq<char>)>;

/// A snapshot of the panes and windows of tmux.
pub struct LiveIndex {
    /// By pane: every session and window in which it appears.
    pub panes: Option<TextMap<Places>>,
    /// By window: every session in which it appears, with its name there.
    pub windows: Option<TextMap<Places>>,
    /// When the panes were seen.
    pub panes_at: Option<u64>,
}

/// A snapshot of the panes and windows of tmux.
pub struct LiveView {
    pub panes: Option<Map<Seq<char>, PlacesView>>,
    pub windows: Option<Map<Seq<char>, PlacesView>>,
    pub panes_at: Option<u64>,
}

/// The texts of a map of places.
pub open spec fn place_map(m: Map<Seq<char>, Places>) -> Map<Seq<char>, PlacesView> {
    m.map_values(|v: Places| text::pairs(v@))
}

/// The texts of an optional map of places.
pub open spec fn opt_places(o: Option<TextMap<Places>>) -> Option<Map<Seq<char>, PlacesView>> {
    match o {
        Some(m) => Some(place_map(m@)),
        None => None,
    }
}

impl View for LiveIndex {
    type V = LiveView;

    open spec fn view(&self) -> LiveView {
        LiveView {
            panes: opt_places(self.panes),
            windows: opt_places(self.windows),
            panes_at: self.panes_at,
        }
    }
}

/// The first three fields of a line, parted by tabs. The third keeps any further tab.
pub open spec fn fields3(line: Seq<char>) -> Option<(Seq<char>, Seq<char>, Seq<char>)> {
    let a = text::first_at(line, '\t');
    let rest = line.skip(a + 1);
    let b = text::first_at(rest, '\t');
    if a < line.len() && b < rest.len() {
        Some((line.take(a), rest.take(b), rest.skip(b + 1)))
    } else {
        None
    }
}

/// The index of the first tab from `from` on.
fn tab_from(v: &Vec<char>, from: usize) -> (r: usize)
    requires
        from <= v@.len(),
    ensures
        from <= r <= v@.len(),
        r - from == text::first_at(v@.skip(from as int), '\t'),
{
    let mut i: usize = from;
    while i < v.len() && v[i] != '\t'
        invariant
            from <= i <= v@.len(),
            forall|j: int| from <= j < i ==> v@[j] != '\t',
        decreases v@.len() - i,
    {
        i += 1;
    }
    proof {
        text::lemma_first_at(v@.skip(from as int), '\t', i - from);
    }
    i
}

/// The texts of three fields.
pub open spec fn triple_view(t: Option<(String, String, String)>) -> Option<
    (Seq<char>, Seq<char>, Seq<char>),
> {
    match t {
        Some((a, b, c)) => Some((a@, b@, c@)),
        None => None,
    }
}

/// The first three fields of a line.
fn split3(line: &str) -> (r: Option<(String, String, String)>)
    ensures
        triple_view(r) == fields3(line@),
{
    let v = to_chars(line);
    let a = tab_from(&v, 0);
    proof {
        assert(v@.skip(0) =~= v@);
    }
    if a >= v.len() {
        return None;
    }
    let b = tab_from(&v, a + 1);
    if b >= v.len() {
        return None;
    }
    proof {
        let rest = v@.skip(a + 1);
        assert(v@.subrange(0, a as int) =~= v@.take(a as int));
        assert(v@.subrange(a + 1, b as int) =~= rest.take(b - a - 1));
        assert(v@.subrange(b + 1, v@.len() as int) =~= rest.skip(b - a));
    }
    Some((from_chars(&v, 0, a), from_chars(&v, a + 1, b), from_chars(&v, b + 1, v.len())))
}

/// Where a pane appears, by the lines `<pane>\t<session>\t<window>`.
pub open spec fn pane_places(ls: Seq<Seq<char>>, pane: Seq<char>) -> PlacesView
    decreases ls.len(),
{
    if ls.len() == 0 {
        Seq::empty()
    } else {
        let before = pane_places(ls.drop_last(), pane);
        match fields3(ls.last()) {
            Some((p, s, w)) => if p == pane {
                before.push((s, w))
            } else {
                before
            },
            None => before,
        }
    }
}

/// Where every listed pane appears.
pub open spec fn panes_of(ls: Seq<Seq<char>>) -> Map<Seq<char>, PlacesView> {
    Map::new(|p: Seq<char>| pane_places(ls, p).len() > 0, |p: Seq<char>| pane_places(ls, p))
}

/// Reads the output of the pane query. A line with less than three fields is left out.
fn parse_panes(out: &str) -> (r: TextMap<Places>)
    ensures
        place_map(r@) == panes_of(text::text_lines(out@)),
{
    let ls = lines(out);
    let ghost all = text::texts(ls@);
    let mut m: TextMap<Places> = TextMap::new();
    let mut i: usize = 0;
    proof {
        assert(place_map(m@) =~= panes_of(all.take(0)));
    }
    while i < ls.len()
        invariant
            i <= ls@.len(),
            all == text::texts(ls@),
            place_map(m@) == panes_of(all.take(i as int)),
        decreases ls@.len() - i,
    {
        let ghost m0 = m@;
        let ghost t0 = all.take(i as int);
        let ghost t1 = all.take(i + 1);
        proof {
            assert(t1.drop_last() =~= t0);
            assert(t1.last() == ls@[i as int]@);
        }
        match split3(ls[i].as_str()) {
            Some((p, s, w)) => {
                let ghost key = p@;
                let mut v: Places = match m.take(p.as_str()) {
                    Some(v) => v,
                    None => Vec::new(),
                };
                proof {
                    if m0.dom().contains(key) {
                        assert(place_map(m0)[key] == text::pairs(v@));
                        assert(place_map(m0).dom().contains(key));
                    } else {
                        assert(!place_map(m0).dom().contains(key));
                        assert(text::pairs(v@) =~= pane_places(t0, key));
                    }
                    assert(text::pairs(v@) == pane_places(t0, key));
                    text::lemma_pairs_push(v@, (s, w));
                }
                v.push((s, w));
                let ghost val = v@;
                m.insert(p, v);
                proof {
                    assert(text::pairs(val) == pane_places(t1, key));
                    assert forall|k: Seq<char>| k != key implies pane_places(t1, k) == pane_places(
                        t0,
                        k,
                    ) by {}
                    assert forall|k: Seq<char>| k != key implies (place_map(m@).dom().contains(k)
                        <==> place_map(m0).dom().contains(k)) by {}
                    assert(place_map(m@) =~= panes_of(t1)) by {
                        assert forall|k: Seq<char>| place_map(m@).dom().contains(k) <==> panes_of(
                            t1,
                        ).dom().contains(k) by {
                            if k != key {
                                assert(panes_of(t0).dom().contains(k) <==> panes_of(
                                    t1,
                                ).dom().contains(k));
                            }
                        }
                        assert forall|k: Seq<char>| place_map(m@).dom().contains(k) implies place_map(
                            m@,
                        )[k] == panes_of(t1)[k] by {
                            if k != key {
                                assert(place_map(m0)[k] == panes_of(t0)[k]);
                                assert(m@[k] == m0[k]);
                            }
                        }
                    }
                }
            },
            None => {
                proof {
                    assert(panes_of(t1) =~= panes_of(t0));
                }
            },
        }
        i += 1;
    }
    proof {
        assert(all.take(i as int) =~= all);
    }
    m
}

/// The order of places: by the first text, then by the second.
pub open spec fn place_less(a: (Seq<char>, Seq<char>), b: (Seq<char>, Seq<char>)) -> bool {
    text::less(a.0, b.0) || (a.0 == b.0 && text::less(a.1, b.1))
}

/// Whether a place comes before another.
fn place_before(a: &(String, String), b: &(String, String)) -> (r: bool)
    ensures
        r == place_less((a.0@, a.1@), (b.0@, b.1@)),
{
    comes_before(a.0.as_str(), b.0.as_str()) || (same(a.0.as_str(), b.0.as_str()) && comes_before(
        a.1.as_str(),
        b.1.as_str(),
    ))
}

/// The number of leading places that come before `x`.
pub open spec fn place_slot(s: PlacesView, x: (Seq<char>, Seq<char>)) -> int
    decreases s.len(),
{
    if s.len() > 0 && place_less(s[0], x) {
        1 + place_slot(s.skip(1), x)
    } else {
        0
    }
}

/// The places with `x` among them, in its place and once.
pub open spec fn with_place(s: PlacesView, x: (Seq<char>, Seq<char>)) -> PlacesView {
    let p = place_slot(s, x);
    if p < s.len() && s[p] == x {
        s
    } else {
        s.insert(p, x)
    }
}

/// The different places of a list, in their order.
pub open spec fn sorted_places(s: PlacesView) -> PlacesView
    decreases s.len(),
{
    if s.len() == 0 {
        Seq::empty()
    } else {
        with_place(sorted_places(s.drop_last()), s.last())
    }
}

/// Whether places stand in their order, none of them twice.
pub open spec fn places_ascend(s: PlacesView) -> bool {
    forall|i: int, j: int| #![trigger s[i], s[j]] 0 <= i < j < s.len() ==> place_less(s[i], s[j])
}

/// The slot of a place.
proof fn lemma_place_slot_is(s: PlacesView, x: (Seq<char>, Seq<char>), p: int)
    requires
        0 <= p <= s.len(),
        forall|i: int| 0 <= i < p ==> place_less(#[trigger] s[i], x),
        p < s.len() ==> !place_less(s[p], x),
    ensures
        place_slot(s, x) == p,
    decreases s.len(),
{
    if p > 0 {
        let t = s.skip(1);
        assert forall|i: int| 0 <= i < p - 1 implies place_less(#[trigger] t[i], x) by {
            assert(t[i] == s[i + 1]);
        }
        assert(place_less(s[0], x));
        lemma_place_slot_is(t, x, p - 1);
    }
}

/// The order of places is transitive.
proof fn lemma_place_transitive(
    a: (Seq<char>, Seq<char>),
    b: (Seq<char>, Seq<char>),
    c: (Seq<char>, Seq<char>),
)
    requires
        place_less(a, b),
        place_less(b, c),
    ensures
        place_less(a, c),
{
    if text::less(a.0, b.0) && text::less(b.0, c.0) {
        text::lemma_less_transitive(a.0, b.0, c.0);
    } else if a.0 == b.0 && b.0 == c.0 {
        text::lemma_less_transitive(a.1, b.1, c.1);
    }
}

/// Of two different places one comes before the other.
proof fn lemma_place_total(a: (Seq<char>, Seq<char>), b: (Seq<char>, Seq<char>))
    ensures
        place_less(a, b) || place_less(b, a) || a == b,
{
    text::lemma_less_total(a.0, b.0);
    text::lemma_less_total(a.1, b.1);
}

/// No place comes before itself.
proof fn lemma_place_irreflexive(a: (Seq<char>, Seq<char>))
    ensures
        !place_less(a, a),
{
    text::lemma_less_irreflexive(a.0);
    text::lemma_less_irreflexive(a.1);
}

/// Among ascending places the slot parts those before `x` from the others.
proof fn lemma_place_slot(s: PlacesView, x: (Seq<char>, Seq<char>))
    requires
        places_ascend(s),
    ensures
        0 <= place_slot(s, x) <= s.len(),
        forall|i: int| 0 <= i < place_slot(s, x) ==> place_less(#[trigger] s[i], x),
        forall|i: int| place_slot(s, x) <= i < s.len() ==> !place_less(#[trigger] s[i], x),
    decreases s.len(),
{
    if s.len() > 0 {
        let t = s.skip(1);
        assert forall|i: int, j: int| #![trigger t[i], t[j]] 0 <= i < j < t.len() implies place_less(
            t[i],
            t[j],
        ) by {
            assert(t[i] == s[i + 1] && t[j] == s[j + 1]);
        }
        lemma_place_slot(t, x);
        if place_less(s[0], x) {
            assert forall|i: int| 0 <= i < place_slot(s, x) implies place_less(#[trigger] s[i], x) by {
                if i > 0 {
                    assert(t[i - 1] == s[i]);
                }
            }
            assert forall|i: int| place_slot(s, x) <= i < s.len() implies !place_less(
                #[trigger] s[i],
                x,
            ) by {
                assert(t[i - 1] == s[i]);
            }
        } else {
            assert forall|i: int| 0 <= i < s.len() implies !place_less(#[trigger] s[i], x) by {
                if i > 0 && place_less(s[i], x) {
                    assert(place_less(s[0], s[i]));
                    lemma_place_transitive(s[0], s[i], x);
                }
            }
        }
    }
}

/// The sorted places ascend, and are the places of the list, each once.
pub proof fn sorted_places_ascend(s: PlacesView)
    ensures
        places_ascend(sorted_places(s)),
        forall|x: (Seq<char>, Seq<char>)| #[trigger] sorted_places(s).contains(x) <==> s.contains(x),
    decreases s.len(),
{
    if s.len() > 0 {
        sorted_places_ascend(s.drop_last());
        let u = sorted_places(s.drop_last());
        let x = s.last();
        let t = sorted_places(s);
        lemma_place_slot(u, x);
        let p = place_slot(u, x);
        assert(s =~= s.drop_last().push(x));
        if p < u.len() && u[p] == x {
            assert(t == u);
            assert(u.contains(x));
        } else {
            assert(t == u.insert(p, x));
            assert forall|i: int, j: int| #![trigger t[i], t[j]] 0 <= i < j < t.len() implies place_less(
                t[i],
                t[j],
            ) by {
                if i == p {
                    assert(t[j] == u[j - 1]);
                    lemma_place_total(x, u[j - 1]);
                    if u[j - 1] == x {
                        lemma_place_irreflexive(x);
                        if j - 1 > p {
                            assert(place_less(u[p], u[j - 1]));
                        }
                    }
                } else if j == p {
                    assert(t[i] == u[i]);
                } else {
                    let a = if i < p { i } else { i - 1 };
                    let b = if j < p { j } else { j - 1 };
                    assert(t[i] == u[a] && t[j] == u[b]);
                }
            }
        }
        assert forall|y: (Seq<char>, Seq<char>)| #[trigger] t.contains(y) <==> s.contains(y) by {
            if t.contains(y) {
                let i = t.index_of(y);
                if !(p < u.len() && u[p] == x) {
                    if i != p {
                        let a = if i < p { i } else { i - 1 };
                        assert(u[a] == y);
                        assert(u.contains(y));
                    }
                }
                if u.contains(y) {
                    let c = s.drop_last().index_of(y);
                    assert(s.drop_last().contains(y));
                    assert(s[c] == y);
                } else {
                    assert(y == x);
                    assert(s[s.len() - 1] == y);
                }
            }
            if s.contains(y) {
                let c = s.index_of(y);
                if c < s.len() - 1 {
                    assert(s.drop_last()[c] == y);
                    assert(s.drop_last().contains(y));
                    let a = u.index_of(y);
                    assert(u.contains(y));
                    if !(p < u.len() && u[p] == x) {
                        let i = if a < p { a } else { a + 1 };
                        assert(t[i] == y);
                    }
                } else if !(p < u.len() && u[p] == x) {
                    assert(t[p] == y);
                }
            }
        }
    }
}

/// Puts a place among sorted ones.
fn insert_place(v: &mut Places, x: (String, String))
    ensures
        text::pairs(final(v)@) == with_place(text::pairs(old(v)@), (x.0@, x.1@)),
{
    let ghost s = text::pairs(v@);
    let ghost xv = (x.0@, x.1@);
    let mut p: usize = 0;
    while p < v.len() && place_before(&v[p], &x)
        invariant
            p <= v@.len(),
            s == text::pairs(v@),
            xv == (x.0@, x.1@),
            forall|i: int| 0 <= i < p ==> place_less(#[trigger] s[i], xv),
        decreases v@.len() - p,
    {
        assert(s[p as int] == (v@[p as int].0@, v@[p as int].1@));
        p += 1;
    }
    proof {
        if p < v@.len() {
            assert(s[p as int] == (v@[p as int].0@, v@[p as int].1@));
        }
        lemma_place_slot_is(s, xv, p as int);
    }
    if p < v.len() && same(v[p].0.as_str(), x.0.as_str()) && same(v[p].1.as_str(), x.1.as_str()) {
        return;
    }
    let ghost before = v@;
    v.insert(p, x);
    proof {
        assert(text::pairs(v@) =~= s.insert(p as int, xv));
    }
}

/// Where a window appears, by the lines `<session>\t<window>\t<name>`.
pub open spec fn window_places(ls: Seq<Seq<char>>, window: Seq<char>) -> PlacesView
    decreases ls.len(),
{
    if ls.len() == 0 {
        Seq::empty()
    } else {
        let before = window_places(ls.drop_last(), window);
        match fields3(ls.last()) {
            Some((s, w, n)) => if w == window {
                before.push((s, n))
            } else {
                before
            },
            None => before,
        }
    }
}

/// Where every listed window appears: the different places, in their order. A window that is
/// listed twice in one place has one place.
pub open spec fn windows_of(ls: Seq<Seq<char>>) -> Map<Seq<char>, PlacesView> {
    Map::new(
        |w: Seq<char>| window_places(ls, w).len() > 0,
        |w: Seq<char>| sorted_places(window_places(ls, w)),
    )
}

/// Reads the output of the window query. A line with less than three fields is left out.
fn parse_windows(out: &str) -> (r: TextMap<Places>)
    ensures
        place_map(r@) == windows_of(text::text_lines(out@)),
{
    let ls = lines(out);
    let ghost all = text::texts(ls@);
    let mut m: TextMap<Places> = TextMap::new();
    let mut i: usize = 0;
    proof {
        assert(place_map(m@) =~= windows_of(all.take(0)));
    }
    while i < ls.len()
        invariant
            i <= ls@.len(),
            all == text::texts(ls@),
            place_map(m@) == windows_of(all.take(i as int)),
        decreases ls@.len() - i,
    {
        let ghost m0 = m@;
        let ghost t0 = all.take(i as int);
        let ghost t1 = all.take(i + 1);
        proof {
            assert(t1.drop_last() =~= t0);
            assert(t1.last() == ls@[i as int]@);
        }
        match split3(ls[i].as_str()) {
            Some((s, w, n)) => {
                let ghost key = w@;
                let ghost x = (s@, n@);
                let mut v: Places = match m.take(w.as_str()) {
                    Some(v) => v,
                    None => Vec::new(),
                };
                proof {
                    if m0.dom().contains(key) {
                        assert(place_map(m0)[key] == text::pairs(v@));
                        assert(place_map(m0).dom().contains(key));
                    } else {
                        assert(!place_map(m0).dom().contains(key));
                        assert(window_places(t0, key) =~= Seq::empty());
                        assert(text::pairs(v@) =~= sorted_places(window_places(t0, key)));
                    }
                    assert(window_places(t1, key).drop_last() =~= window_places(t0, key));
                }
                insert_place(&mut v, (s, n));
                let ghost val = v@;
                m.insert(w, v);
                proof {
                    assert(text::pairs(val) == sorted_places(window_places(t1, key)));
                    assert forall|k: Seq<char>| k != key implies window_places(t1, k) == window_places(
                        t0,
                        k,
                    ) by {}
                    assert(place_map(m@) =~= windows_of(t1)) by {
                        assert forall|k: Seq<char>| place_map(m@).dom().contains(k) <==> windows_of(
                            t1,
                        ).dom().contains(k) by {
                            if k != key {
                                assert(windows_of(t0).dom().contains(k) <==> windows_of(
                                    t1,
                                ).dom().contains(k));
                                assert(place_map(m@).dom().contains(k) <==> place_map(
                                    m0,
                                ).dom().contains(k));
                            }
                        }
                        assert forall|k: Seq<char>| place_map(m@).dom().contains(k) implies place_map(
                            m@,
                        )[k] == windows_of(t1)[k] by {
                            if k != key {
                                assert(place_map(m0).dom().contains(k));
                                assert(place_map(m0)[k] == windows_of(t0)[k]);
                                assert(m@[k] == m0[k]);
                            }
                        }
                    }
                }
            },
            None => {
                proof {
                    assert(windows_of(t1) =~= windows_of(t0));
                }
            },
        }
        i += 1;
    }
    proof {
        assert(all.take(i as int) =~= all);
    }
    m
}

/// The text of an optional string.
pub open spec fn opt_str(o: Option<&str>) -> Option<Seq<char>> {
    match o {
        Some(s) => Some(s@),
        None => None,
    }
}

/// What the two queries' outputs say.
pub open spec fn live_of(panes: Option<Seq<char>>, panes_at: u64, windows: Option<Seq<char>>) -> LiveView {
    LiveView {
        panes: match panes {
            Some(out) => Some(panes_of(text::text_lines(out))),
            None => None,
        },
        windows: match windows {
            Some(out) => Some(windows_of(text::text_lines(out))),
            None => None,
        },
        panes_at: match panes {
            Some(_) => Some(panes_at),
            None => None,
        },
    }
}

impl LiveIndex {
    /// The snapshot that the outputs of the two queries make: one line per pane,
    /// `<pane>\t<session>\t<window>`, and one per window, `<session>\t<window>\t<name>`. `None`
    /// stands for a query that failed. `panes_at` is when the pane query came back, the oldest
    /// observation of the round.
    pub fn query(panes: Option<&str>, panes_at: u64, windows: Option<&str>) -> (r: Self)
        ensures
            r@ == live_of(opt_str(panes), panes_at, opt_str(windows)),
    {
        let at = match panes {
            Some(_) => Some(panes_at),
            None => None,
        };
        let p = match panes {
            Some(out) => Some(parse_panes(out)),
            None => None,
        };
        let w = match windows {
            Some(out) => Some(parse_windows(out)),
            None => None,
        };
        LiveIndex { panes: p, windows: w, panes_at: at }
    }

    /// The snapshot that knows nothing.
    pub fn unknown() -> (r: Self)
        ensures
            r@ == (LiveView { panes: None, windows: None, panes_at: None }),
    {
        LiveIndex { panes: None, windows: None, panes_at: None }
    }

    /// When the round was observed, if it was successful: both the panes and the windows have
    /// to be known. An empty answer is an answer.
    pub fn success_at(&self) -> (r: Option<u64>)
        ensures
            r == self@.observed(),
    {
        match (&self.panes, &self.windows) {
            (Some(_), Some(_)) => self.panes_at,
            _ => None,
        }
    }
}

impl LiveView {
    /// When a successful round was observed.
    pub open spec fn observed(self) -> Option<u64> {
        if self.panes is Some && self.windows is Some {
            self.panes_at
        } else {
            None
        }
    }
}

/// Whether a pane is there.
#[derive(Clone, Copy, PartialEq, Eq, Debug, Structural)]
pub enum Liveness {
    Live,
    Dead,
    /// Nobody knows. That is not the same as dead.
    Unknown,
}

/// Whether a pane is there.
pub open spec fn liveness_of(live: LiveView, pane: Seq<char>) -> Liveness {
    match live.panes {
        Some(m) => if pane.len() == 0 {
            Liveness::Unknown
        } else if m.dom().contains(pane) {
            Liveness::Live
        } else {
            Liveness::Dead
        },
        None => Liveness::Unknown,
    }
}

/// Whether a pane is there. Without a pane, and without a snapshot of the panes, nobody knows.
pub fn pane_liveness(live: &LiveIndex, pane: &str) -> (r: Liveness)
    ensures
        r == liveness_of(live@, pane@),
{
    if pane.is_empty() {
        return Liveness::Unknown;
    }
    match &live.panes {
        None => Liveness::Unknown,
        Some(m) => if m.contains_key(pane) {
            Liveness::Live
        } else {
            Liveness::Dead
        },
    }
}

/// The state of the window that an origin label names. It says nothing of the worker.
#[derive(Clone, PartialEq, Eq, Debug)]
pub enum WindowState {
    /// The window is there, in one place: session and window name as they are now.
    Live(String, String),
    /// The window is there in several places, and the label does not tell which is meant.
    Ambiguous(Vec<(String, String)>),
    /// The windows are known, and it is not among them.
    Gone,
    /// The windows are not known.
    Unknown,
    /// The label names no window.
    NotAWindow,
}

/// The state of the window that an origin label names.
pub enum WindowStateView {
    Live(Seq<char>, Seq<char>),
    Ambiguous(PlacesView),
    Gone,
    Unknown,
    NotAWindow,
}

impl View for WindowState {
    type V = WindowStateView;

    open spec fn view(&self) -> WindowStateView {
        match self {
            WindowState::Live(s, n) => WindowStateView::Live(s@, n@),
            WindowState::Ambiguous(v) => WindowStateView::Ambiguous(text::pairs(v@)),
            WindowState::Gone => WindowStateView::Gone,
            WindowState::Unknown => WindowStateView::Unknown,
            WindowState::NotAWindow => WindowStateView::NotAWindow,
        }
    }
}

/// Whether a text is a window id: `@` and decimal digits.
pub open spec fn window_id(s: Seq<char>) -> bool {
    s.len() >= 2 && s[0] == '@' && forall|i: int| 1 <= i < s.len() ==> '0' <= #[trigger] s[i] <= '9'
}

/// The session and the window of a label `<session>:@<digits>`, parted at the last colon.
pub open spec fn origin_parts(label: Seq<char>) -> Option<(Seq<char>, Seq<char>)> {
    let c = text::last_at(label, ':');
    if c >= 1 && window_id(label.skip(c + 1)) {
        Some((label.take(c), label.skip(c + 1)))
    } else {
        None
    }
}

/// The session and the window that a label names. The registry can be edited by hand: a label
/// of another shape is broken and names no window that could be gone.
pub fn split_origin(label: &str) -> (r: Option<(String, String)>)
    ensures
        crate::registry::pair_view(r) == origin_parts(label@),
{
    let v = to_chars(label);
    proof {
        assert(v@.take(v@.len() as int) =~= v@);
    }
    let c: usize = match last_index(&v, v.len(), ':') {
        Some(c) => c,
        None => {
            return None;
        },
    };
    let ghost win = v@.skip(c + 1);
    if c == 0 || v.len() - c < 3 || v[c + 1] != '@' {
        return None;
    }
    let digits = digits_from(&v, c + 2);
    proof {
        assert(window_id(win) == digits) by {
            assert forall|i: int| 1 <= i < win.len() implies #[trigger] win[i] == v@[c + 1 + i] by {}
            if digits {
                assert forall|i: int| 1 <= i < win.len() implies '0' <= #[trigger] win[i] <= '9' by {
                    assert(v@[c + 1 + i] == win[i]);
                }
            } else {
                let j = choose|j: int| c + 2 <= j < v@.len() && !('0' <= #[trigger] v@[j] <= '9');
                assert(win[j - c - 1] == v@[j]);
            }
        }
    }
    if !digits {
        return None;
    }
    proof {
        assert(v@.subrange(0, c as int) =~= v@.take(c as int));
        assert(v@.subrange(c + 1, v@.len() as int) =~= win);
    }
    Some((from_chars(&v, 0, c), from_chars(&v, c + 1, v.len())))
}

/// Whether `v[from..]` holds decimal digits alone.
fn digits_from(v: &Vec<char>, from: usize) -> (r: bool)
    requires
        from <= v@.len(),
    ensures
        r == (forall|j: int| from <= j < v@.len() ==> '0' <= #[trigger] v@[j] <= '9'),
{
    let mut i: usize = from;
    while i < v.len()
        invariant
            from <= i <= v@.len(),
            forall|j: int| from <= j < i ==> '0' <= #[trigger] v@[j] <= '9',
        decreases v@.len() - i,
    {
        if !('0' <= v[i] && v[i] <= '9') {
            return false;
        }
        i += 1;
    }
    true
}

/// Being in a session.
pub open spec fn session_is(sess: Seq<char>) -> spec_fn((Seq<char>, Seq<char>)) -> bool {
    |p: (Seq<char>, Seq<char>)| p.0 == sess
}

/// The places in a session.
pub open spec fn in_session(v: PlacesView, sess: Seq<char>) -> PlacesView {
    v.filter(session_is(sess))
}

/// The state of the window that a label names. The window is found by its id, which never
/// changes; the session only tells several places of it apart, and only if it fits one alone.
pub open spec fn state_of(live: LiveView, label: Seq<char>) -> WindowStateView {
    match origin_parts(label) {
        None => WindowStateView::NotAWindow,
        Some((sess, win)) => match live.windows {
            None => WindowStateView::Unknown,
            Some(m) => if !m.dom().contains(win) || m[win].len() == 0 {
                WindowStateView::Gone
            } else if m[win].len() == 1 {
                WindowStateView::Live(m[win][0].0, m[win][0].1)
            } else if in_session(m[win], sess).len() == 1 {
                WindowStateView::Live(
                    in_session(m[win], sess)[0].0,
                    in_session(m[win], sess)[0].1,
                )
            } else {
                WindowStateView::Ambiguous(m[win])
            },
        },
    }
}

/// The first two places in a session, by index.
fn session_hits(v: &Places, sess: &str) -> (r: (Option<usize>, bool))
    ensures
        match r.0 {
            Some(i) => i < v@.len() && in_session(text::pairs(v@), sess@).len() >= 1
                && in_session(text::pairs(v@), sess@)[0] == text::pairs(v@)[i as int] && (r.1 <==> in_session(
                text::pairs(v@),
                sess@,
            ).len() >= 2),
            None => in_session(text::pairs(v@), sess@).len() == 0,
        },
{
    let ghost all = text::pairs(v@);
    let mut hit: Option<usize> = None;
    let mut more = false;
    let mut i: usize = 0;
    proof {
        assert(all.take(0) =~= Seq::empty());
        assert(in_session(all.take(0), sess@) =~= Seq::empty());
    }
    while i < v.len()
        invariant
            i <= v@.len(),
            all == text::pairs(v@),
            hit is None ==> !more,
            match hit {
                Some(h) => h < i && in_session(all.take(i as int), sess@).len() >= 1 && in_session(
                    all.take(i as int),
                    sess@,
                )[0] == all[h as int] && (more <==> in_session(all.take(i as int), sess@).len() >= 2),
                None => in_session(all.take(i as int), sess@).len() == 0,
            },
        decreases v@.len() - i,
    {
        let fits = same(v[i].0.as_str(), sess);
        proof {
            let x = all[i as int];
            assert(x == (v@[i as int].0@, v@[i as int].1@));
            assert(all.take(i + 1) =~= all.take(i as int).push(x));
            all.take(i as int).lemma_filter_push(x, session_is(sess@));
        }
        if fits {
            if hit.is_none() {
                hit = Some(i);
            } else {
                more = true;
            }
        }
        i += 1;
    }
    proof {
        assert(all.take(i as int) =~= all);
    }
    (hit, more)
}

/// The state of the window that a label names.
pub fn window_state(live: &LiveIndex, label: &str) -> (r: WindowState)
    ensures
        r@ == state_of(live@, label@),
{
    let (sess, win) = match split_origin(label) {
        Some(parts) => parts,
        None => {
            return WindowState::NotAWindow;
        },
    };
    let ws = match &live.windows {
        Some(ws) => ws,
        None => {
            return WindowState::Unknown;
        },
    };
    let locs = match ws.get(win.as_str()) {
        Some(v) => v,
        None => {
            return WindowState::Gone;
        },
    };
    proof {
        assert(place_map(ws@)[win@] == text::pairs(locs@));
    }
    if locs.len() == 0 {
        return WindowState::Gone;
    }
    if locs.len() == 1 {
        return WindowState::Live(copy_text(locs[0].0.as_str()), copy_text(locs[0].1.as_str()));
    }
    match session_hits(locs, sess.as_str()) {
        (Some(i), false) => WindowState::Live(
            copy_text(locs[i].0.as_str()),
            copy_text(locs[i].1.as_str()),
        ),
        _ => WindowState::Ambiguous(copy_pairs(locs)),
    }
}

/// A place in words: `<session>:<name>`.
pub open spec fn place_text(p: (Seq<char>, Seq<char>)) -> Seq<char> {
    p.0 + ":"@ + p.1
}

/// The window of a label in words.
pub open spec fn detail_of(live: LiveView, label: Seq<char>) -> Seq<char> {
    match state_of(live, label) {
        WindowStateView::Live(sess, name) => sess + ":"@ + name + " ("@ + (origin_parts(label)->0).1
            + ", live)"@,
        WindowStateView::Ambiguous(locs) => label + " (linked: "@ + text::join(
            locs.map_values(|p: (Seq<char>, Seq<char>)| place_text(p)),
            ", "@,
        ) + ")"@,
        WindowStateView::Gone => label + " (gone)"@,
        WindowStateView::Unknown => label + " (unknown)"@,
        WindowStateView::NotAWindow => label + " (n/a)"@,
    }
}

/// The places of a list in words.
fn place_texts(v: &Places) -> (r: Vec<String>)
    ensures
        text::texts(r@) == text::pairs(v@).map_values(
            |p: (Seq<char>, Seq<char>)| place_text(p),
        ),
{
    let ghost want = text::pairs(v@).map_values(|p: (Seq<char>, Seq<char>)| place_text(p));
    let mut r: Vec<String> = Vec::new();
    let mut i: usize = 0;
    while i < v.len()
        invariant
            i <= v@.len(),
            want == text::pairs(v@).map_values(|p: (Seq<char>, Seq<char>)| place_text(p)),
            text::texts(r@) == want.take(i as int),
        decreases v@.len() - i,
    {
        let mut t = copy_text(v[i].0.as_str());
        t.append(":");
        t.append(v[i].1.as_str());
        proof {
            text::lemma_texts_push(r@, t);
            assert(want.take(i + 1) =~= want.take(i as int).push(t@));
        }
        r.push(t);
        i += 1;
    }
    proof {
        assert(want.take(i as int) =~= want);
    }
    r
}

/// The window of a label in words: its place with its id, all its places where they cannot be
/// told apart, or what is wrong with it.
pub fn window_detail(live: &LiveIndex, label: &str) -> (r: String)
    ensures
        r@ == detail_of(live@, label@),
{
    match window_state(live, label) {
        WindowState::Live(sess, name) => {
            let win = match split_origin(label) {
                Some((_, w)) => w,
                None => copy_text("-"),
            };
            let mut s = sess;
            s.append(":");
            s.append(name.as_str());
            s.append(" (");
            s.append(win.as_str());
            s.append(", live)");
            s
        },
        WindowState::Ambiguous(locs) => {
            let all = text::join_texts(&place_texts(&locs), ", ");
            let mut s = copy_text(label);
            s.append(" (linked: ");
            s.append(all.as_str());
            s.append(")");
            s
        },
        WindowState::Gone => {
            let mut s = copy_text(label);
            s.append(" (gone)");
            s
        },
        WindowState::Unknown => {
            let mut s = copy_text(label);
            s.append(" (unknown)");
            s
        },
        WindowState::NotAWindow => {
            let mut s = copy_text(label);
            s.append(" (n/a)");
            s
        },
    }
}

/// A name is never picked from several places that the label does not tell apart: a window is
/// shown as live only in a place where it is, and with a session of its own where it has more
/// than one.
pub proof fn linked_windows_are_never_guessed(live: LiveView, label: Seq<char>, sess: Seq<char>, win: Seq<char>)
    requires
        origin_parts(label) == Some((sess, win)),
        live.windows is Some,
        live.windows->0.dom().contains(win),
        live.windows->0[win].len() >= 2,
    ensures
        state_of(live, label) matches WindowStateView::Live(s, n) ==> s == sess
            && live.windows->0[win].contains((s, n)),
        in_session(live.windows->0[win], sess).len() != 1 ==> state_of(live, label)
            == WindowStateView::Ambiguous(live.windows->0[win]),
{
    let v = live.windows->0[win];
    let pred = session_is(sess);
    if in_session(v, sess).len() == 1 {
        v.filter_lemma(pred);
        let x = in_session(v, sess)[0];
        assert(pred(x));
        assert(v.filter(pred).contains(x));
        v.lemma_filter_contains_rev(pred, x);
        assert(v.contains(x));
    }
}

/// What to do to bring a pane to the front.
#[derive(PartialEq, Eq, Debug)]
pub struct FocusPlan {
    /// The session to switch to first, where the pane is in another than the current one.
    pub switch_to: Option<String>,
    pub window: String,
}

/// What to do to bring a pane to the front.
pub struct FocusPlanView {
    pub switch_to: Option<Seq<char>>,
    pub window: Seq<char>,
}

impl View for FocusPlan {
    type V = FocusPlanView;

    open spec fn view(&self) -> FocusPlanView {
        FocusPlanView {
            switch_to: crate::lineage::opt_text(self.switch_to),
            window: self.window@,
        }
    }
}

/// The place of a pane to go to: the first in the current session, else the first.
pub open spec fn chosen_place(locs: PlacesView, current: Option<Seq<char>>) -> (Seq<char>, Seq<char>) {
    match current {
        Some(cur) => if in_session(locs, cur).len() > 0 {
            in_session(locs, cur)[0]
        } else {
            locs[0]
        },
        None => locs[0],
    }
}

/// The plan for the places of a pane.
pub open spec fn plan_of(locs: Option<PlacesView>, current: Option<Seq<char>>) -> Option<FocusPlanView> {
    match locs {
        Some(v) => if v.len() == 0 {
            None
        } else {
            let (sess, win) = chosen_place(v, current);
            Some(
                FocusPlanView {
                    switch_to: if current == Some(sess) {
                        None
                    } else {
                        Some(sess)
                    },
                    window: win,
                },
            )
        },
        None => None,
    }
}

/// The texts of an optional list of places.
pub open spec fn opt_place_list(o: Option<&Places>) -> Option<PlacesView> {
    match o {
        Some(v) => Some(text::pairs(v@)),
        None => None,
    }
}

/// The view of an optional plan.
pub open spec fn opt_plan(o: Option<FocusPlan>) -> Option<FocusPlanView> {
    match o {
        Some(p) => Some(p@),
        None => None,
    }
}

/// What to do to bring a pane to the front: only select it where it is in the current session,
/// switch to its session first where it is not. `None` when nobody knows where the pane is.
pub fn focus_plan(locs: Option<&Places>, current_session: Option<&str>) -> (r: Option<FocusPlan>)
    ensures
        opt_plan(r) == plan_of(opt_place_list(locs), opt_str(current_session)),
{
    let v = match locs {
        Some(v) => v,
        None => {
            return None;
        },
    };
    if v.len() == 0 {
        return None;
    }
    let at: usize = match current_session {
        Some(cur) => match session_hits(v, cur) {
            (Some(i), _) => i,
            (None, _) => 0,
        },
        None => 0,
    };
    proof {
        assert(text::pairs(v@)[at as int] == (v@[at as int].0@, v@[at as int].1@));
        assert(text::pairs(v@)[at as int] == chosen_place(
            text::pairs(v@),
            opt_str(current_session),
        ));
    }
    let here = match current_session {
        Some(cur) => same(cur, v[at].0.as_str()),
        None => false,
    };
    let switch_to = if here {
        None
    } else {
        Some(copy_text(v[at].0.as_str()))
    };
    Some(FocusPlan { switch_to, window: copy_text(v[at].1.as_str()) })
}

/// The name of a window in a session, where it has one.
pub open spec fn window_name(live: LiveView, sess: Seq<char>, win: Seq<char>) -> Option<Seq<char>> {
    match live.windows {
        Some(m) => if m.dom().contains(win) && in_session(m[win], sess).len() > 0 && in_session(
            m[win],
            sess,
        )[0].1.len() > 0 {
            Some(in_session(m[win], sess)[0].1)
        } else {
            None
        },
        None => None,
    }
}

/// Where a pane is, in words a person knows: `<session>:<window name>` of its first place, and
/// `+N` for N further ones. A window without a name is shown by its id.
pub open spec fn location_of(live: LiveView, pane: Seq<char>) -> Option<Seq<char>> {
    match live.panes {
        Some(m) => if m.dom().contains(pane) && m[pane].len() > 0 {
            let all = sorted_places(m[pane]);
            let (sess, win) = all[0];
            let label = sess + ":"@ + match window_name(live, sess, win) {
                Some(n) => n,
                None => win,
            };
            if all.len() > 1 {
                Some(label + "+"@ + text::dec((all.len() - 1) as nat))
            } else {
                Some(label)
            }
        } else {
            None
        },
        None => None,
    }
}

/// The different places of a list, in their order.
fn sort_places(v: &Places) -> (r: Places)
    ensures
        text::pairs(r@) == sorted_places(text::pairs(v@)),
{
    let ghost all = text::pairs(v@);
    let mut r: Places = Vec::new();
    let mut i: usize = 0;
    proof {
        assert(text::pairs(r@) =~= sorted_places(all.take(0)));
    }
    while i < v.len()
        invariant
            i <= v@.len(),
            all == text::pairs(v@),
            text::pairs(r@) == sorted_places(all.take(i as int)),
        decreases v@.len() - i,
    {
        proof {
            assert(all.take(i + 1).drop_last() =~= all.take(i as int));
            assert(all.take(i + 1).last() == (v@[i as int].0@, v@[i as int].1@));
        }
        insert_place(&mut r, (copy_text(v[i].0.as_str()), copy_text(v[i].1.as_str())));
        i += 1;
    }
    proof {
        assert(all.take(i as int) =~= all);
    }
    r
}

/// Where a pane is, in words a person knows.
pub fn pane_location_label(live: &LiveIndex, pane: &str) -> (r: Option<String>)
    ensures
        crate::lineage::opt_text(r) == location_of(live@, pane@),
{
    let panes = match &live.panes {
        Some(m) => m,
        None => {
            return None;
        },
    };
    let locs = match panes.get(pane) {
        Some(v) => v,
        None => {
            return None;
        },
    };
    proof {
        assert(place_map(panes@)[pane@] == text::pairs(locs@));
    }
    if locs.len() == 0 {
        return None;
    }
    let all = sort_places(locs);
    let ghost av = text::pairs(all@);
    proof {
        sorted_places_ascend(text::pairs(locs@));
        assert(text::pairs(locs@).contains(text::pairs(locs@)[0]));
        assert(av.contains(text::pairs(locs@)[0]));
        assert(all@.len() == av.len());
        assert(av[0] == (all@[0].0@, all@[0].1@));
    }
    let sess = all[0].0.as_str();
    let win = all[0].1.as_str();
    let mut label = copy_text(sess);
    label.append(":");
    let ghost head = label@;
    let mut named = false;
    if let Some(ws) = &live.windows {
        if let Some(places) = ws.get(win) {
            proof {
                assert(place_map(ws@)[win@] == text::pairs(places@));
            }
            if let (Some(i), _) = session_hits(places, sess) {
                if !places[i].1.as_str().is_empty() {
                    label.append(places[i].1.as_str());
                    named = true;
                }
            }
        }
    }
    if !named {
        label.append(win);
    }
    if all.len() > 1 {
        label.append("+");
        push_dec(&mut label, (all.len() - 1) as u64);
    }
    Some(label)
}

} // verus!
