//! What is made of the answers of tmux: which panes and windows there are and where, which pane
//! waits for a person, and how a pane is reached.

use crate::blocker;
use crate::blocker::{Blocker, Capture, Probe};
use crate::live;
use crate::live::{FocusPlanView, Freshness, LiveView, Liveness, PlacesView, WindowStateView};
use crate::text;
use crate::wording;
use vstd::prelude::*;

verus! {

/// A line of an answer has three fields, parted by the first two tabs; the third may hold more
/// tabs. A line with fewer tabs has none.
pub proof fn how_a_line_falls_into_fields(a: Seq<char>, b: Seq<char>, c: Seq<char>)
    requires
        !a.contains('\t'),
        !b.contains('\t'),
    ensures
        live::fields3(a + seq!['\t'] + b + seq!['\t'] + c) == Some((a, b, c)),
        live::fields3(a + seq!['\t'] + b) is None,
        live::fields3(a) is None,
{
    let whole = a + seq!['\t'] + b + seq!['\t'] + c;
    lemma_tab(a, b + seq!['\t'] + c);
    assert(a + seq!['\t'] + (b + seq!['\t'] + c) =~= whole);
    lemma_tab(b, c);
    assert(whole.skip(1int + a.len()) =~= b + seq!['\t'] + c);
    assert(whole.take(a.len() as int) =~= a);
    let rest = b + seq!['\t'] + c;
    assert(rest.take(b.len() as int) =~= b);
    assert(rest.skip(1int + b.len()) =~= c);
    lemma_tab(a, b);
    let two = a + seq!['\t'] + b;
    assert(two.skip(1int + a.len()) =~= b);
    wording::where_a_letter_first_stands(b, '\t');
    wording::where_a_letter_first_stands(a, '\t');
}

/// The first tab stands behind what has none.
proof fn lemma_tab(a: Seq<char>, rest: Seq<char>)
    requires
        !a.contains('\t'),
    ensures
        text::first_at(a + seq!['\t'] + rest, '\t') == a.len(),
{
    let s = a + seq!['\t'] + rest;
    wording::where_a_letter_first_stands(s, '\t');
    assert(s[a.len() as int] == '\t');
    let e = text::first_at(s, '\t');
    assert(s.contains('\t'));
    if e < a.len() {
        assert(a[e] == '\t');
    }
}

/// One more line of the list of the panes adds its pane at its place, behind the places that the
/// pane already had, and changes nothing of the others; a line without three fields changes
/// nothing.
pub proof fn what_a_pane_line_adds(ls: Seq<Seq<char>>, line: Seq<char>)
    ensures
        live::panes_of(Seq::empty()) == Map::<Seq<char>, PlacesView>::empty(),
        match live::fields3(line) {
            None => live::panes_of(ls.push(line)) == live::panes_of(ls),
            Some((pane, sess, win)) => live::panes_of(ls.push(line)) == live::panes_of(ls).insert(
                pane,
                (if live::panes_of(ls).dom().contains(pane) {
                    live::panes_of(ls)[pane]
                } else {
                    Seq::empty()
                }).push((sess, win)),
            ),
        },
{
    assert(ls.push(line).drop_last() =~= ls);
    assert(live::panes_of(Seq::empty()) =~= Map::<Seq<char>, PlacesView>::empty());
    match live::fields3(line) {
        None => {
            assert(live::panes_of(ls.push(line)) =~= live::panes_of(ls));
        },
        Some((pane, sess, win)) => {
            assert forall|p: Seq<char>| p != pane implies live::pane_places(ls.push(line), p)
                == live::pane_places(ls, p) by {}
            if !live::panes_of(ls).dom().contains(pane) {
                assert(live::pane_places(ls, pane) =~= Seq::empty());
            }
            assert(live::panes_of(ls.push(line)) =~= live::panes_of(ls).insert(
                pane,
                (if live::panes_of(ls).dom().contains(pane) {
                    live::panes_of(ls)[pane]
                } else {
                    Seq::empty()
                }).push((sess, win)),
            ));
        },
    }
}

/// One more line of the list of the windows adds its window at its place; a window's places stand
/// in order, each once. The others stay as they are, and a line without three fields changes
/// nothing.
pub proof fn what_a_window_line_adds(ls: Seq<Seq<char>>, line: Seq<char>)
    ensures
        live::windows_of(Seq::empty()) == Map::<Seq<char>, PlacesView>::empty(),
        match live::fields3(line) {
            None => live::windows_of(ls.push(line)) == live::windows_of(ls),
            Some((sess, win, name)) => {
                let before = live::windows_of(ls);
                let after = live::windows_of(ls.push(line));
                &&& after.dom() == before.dom().insert(win)
                &&& forall|w: Seq<char>|
                    w != win && before.dom().contains(w) ==> #[trigger] after[w] == before[w]
                &&& forall|i: int, j: int|
                    #![trigger after[win][i], after[win][j]]
                    0 <= i < j < after[win].len() ==> (text::less(
                        after[win][i].0,
                        after[win][j].0,
                    ) || (after[win][i].0 == after[win][j].0 && text::less(
                        after[win][i].1,
                        after[win][j].1,
                    )))
                &&& forall|x: (Seq<char>, Seq<char>)| #[trigger]
                    after[win].contains(x) <==> x == (sess, name) || (before.dom().contains(win)
                        && before[win].contains(x))
            },
        },
{
    let all = ls.push(line);
    assert(all.drop_last() =~= ls);
    assert(live::windows_of(Seq::empty()) =~= Map::<Seq<char>, PlacesView>::empty());
    let before = live::windows_of(ls);
    let after = live::windows_of(all);
    match live::fields3(line) {
        None => {
            assert(after =~= before);
        },
        Some((sess, win, name)) => {
            assert forall|w: Seq<char>| w != win implies live::window_places(all, w)
                == live::window_places(ls, w) by {}
            let old = live::window_places(ls, win);
            let new = live::window_places(all, win);
            assert(new == old.push((sess, name)));
            live::sorted_places_ascend(old);
            live::sorted_places_ascend(new);
            assert(after.dom() =~= before.dom().insert(win));
            assert forall|x: (Seq<char>, Seq<char>)| #[trigger]
                after[win].contains(x) <==> x == (sess, name) || (before.dom().contains(win)
                    && before[win].contains(x)) by {
                assert(live::sorted_places(new).contains(x) <==> new.contains(x));
                assert(live::sorted_places(old).contains(x) <==> old.contains(x));
                if old.contains(x) {
                    let k = old.index_of(x);
                    assert(new[k] == x);
                }
                assert(new[old.len() as int] == (sess, name));
                if new.contains(x) && x != (sess, name) {
                    let k = new.index_of(x);
                    assert(old[k] == x);
                }
            }
        },
    }
}

/// A round that tmux answered is known by its lines; one that failed is not known at all, and the
/// round counts as a sighting only where both lists came.
pub proof fn what_a_round_knows(
    panes: Option<Seq<char>>,
    at: u64,
    windows: Option<Seq<char>>,
)
    ensures
        ({
            let l = live::live_of(panes, at, windows);
            &&& panes matches Some(out) ==> l.panes == Some(live::panes_of(text::text_lines(out)))
                && l.panes_at == Some(at)
            &&& panes is None ==> l.panes is None && l.panes_at is None
            &&& windows matches Some(out) ==> l.windows == Some(
                live::windows_of(text::text_lines(out)),
            )
            &&& windows is None ==> l.windows is None
            &&& l.observed() == (if panes is Some && windows is Some {
                Some(at)
            } else {
                None
            })
        }),
{
}

/// What is known of a pane: nothing where the list did not come or there is no pane; else that it
/// is there or that it is not.
pub proof fn what_is_known_of_a_pane(l: LiveView, pane: Seq<char>)
    ensures
        live::liveness_of(l, pane) == Liveness::Unknown <==> l.panes is None || pane.len() == 0,
        live::liveness_of(l, pane) == Liveness::Live <==> pane.len() > 0 && l.panes is Some
            && l.panes->0.dom().contains(pane),
        live::liveness_of(l, pane) == Liveness::Dead <==> pane.len() > 0 && l.panes is Some
            && !l.panes->0.dom().contains(pane),
{
}

/// What tmux said is stale after ten seconds, and where it never said anything.
pub proof fn when_a_sighting_is_stale(f: Freshness)
    ensures
        f.stale() <==> f.tmux is None || f.tmux->0 >= 10_000,
{
}

/// A label names a window where it is a session, a colon, and an at sign with a number.
pub proof fn which_labels_name_a_window(sess: Seq<char>, win: Seq<char>, label: Seq<char>)
    ensures
        sess.len() > 0 && win.len() >= 2 && win[0] == '@' && (forall|i: int|
            1 <= i < win.len() ==> '0' <= #[trigger] win[i] <= '9') ==> live::origin_parts(
            sess + seq![':'] + win,
        ) == Some((sess, win)),
        live::origin_parts(label) matches Some((s, w)) ==> label == s + seq![':'] + w && s.len() > 0
            && w.len() >= 2 && w[0] == '@' && forall|i: int|
            1 <= i < w.len() ==> '0' <= #[trigger] w[i] <= '9',
{
    wording::where_a_letter_last_stands(label, ':');
    let c = text::last_at(label, ':');
    if live::origin_parts(label) is Some {
        assert(label =~= label.take(c) + seq![':'] + label.skip(c + 1));
    }
    if sess.len() > 0 && win.len() >= 2 && win[0] == '@' && (forall|i: int|
        1 <= i < win.len() ==> '0' <= #[trigger] win[i] <= '9') {
        let s = sess + seq![':'] + win;
        wording::where_a_letter_last_stands(s, ':');
        let d = text::last_at(s, ':');
        assert(s[sess.len() as int] == ':');
        if d > sess.len() {
            assert(s[d] == win[d - sess.len() - 1]);
        }
        assert(d == sess.len());
        assert(s.take(d) =~= sess);
        assert(s.skip(d + 1) =~= win);
    }
}

/// The places of a session, where there is exactly one.
proof fn lemma_one_in_session(v: PlacesView, sess: Seq<char>, i: int)
    requires
        0 <= i < v.len(),
        v[i].0 == sess,
        forall|j: int| 0 <= j < v.len() && j != i ==> (#[trigger] v[j]).0 != sess,
    ensures
        live::in_session(v, sess) == seq![v[i]],
    decreases v.len(),
{
    reveal(Seq::filter);
    let p = live::session_is(sess);
    let t = v.drop_last();
    if i == v.len() - 1 {
        assert forall|j: int| 0 <= j < t.len() implies (#[trigger] t[j]).0 != sess by {
            assert(t[j] == v[j]);
        }
        lemma_none_in_session(t, sess);
        assert(v.filter(p) =~= seq![v[i]]);
    } else {
        assert forall|j: int| 0 <= j < t.len() && j != i implies (#[trigger] t[j]).0 != sess by {
            assert(t[j] == v[j]);
        }
        lemma_one_in_session(t, sess, i);
        assert(v[v.len() - 1].0 != sess);
        assert(v.filter(p) =~= seq![v[i]]);
    }
}

/// The places of a session, where there is none.
proof fn lemma_none_in_session(v: PlacesView, sess: Seq<char>)
    requires
        forall|j: int| 0 <= j < v.len() ==> (#[trigger] v[j]).0 != sess,
    ensures
        live::in_session(v, sess).len() == 0,
    decreases v.len(),
{
    reveal(Seq::filter);
    if v.len() > 0 {
        let t = v.drop_last();
        assert forall|j: int| 0 <= j < t.len() implies (#[trigger] t[j]).0 != sess by {
            assert(t[j] == v[j]);
        }
        lemma_none_in_session(t, sess);
        assert(v[v.len() - 1].0 != sess);
    }
}

/// The first place of a session stands first among its places.
proof fn lemma_first_in_session(v: PlacesView, sess: Seq<char>, i: int)
    requires
        0 <= i < v.len(),
        v[i].0 == sess,
        forall|j: int| 0 <= j < i ==> (#[trigger] v[j]).0 != sess,
    ensures
        live::in_session(v, sess).len() > 0,
        live::in_session(v, sess)[0] == v[i],
    decreases v.len(),
{
    reveal(Seq::filter);
    let t = v.drop_last();
    if i == v.len() - 1 {
        assert forall|j: int| 0 <= j < t.len() implies (#[trigger] t[j]).0 != sess by {
            assert(t[j] == v[j]);
        }
        lemma_none_in_session(t, sess);
    } else {
        assert forall|j: int| 0 <= j < i implies (#[trigger] t[j]).0 != sess by {
            assert(t[j] == v[j]);
        }
        lemma_first_in_session(t, sess, i);
    }
}

/// The state of the window that a worker came from. A label that names no window has none; without
/// the list of the windows nothing is known; a window that is not listed is gone; one place is the
/// place; of several, the one in the label's session where there is just one, and else none of
/// them.
pub proof fn what_is_known_of_a_window(l: LiveView, label: Seq<char>, i: int)
    ensures
        live::origin_parts(label) is None <==> live::state_of(l, label)
            == WindowStateView::NotAWindow,
        live::origin_parts(label) matches Some((sess, win)) ==> {
            &&& l.windows is None ==> live::state_of(l, label) == WindowStateView::Unknown
            &&& l.windows matches Some(m) ==> {
                &&& !m.dom().contains(win) ==> live::state_of(l, label) == WindowStateView::Gone
                &&& m.dom().contains(win) && m[win].len() == 1 ==> live::state_of(l, label)
                    == WindowStateView::Live(m[win][0].0, m[win][0].1)
                &&& m.dom().contains(win) && m[win].len() > 1 && 0 <= i < m[win].len() && m[win][i].0
                    == sess && (forall|j: int|
                    0 <= j < m[win].len() && j != i ==> (#[trigger] m[win][j]).0 != sess)
                    ==> live::state_of(l, label) == WindowStateView::Live(sess, m[win][i].1)
                &&& m.dom().contains(win) && m[win].len() > 1 && (forall|j: int|
                    0 <= j < m[win].len() ==> (#[trigger] m[win][j]).0 != sess) ==> live::state_of(
                    l,
                    label,
                ) == WindowStateView::Ambiguous(m[win])
            }
        },
{
    if let Some((sess, win)) = live::origin_parts(label) {
        if let Some(m) = l.windows {
            if m.dom().contains(win) && m[win].len() > 1 {
                if 0 <= i < m[win].len() && m[win][i].0 == sess && (forall|j: int|
                    0 <= j < m[win].len() && j != i ==> (#[trigger] m[win][j]).0 != sess) {
                    lemma_one_in_session(m[win], sess, i);
                }
                if forall|j: int| 0 <= j < m[win].len() ==> (#[trigger] m[win][j]).0 != sess {
                    lemma_none_in_session(m[win], sess);
                }
            }
        }
    }
}

/// The words for the state of a window.
pub proof fn what_is_said_of_a_window(l: LiveView, label: Seq<char>)
    ensures
        match live::state_of(l, label) {
            WindowStateView::Live(sess, name) => live::origin_parts(label) matches Some((_, win))
                && live::detail_of(l, label) == sess + ":"@ + name + " ("@ + win + ", live)"@,
            WindowStateView::Ambiguous(locs) => locs.len() == 2 ==> live::detail_of(l, label)
                == label + " (linked: "@ + (locs[0].0 + ":"@ + locs[0].1 + ", "@ + (locs[1].0 + ":"@
                + locs[1].1)) + ")"@,
            WindowStateView::Gone => live::detail_of(l, label) == label + " (gone)"@,
            WindowStateView::Unknown => live::detail_of(l, label) == label + " (unknown)"@,
            WindowStateView::NotAWindow => live::detail_of(l, label) == label + " (n/a)"@,
        },
{
    if let WindowStateView::Ambiguous(locs) = live::state_of(l, label) {
        if locs.len() == 2 {
            let v = locs.map_values(|p: (Seq<char>, Seq<char>)| live::place_text(p));
            reveal_with_fuel(text::join, 3);
            assert(v.drop_last() =~= seq![v[0]]);
            assert(text::join(v, ", "@) == v[0] + ", "@ + v[1]);
        }
    }
}

/// How a pane is reached: at its first place in the session that one is in, without changing the
/// session; else at its first place, by changing to that session. A pane that is nowhere cannot be
/// reached.
pub proof fn how_a_pane_is_reached(v: PlacesView, cur: Seq<char>, i: int)
    ensures
        live::plan_of(None, Some(cur)) is None,
        live::plan_of(Some(Seq::empty()), Some(cur)) is None,
        0 <= i < v.len() && v[i].0 == cur && (forall|j: int|
            0 <= j < i ==> (#[trigger] v[j]).0 != cur) ==> live::plan_of(Some(v), Some(cur)) == Some(
            FocusPlanView { switch_to: None, window: v[i].1 },
        ),
        v.len() > 0 && (forall|j: int| 0 <= j < v.len() ==> (#[trigger] v[j]).0 != cur)
            ==> live::plan_of(Some(v), Some(cur)) == Some(
            FocusPlanView { switch_to: Some(v[0].0), window: v[0].1 },
        ),
        v.len() > 0 ==> live::plan_of(Some(v), None) == Some(
            FocusPlanView { switch_to: Some(v[0].0), window: v[0].1 },
        ),
{
    if 0 <= i < v.len() && v[i].0 == cur && (forall|j: int|
        0 <= j < i ==> (#[trigger] v[j]).0 != cur) {
        lemma_first_in_session(v, cur, i);
    }
    if v.len() > 0 && (forall|j: int| 0 <= j < v.len() ==> (#[trigger] v[j]).0 != cur) {
        lemma_none_in_session(v, cur);
        assert(v[0].0 != cur);
    }
}

/// Where a pane is shown to be: the session and the window of the first of its places in order, the
/// window by its name in that session where it has one and else by its id, and how many more
/// places there are.
pub proof fn where_a_pane_is(l: LiveView, pane: Seq<char>, k: int)
    ensures
        l.panes is None ==> live::location_of(l, pane) is None,
        l.panes matches Some(m) ==> {
            &&& !m.dom().contains(pane) ==> live::location_of(l, pane) is None
            &&& m.dom().contains(pane) && m[pane].len() > 0 ==> {
                let all = live::sorted_places(m[pane]);
                let sess = all[0].0;
                let win = all[0].1;
                let named = l.windows matches Some(ws) && ws.dom().contains(win) && 0 <= k
                    < ws[win].len() && ws[win][k].0 == sess && (forall|j: int|
                    0 <= j < k ==> (#[trigger] ws[win][j]).0 != sess);
                let more = if all.len() > 1 {
                    "+"@ + text::dec((all.len() - 1) as nat)
                } else {
                    Seq::empty()
                };
                &&& all.len() > 0
                &&& named && (l.windows->0)[win][k].1.len() > 0 ==> live::location_of(l, pane)
                    == Some(sess + ":"@ + (l.windows->0)[win][k].1 + more)
                &&& named && (l.windows->0)[win][k].1.len() == 0 ==> live::location_of(l, pane)
                    == Some(sess + ":"@ + win + more)
                &&& l.windows is None ==> live::location_of(l, pane) == Some(
                    sess + ":"@ + win + more,
                )
            }
        },
{
    if let Some(m) = l.panes {
        if m.dom().contains(pane) && m[pane].len() > 0 {
            let all = live::sorted_places(m[pane]);
            live::sorted_places_ascend(m[pane]);
            assert(m[pane].contains(m[pane][0]));
            assert(all.contains(m[pane][0]));
            let sess = all[0].0;
            let win = all[0].1;
            if let Some(ws) = l.windows {
                if ws.dom().contains(win) && 0 <= k < ws[win].len() && ws[win][k].0 == sess && (
                forall|j: int| 0 <= j < k ==> (#[trigger] ws[win][j]).0 != sess) {
                    lemma_first_in_session(ws[win], sess, k);
                    let name = ws[win][k].1;
                    assert(sess + ":"@ + name + Seq::<char>::empty() =~= sess + ":"@ + name);
                    let n = "+"@ + text::dec((all.len() - 1) as nat);
                    assert(sess + ":"@ + name + "+"@ + text::dec((all.len() - 1) as nat) =~= sess
                        + ":"@ + name + n);
                }
            }
            assert(sess + ":"@ + win + Seq::<char>::empty() =~= sess + ":"@ + win);
            let n = "+"@ + text::dec((all.len() - 1) as nat);
            assert(sess + ":"@ + win + "+"@ + text::dec((all.len() - 1) as nat) =~= sess + ":"@ + win
                + n);
        }
    }
}

/// What a look at a pane tells: in a mode it is occluded, whatever the screen shows; in no mode, a
/// prompt is a prompt, a clear screen is nothing, and a failed capture is not known; where the mode
/// is not known nothing is. The lines of a prompt are kept with it, and with nothing else.
pub proof fn what_a_look_tells(c: Capture)
    ensures
        blocker::verdict(Some(true), c) == Blocker::Occluded,
        blocker::verdict(None, c) == Blocker::Unknown,
        blocker::verdict(Some(false), c) == Blocker::Prompt <==> c is Prompt,
        blocker::verdict(Some(false), c) == Blocker::Nothing <==> c is Clear,
        blocker::verdict(Some(false), c) == Blocker::Unknown <==> c is Failed,
        c matches Capture::Prompt(ls) ==> blocker::prompt_lines(Some(false), c) == Some(ls),
        !(c is Prompt) ==> blocker::prompt_lines(Some(false), c) is None,
        blocker::prompt_lines(Some(true), c) is None,
        blocker::prompt_lines(None, c) is None,
{
}

/// One more look at a pane: its verdict stands for the pane, and its lines where it is a prompt;
/// nothing of the other panes changes. A look at no pane counts nowhere.
pub proof fn what_one_more_look_adds(ps: Seq<Probe>, p: Probe)
    ensures
        blocker::verdicts(Seq::empty()) == Map::<Seq<char>, Blocker>::empty(),
        blocker::prompts(Seq::empty()) == Map::<Seq<char>, Vec<String>>::empty(),
        p.pane@.len() == 0 ==> blocker::verdicts(ps.push(p)) == blocker::verdicts(ps)
            && blocker::prompts(ps.push(p)) == blocker::prompts(ps),
        p.pane@.len() > 0 ==> blocker::verdicts(ps.push(p)) == blocker::verdicts(ps).insert(
            p.pane@,
            blocker::verdict(p.in_mode, p.capture),
        ),
        p.pane@.len() > 0 ==> match (p.in_mode, p.capture) {
            (Some(false), Capture::Prompt(ls)) => blocker::prompts(ps.push(p)) == blocker::prompts(
                ps,
            ).insert(p.pane@, ls),
            _ => blocker::prompts(ps.push(p)) == blocker::prompts(ps),
        },
{
    assert(ps.push(p).drop_last() =~= ps);
}

/// A prompt is shown from the second round in a row on, and not before; everything else is shown at
/// once. A round that says nothing shows nothing and forgets all prompts.
pub proof fn when_a_prompt_is_shown(
    streak: Map<Seq<char>, u32>,
    raw: Map<Seq<char>, Blocker>,
    pane: Seq<char>,
)
    requires
        raw.dom().contains(pane),
    ensures
        blocker::shown(streak, None) is None,
        blocker::next_streak(streak, None) == Map::<Seq<char>, u32>::empty(),
        blocker::shown(streak, Some(raw)) matches Some(m) && m.dom() == raw.dom() && {
            &&& raw[pane] != Blocker::Prompt ==> m[pane] == raw[pane]
            &&& raw[pane] == Blocker::Prompt && streak.dom().contains(pane) && streak[pane] >= 1
                ==> m[pane] == Blocker::Prompt
            &&& raw[pane] == Blocker::Prompt && !streak.dom().contains(pane) ==> m[pane]
                == Blocker::Nothing
        },
        raw[pane] == Blocker::Prompt ==> blocker::next_streak(streak, Some(raw)).dom().contains(
            pane,
        ) && blocker::next_streak(streak, Some(raw))[pane] >= 1,
        raw[pane] != Blocker::Prompt ==> !blocker::next_streak(streak, Some(raw)).dom().contains(
            pane,
        ),
{
    assert((blocker::shown(streak, Some(raw))->0).dom() =~= raw.dom());
}

/// The lines of a prompt are kept as long as the prompt is shown, the newest of a pane's lines, and
/// those of no other pane.
pub proof fn which_lines_are_kept(
    before: Map<Seq<char>, Vec<String>>,
    fresh: Map<Seq<char>, Vec<String>>,
    shown: Option<Map<Seq<char>, Blocker>>,
    pane: Seq<char>,
)
    ensures
        ({
            let k = blocker::kept(before.union_prefer_right(fresh), shown);
            let at_prompt = shown matches Some(m) && m.dom().contains(pane) && m[pane]
                == Blocker::Prompt;
            &&& k.dom().contains(pane) <==> at_prompt && (fresh.dom().contains(pane)
                || before.dom().contains(pane))
            &&& at_prompt && fresh.dom().contains(pane) ==> k[pane] == fresh[pane]
            &&& at_prompt && !fresh.dom().contains(pane) && before.dom().contains(pane) ==> k[pane]
                == before[pane]
        }),
{
}

/// A window without a name in a pane's session is shown by its id.
pub proof fn which_windows_have_no_name(l: LiveView, sess: Seq<char>, win: Seq<char>)
    ensures
        l.windows is None ==> live::window_name(l, sess, win) is None,
        l.windows matches Some(ws) ==> {
            &&& !ws.dom().contains(win) ==> live::window_name(l, sess, win) is None
            &&& (forall|j: int| 0 <= j < ws[win].len() ==> (#[trigger] ws[win][j]).0 != sess)
                ==> live::window_name(l, sess, win) is None
        },
{
    if let Some(ws) = l.windows {
        if forall|j: int| 0 <= j < ws[win].len() ==> (#[trigger] ws[win][j]).0 != sess {
            lemma_none_in_session(ws[win], sess);
        }
    }
}

} // verus!
